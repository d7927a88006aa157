use vstd::prelude::*;
use base64::Engine;
use vstd::string::StringExecFns;
use crate::entity::{ImageSearchParams, TextSearchParams, UploadParams, UploadResponse};
use crate::error::AppError;
use crate::filter::{build_date_filter, date_conditions, filter_view, DateFilter, UtcTime};
use crate::text::same_text;

verus! {

broadcast use vstd::string::group_string_axioms;

/// The character of a six-bit value in the standard base64 alphabet of
/// RFC 4648: `A`-`Z`, `a`-`z`, `0`-`9`, `+`, `/`.
pub open spec fn base64_char(v: int) -> char {
    if v < 26 {
        (65 + v) as char
    } else if v < 52 {
        (97 + (v - 26)) as char
    } else if v < 62 {
        (48 + (v - 52)) as char
    } else if v == 62 {
        '+'
    } else {
        '/'
    }
}

/// The standard base64 encoding (RFC 4648 alphabet, with `=` padding) of
/// `bytes`: every group of three bytes becomes four characters of six bits
/// each; a last group of one or two bytes is padded with `=` to four.
pub open spec fn base64_standard(bytes: Seq<u8>) -> Seq<char>
    decreases bytes.len(),
{
    if bytes.len() == 0 {
        seq![]
    } else if bytes.len() == 1 {
        let b0 = bytes[0] as int;
        seq![base64_char(b0 / 4), base64_char((b0 % 4) * 16), '=', '=']
    } else if bytes.len() == 2 {
        let b0 = bytes[0] as int;
        let b1 = bytes[1] as int;
        seq![
            base64_char(b0 / 4),
            base64_char((b0 % 4) * 16 + b1 / 16),
            base64_char((b1 % 16) * 4),
            '=',
        ]
    } else {
        let b0 = bytes[0] as int;
        let b1 = bytes[1] as int;
        let b2 = bytes[2] as int;
        seq![
            base64_char(b0 / 4),
            base64_char((b0 % 4) * 16 + b1 / 16),
            base64_char((b1 % 16) * 4 + b2 / 64),
            base64_char(b2 % 64),
        ] + base64_standard(bytes.subrange(3, bytes.len() as int))
    }
}

/// The encoding has four characters for every started group of three bytes.
pub proof fn lemma_base64_length(bytes: Seq<u8>)
    ensures
        base64_standard(bytes).len() == (bytes.len() + 2) / 3 * 4,
    decreases bytes.len(),
{
    if bytes.len() >= 3 {
        lemma_base64_length(bytes.subrange(3, bytes.len() as int));
    }
}

/// `base64::engine::general_purpose::STANDARD.encode`: the text is the
/// standard base64 encoding of the bytes with padding, as RFC 4648 defines
/// it. The crate panics when the encoded length does not fit a `usize`.
#[verifier::external_body]
fn encode_base64(bytes: &[u8]) -> (res: String)
    requires
        (bytes@.len() + 2) / 3 * 4 <= usize::MAX,
    ensures
        res@ == base64_standard(bytes@),
{
    base64::engine::general_purpose::STANDARD.encode(bytes)
}

/// The text under which an image is stored in its point's payload: the
/// standard base64 encoding of its bytes, four characters for every started
/// group of three bytes.
pub fn image_base64(bytes: &[u8]) -> (res: String)
    requires
        (bytes@.len() + 2) / 3 * 4 <= usize::MAX,
    ensures
        res@ == base64_standard(bytes@),
        res@.len() == (bytes@.len() + 2) / 3 * 4,
{
    proof {
        lemma_base64_length(bytes@);
    }
    encode_base64(bytes)
}

/// What a part of an upload form carries, by its name.
#[derive(Debug, Clone, Copy, PartialEq, Eq)]
pub enum UploadField {
    /// `meta`: the JSON metadata of the image.
    Meta,
    /// `image`: the image itself.
    Image,
    /// Any other part, which is ignored.
    Ignored,
}

/// The role of an upload form part, by its name.
pub fn upload_field(name: &str) -> (res: UploadField)
    ensures
        name@ == "meta"@ ==> res == UploadField::Meta,
        name@ == "image"@ ==> res == UploadField::Image,
        name@ != "meta"@ && name@ != "image"@ ==> res == UploadField::Ignored,
{
    proof {
        reveal_strlit("meta");
        reveal_strlit("image");
        assert("meta"@.len() == 4);
        assert("image"@.len() == 5);
    }
    if same_text(name, "meta") {
        UploadField::Meta
    } else if same_text(name, "image") {
        UploadField::Image
    } else {
        UploadField::Ignored
    }
}

/// An upload that has both of its parts: the metadata and the image, the
/// latter also as base64 text for the stored payload.
pub struct CompleteUpload {
    pub meta: UploadParams,
    pub image_base64: String,
}

/// Closes an upload form: it is accepted only when it carried both the
/// metadata and the image; otherwise it is refused with `NoImageUploaded`.
pub fn finish_upload(meta: Option<UploadParams>, image: Option<&[u8]>) -> (res: Result<
    CompleteUpload,
    AppError,
>)
    requires
        image matches Some(b) ==> (b@.len() + 2) / 3 * 4 <= usize::MAX,
    ensures
        (meta is Some && image is Some) <==> res is Ok,
        res is Err ==> res == Err::<CompleteUpload, AppError>(AppError::NoImageUploaded),
        res matches Ok(u) ==> meta == Some(u.meta) && u.image_base64@ == base64_standard(
            image->0@,
        ),
{
    match (meta, image) {
        (Some(m), Some(b)) => Ok(CompleteUpload { meta: m, image_base64: image_base64(b) }),
        _ => Err(AppError::NoImageUploaded),
    }
}

/// The point to store for an upload: the image's features go with these
/// payload fields into the upload's collection.
pub struct ImageRecord {
    pub collection: String,
    pub chat_id: i64,
    pub msg_id: i32,
    pub posted_at: UtcTime,
    pub base64: String,
}

/// Decides an insertion: a missing collection refuses it with
/// `CollectionNotFound`; otherwise the stored point carries the upload's
/// message, chat, post time and image text.
pub fn plan_insert(meta: &UploadParams, collection_exists: bool, base64: String) -> (res: Result<
    ImageRecord,
    AppError,
>)
    ensures
        !collection_exists ==> res == Err::<ImageRecord, AppError>(
            AppError::CollectionNotFound(meta.collection),
        ),
        collection_exists ==> res is Ok,
        res matches Ok(r) ==> {
            &&& r.collection == meta.collection
            &&& r.chat_id == meta.chat_id
            &&& r.msg_id == meta.msg_id
            &&& r.posted_at == meta.posted_at
            &&& r.base64 == base64
        },
{
    if !collection_exists {
        return Err(AppError::CollectionNotFound(meta.collection.clone()));
    }
    Ok(
        ImageRecord {
            collection: meta.collection.clone(),
            chat_id: meta.chat_id,
            msg_id: meta.msg_id,
            posted_at: meta.posted_at,
            base64,
        },
    )
}

/// The answer to an accepted upload: the metadata it was stored with.
pub fn upload_response(meta: UploadParams) -> (res: UploadResponse)
    ensures
        res.msg_id == meta.msg_id,
        res.chat_id == meta.chat_id,
        res.posted_at == meta.posted_at,
        res.collection == meta.collection,
{
    UploadResponse {
        msg_id: meta.msg_id,
        chat_id: meta.chat_id,
        posted_at: meta.posted_at,
        collection: meta.collection,
    }
}

/// What a part of an image-search form carries, by its name.
#[derive(Debug, Clone, Copy, PartialEq, Eq)]
pub enum SearchField {
    /// `image`: the example image.
    Image,
    /// `params`: the JSON search parameters.
    Params,
    /// Any other part, which is ignored with a warning.
    Unknown,
}

/// The role of an image-search form part. An empty part of any name ends the
/// request with `NoImageUploaded`.
pub fn search_field(name: &str, data_len: usize) -> (res: Result<SearchField, AppError>)
    ensures
        data_len == 0 ==> res == Err::<SearchField, AppError>(AppError::NoImageUploaded),
        data_len != 0 && name@ == "image"@ ==> res == Ok::<SearchField, AppError>(
            SearchField::Image,
        ),
        data_len != 0 && name@ == "params"@ ==> res == Ok::<SearchField, AppError>(
            SearchField::Params,
        ),
        data_len != 0 && name@ != "image"@ && name@ != "params"@ ==> res == Ok::<
            SearchField,
            AppError,
        >(SearchField::Unknown),
{
    proof {
        reveal_strlit("image");
        reveal_strlit("params");
        assert("image"@.len() == 5);
        assert("params"@.len() == 6);
    }
    if data_len == 0 {
        return Err(AppError::NoImageUploaded);
    }
    if same_text(name, "image") {
        Ok(SearchField::Image)
    } else if same_text(name, "params") {
        Ok(SearchField::Params)
    } else {
        Ok(SearchField::Unknown)
    }
}

/// A search to run: in which collection, how many points at most, and the
/// date bounds on the posts.
pub struct SearchRequest {
    pub collection: String,
    pub limit: u64,
    pub start_from: Option<UtcTime>,
    pub start_after: Option<UtcTime>,
}

/// The search that an image search asks for: at most 20 results unless a
/// limit is given; posts from `posted_after` on and after `posted_before`.
pub fn image_search_request(params: ImageSearchParams) -> (res: SearchRequest)
    ensures
        res.collection == params.collection,
        res.limit == match params.limit {
            Some(l) => l,
            None => 20,
        },
        res.start_from == params.posted_after,
        res.start_after == params.posted_before,
{
    SearchRequest {
        collection: params.collection,
        limit: match params.limit {
            Some(l) => l,
            None => 20,
        },
        start_from: params.posted_after,
        start_after: params.posted_before,
    }
}

/// What an image search form asks for, once read: no search when it carried
/// no image (the answer is the empty list); the search of its parameters
/// when it carried an image and parameters; and a `MetadataError` when it
/// carried an image but no parameters.
pub fn image_search_plan(has_image: bool, params: Option<ImageSearchParams>) -> (res: Result<
    Option<SearchRequest>,
    AppError,
>)
    ensures
        !has_image ==> (res matches Ok(r) && r is None),
        has_image && params is None ==> (res matches Err(AppError::MetadataError(m)) && m@
            == "the params part is missing"@),
        has_image && params is Some ==> (res matches Ok(r) && r is Some),
        res matches Ok(Some(r)) ==> {
            let p = params->0;
            &&& r.collection == p.collection
            &&& r.limit == match p.limit {
                Some(l) => l,
                None => 20,
            }
            &&& r.start_from == p.posted_after
            &&& r.start_after == p.posted_before
        },
{
    if !has_image {
        return Ok(None);
    }
    match params {
        Some(p) => Ok(Some(image_search_request(p))),
        None => Err(AppError::MetadataError(String::from_str("the params part is missing"))),
    }
}

/// The search that a search by tags asks for: at most 36 results unless a
/// limit is given; posts from `posted_before` on and after `posted_after`.
pub fn text_search_request(params: &TextSearchParams) -> (res: SearchRequest)
    ensures
        res.collection == params.collection,
        res.limit == match params.limit {
            Some(l) => l,
            None => 36,
        },
        res.start_from == params.posted_before,
        res.start_after == params.posted_after,
{
    SearchRequest {
        collection: params.collection.clone(),
        limit: match params.limit {
            Some(l) => l,
            None => 36,
        },
        start_from: params.posted_before,
        start_after: params.posted_after,
    }
}

/// How the vector database is asked to search: the collection, the limit,
/// the HNSW beam width, approximate search, with payloads and without
/// vectors, and the date filter.
pub struct SearchPlan {
    pub collection: String,
    pub limit: u64,
    pub hnsw_ef: u64,
    pub exact: bool,
    pub with_payload: bool,
    pub with_vectors: bool,
    pub filter: Option<DateFilter>,
}

/// Plans a search: a missing collection refuses it with `CollectionNotFound`;
/// otherwise the database searches the collection approximately with beam
/// width 256, returns payloads but no vectors, and applies the date filter
/// of the request's bounds.
pub fn plan_search(req: SearchRequest, collection_exists: bool) -> (res: Result<SearchPlan, AppError>)
    ensures
        !collection_exists ==> res == Err::<SearchPlan, AppError>(
            AppError::CollectionNotFound(req.collection),
        ),
        collection_exists ==> res is Ok,
        res matches Ok(p) ==> {
            &&& p.collection == req.collection
            &&& p.limit == req.limit
            &&& p.hnsw_ef == 256
            &&& !p.exact
            &&& p.with_payload
            &&& !p.with_vectors
            &&& (p.filter is None <==> (req.start_from is None && req.start_after is None))
            &&& (p.filter matches Some(f) ==> filter_view(f) == date_conditions(
                req.start_from,
                req.start_after,
            ))
        },
{
    if !collection_exists {
        return Err(AppError::CollectionNotFound(req.collection));
    }
    let filter = build_date_filter(req.start_from, req.start_after);
    Ok(
        SearchPlan {
            collection: req.collection,
            limit: req.limit,
            hnsw_ef: 256,
            exact: false,
            with_payload: true,
            with_vectors: false,
            filter,
        },
    )
}

/// A search by tags reports any failure to read its results as `Unknown`.
pub fn tag_search_failure(cause: AppError) -> (res: AppError)
    ensures
        res == AppError::Unknown,
{
    let _ = cause;
    AppError::Unknown
}

/// The answer to creating a collection.
pub fn collection_created_message(name: &str) -> (res: String)
    ensures
        res@ == "Collection '"@ + name@ + "' created successfully"@,
{
    let mut res = String::from_str("Collection '");
    res.append(name);
    res.append("' created successfully");
    res
}

} // verus!
