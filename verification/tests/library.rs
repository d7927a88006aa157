use viz_rs::auth::{authorize, constant_time_eq, cors_origins, Access};
use viz_rs::entity::{points_count, ImageSearchParams, MetadataResponse, TextSearchParams, UploadParams};
use viz_rs::error::AppError;
use viz_rs::filter::{build_date_filter, Bound, UtcTime};
use viz_rs::ingest::{
    backfill_collection, backfill_target, ingest_params, photo_dir, photo_path, watch_step,
    BackfillProgress, ChatUpdate, WatchAction,
};
use viz_rs::payload::{
    get_date_value, get_field, get_int64_value, get_int_value, get_string_value, point_chat_id,
    point_payload, search_hit, Payload, PayloadValue, SourceRow,
};
use viz_rs::routes::{
    collection_created_message, finish_upload, image_base64, image_search_plan,
    image_search_request, plan_insert, plan_search,
    search_field, tag_search_failure, text_search_request, upload_field, upload_response,
    SearchField, SearchRequest, UploadField,
};
use viz_rs::tags::match_tags;
use viz_rs::text::{any_word_within, contains, decimal, string_of, trim_chars};

fn t(secs: i64) -> UtcTime {
    UtcTime { secs, nanos: 0 }
}

fn strings(v: &[&str]) -> Vec<String> {
    v.iter().map(|s| s.to_string()).collect()
}

fn chars(s: &str) -> Vec<char> {
    s.chars().collect()
}

// ---- constant-time comparison ----

#[test]
fn constant_time_eq_equal_keys() {
    assert!(constant_time_eq(b"secret-key", b"secret-key"));
    assert!(constant_time_eq(b"", b""));
}

#[test]
fn constant_time_eq_different_keys() {
    assert!(!constant_time_eq(b"secret-key", b"secret-kez"));
    assert!(!constant_time_eq(b"secret", b"secret-key"));
    assert!(!constant_time_eq(b"a", b""));
}

// ---- authorisation ----

#[test]
fn authorize_without_configured_key_refuses_everything() {
    assert_eq!(authorize(None, Some(b"anything")), Access::Misconfigured);
    assert_eq!(authorize(None, None), Access::Misconfigured);
    assert_eq!(Access::Misconfigured.refusal_status(), Some(500));
}

#[test]
fn authorize_with_empty_key_refuses_everything() {
    assert_eq!(authorize(Some(""), None), Access::Unauthorized);
    assert_eq!(authorize(Some(""), Some(b"")), Access::Unauthorized);
    assert_eq!(authorize(Some(""), Some(b"x")), Access::Unauthorized);
    assert_eq!(authorize(Some(""), Some(b"k\x01y")), Access::Unauthorized);
    assert_eq!(Access::Unauthorized.refusal_status(), Some(401));
}

#[test]
fn authorize_grants_only_the_configured_key() {
    assert_eq!(authorize(Some("k3y"), Some(b"k3y")), Access::Granted);
    assert_eq!(authorize(Some("k3y"), Some(b"k3z")), Access::Unauthorized);
    assert_eq!(authorize(Some("k3y"), None), Access::Unauthorized);
    assert_eq!(Access::Unauthorized.refusal_status(), Some(401));
    assert_eq!(Access::Granted.refusal_status(), None);
}

#[test]
fn authorize_treats_a_non_text_header_as_empty() {
    // A header value that is not visible ASCII counts as the empty key.
    assert_eq!(authorize(Some("k\u{1}y"), Some(b"k\x01y")), Access::Unauthorized);
    assert_eq!(authorize(Some("k3y"), Some(b"")), Access::Unauthorized);
    assert_eq!(authorize(Some("a\tb"), Some(b"a\tb")), Access::Granted);
}

// ---- cross-origin list ----

#[test]
fn cors_origins_trims_and_drops_empty_pieces() {
    let got = cors_origins(" http://a.example , ,http://b.example,");
    assert_eq!(got, strings(&["http://a.example", "http://b.example"]));
}

#[test]
fn cors_origins_empty_configuration() {
    let defaults = strings(&["http://localhost:3011", "http://localhost:5173"]);
    assert_eq!(cors_origins(""), defaults);
    assert_eq!(cors_origins(" , "), defaults);
    assert_eq!(cors_origins("bad\u{1}origin"), defaults);
}

#[test]
fn cors_origins_drops_invalid_header_values() {
    let got = cors_origins("http://ok.example,bad\u{7f}origin,also\nbad");
    assert_eq!(got, strings(&["http://ok.example"]));
}

// ---- date filter ----

#[test]
fn date_filter_absent_without_bounds() {
    assert!(build_date_filter(None, None).is_none());
}

#[test]
fn date_filter_with_both_bounds() {
    let f = build_date_filter(Some(t(100)), Some(t(200))).unwrap();
    assert_eq!(f.must.len(), 2);
    assert_eq!(f.must[0].key, "posted_at");
    assert_eq!(f.must[0].bound, Bound::AtOrAfter);
    assert_eq!(f.must[0].at, t(100));
    assert_eq!(f.must[1].key, "posted_at");
    assert_eq!(f.must[1].bound, Bound::After);
    assert_eq!(f.must[1].at, t(200));
}

#[test]
fn date_filter_with_one_bound() {
    let f = build_date_filter(None, Some(t(7))).unwrap();
    assert_eq!(f.must.len(), 1);
    assert_eq!(f.must[0].bound, Bound::After);
    let g = build_date_filter(Some(t(-3)), None).unwrap();
    assert_eq!(g.must.len(), 1);
    assert_eq!(g.must[0].bound, Bound::AtOrAfter);
    assert_eq!(g.must[0].at, t(-3));
}

// ---- tag matching ----

#[test]
fn tags_hit_classes_containing_the_tag() {
    let classes = strings(&["German shepherd dog", "tabby, tabby cat", "hotdog, hot dog"]);
    let q = match_tags(&strings(&["DOG"]), &classes);
    assert_eq!(q.len(), 3);
    assert!(q.hit(0));
    assert!(!q.hit(1));
    assert!(q.hit(2));
    assert_eq!(q.matches_found(), 2);
    assert_eq!(q.weight(0), (1, 2));
    assert_eq!(q.weight(1), (0, 2));
    assert_eq!(q.weight(2), (1, 2));
}

#[test]
fn tags_hit_by_a_word_of_the_class() {
    let classes = strings(&["tabby, tabby cat", "goldfish"]);
    let q = match_tags(&strings(&["big tabby"]), &classes);
    assert!(q.hit(0));
    assert!(!q.hit(1));
    assert_eq!(q.matches_found(), 1);
    assert_eq!(q.weight(0), (1, 1));
}

#[test]
fn tags_count_every_matching_pair() {
    let classes = strings(&["cat", "wildcat"]);
    let q = match_tags(&strings(&["cat", "CAT", "wild"]), &classes);
    // "cat" and "CAT" hit both classes; "wild" hits "wildcat" only.
    assert_eq!(q.matches_found(), 5);
    assert_eq!(q.weight(0), (1, 2));
    assert_eq!(q.weight(1), (1, 2));
}

#[test]
fn tags_without_match_give_a_uniform_query() {
    let classes = strings(&["cat", "dog", "fish", "bird"]);
    let q = match_tags(&strings(&["zebra"]), &classes);
    assert_eq!(q.matches_found(), 0);
    for i in 0..4 {
        assert!(!q.hit(i));
        assert_eq!(q.weight(i), (1, 4));
    }
}

#[test]
fn tag_weights_sum_to_one() {
    let classes = strings(&["cat", "dog", "hot dog", "catfish", "eel"]);
    for tags in [vec!["dog"], vec!["cat", "eel"], vec!["nothing"], vec![]] {
        let q = match_tags(&strings(&tags), &classes);
        let den = q.weight(0).1;
        let mut sum = 0;
        for i in 0..q.len() {
            assert_eq!(q.weight(i).1, den);
            sum += q.weight(i).0;
        }
        assert!(den > 0);
        assert_eq!(sum, den);
    }
}

#[test]
fn tags_compare_in_lower_case() {
    let q = match_tags(&strings(&["ÄPFEL"]), &strings(&["äpfel", "Birne"]));
    assert!(q.hit(0));
    assert!(!q.hit(1));
}

#[test]
fn tags_empty_tag_matches_every_class() {
    let q = match_tags(&strings(&[""]), &strings(&["cat", "dog"]));
    assert!(q.hit(0) && q.hit(1));
    assert_eq!(q.matches_found(), 2);
}

// ---- text helpers ----

#[test]
fn text_helpers() {
    assert!(contains(&chars("hotdog"), &chars("dog")));
    assert!(contains(&chars("dog"), &chars("")));
    assert!(!contains(&chars("do"), &chars("dog")));
    assert!(any_word_within(&chars("tabby cat"), &chars("a cat!")));
    assert!(!any_word_within(&chars("   "), &chars("anything")));
    assert_eq!(trim_chars(&chars("\t a b \n")), chars("a b"));
    assert_eq!(string_of(&chars("xyz")), "xyz");
    assert_eq!(trim_chars(&chars("\u{3000}x\u{2003}")), chars("x"));
    for c in (0u32..=0x10FFFF).filter_map(char::from_u32) {
        assert_eq!(trim_chars(&[c]).is_empty(), c.is_whitespace());
    }
}

#[test]
fn decimal_text_of_integers() {
    assert_eq!(decimal(0), "0");
    assert_eq!(decimal(42), "42");
    assert_eq!(decimal(-1001234567890), "-1001234567890");
    assert_eq!(decimal(i64::MIN), i64::MIN.to_string());
    assert_eq!(decimal(i64::MAX), i64::MAX.to_string());
}

// ---- errors ----

#[test]
fn error_replies() {
    let cases = vec![
        (AppError::VectorDatabaseError("down".to_string()), 500, "Vector database error", "Vector database error: down"),
        (AppError::TelegramDatabaseError("gone".to_string()), 500, "Database error", "Telegram database error: gone"),
        (AppError::MetadataError("eof".to_string()), 400, "Invalid metadata format", "Metadata parsing error: eof"),
        (AppError::MultipartError("cut".to_string()), 400, "Invalid multipart data", "Multipart form error: cut"),
        (AppError::NoImageUploaded, 400, "No image uploaded", "No image was uploaded"),
        (AppError::CollectionNotFound("pets".to_string()), 404, "Collection 'pets' not found", "Collection 'pets' not found"),
        (AppError::Unknown, 500, "Internal server error", "Unknown error occurred"),
    ];
    for (e, status, error, details) in cases {
        let r = e.reply();
        assert_eq!(r.status, status);
        assert_eq!(r.error, error);
        assert_eq!(r.details, details);
        assert_eq!(e.message(), details);
    }
}

// ---- payload decoding ----

fn sample_payload() -> Payload {
    Payload {
        entries: vec![
            ("chat_id".to_string(), PayloadValue::Integer(-1001)),
            ("msg_id".to_string(), PayloadValue::Integer(4_294_967_298)),
            ("posted_at".to_string(), PayloadValue::Text("2024-01-02T03:04:05+01:00".to_string())),
            ("base64".to_string(), PayloadValue::Text("aGk=".to_string())),
        ],
    }
}

fn sample_row(display: Option<&str>) -> SourceRow {
    SourceRow {
        username: Some("chan_user".to_string()),
        bias: None,
        channel_name: "Channel".to_string(),
        display_name: display.map(|s| s.to_string()),
        invite: Some("inv".to_string()),
    }
}

#[test]
fn payload_value_getters() {
    assert_eq!(get_string_value(&PayloadValue::Text("x".to_string())), Some("x".to_string()));
    assert_eq!(get_string_value(&PayloadValue::Integer(1)), None);
    assert_eq!(get_int_value(&PayloadValue::Integer(4_294_967_298)), Some(2));
    assert_eq!(get_int_value(&PayloadValue::Other), None);
    assert_eq!(get_int64_value(&PayloadValue::Integer(-7)), Some(-7));
    assert_eq!(get_int64_value(&PayloadValue::Text("7".to_string())), None);
}

#[test]
fn payload_dates() {
    let v = PayloadValue::Text("2024-01-02T03:04:05Z".to_string());
    assert_eq!(get_date_value(&v), Some(UtcTime { secs: 1704164645, nanos: 0 }));
    let v = PayloadValue::Text("2024-01-02T03:04:05.5+01:00".to_string());
    assert_eq!(get_date_value(&v), Some(UtcTime { secs: 1704164645 - 3600, nanos: 500_000_000 }));
    assert_eq!(get_date_value(&PayloadValue::Text("yesterday".to_string())), None);
    assert_eq!(get_date_value(&PayloadValue::Integer(5)), None);
}

#[test]
fn payload_fields() {
    let p = sample_payload();
    assert_eq!(get_field(&p, "chat_id"), Some(PayloadValue::Integer(-1001)));
    assert_eq!(get_field(&p, "missing"), None);
    assert_eq!(point_chat_id(&p), -1001);
    assert_eq!(point_chat_id(&Payload { entries: vec![] }), 0);
}

#[test]
fn search_hit_from_payload_and_row() {
    let h = search_hit(&sample_payload(), sample_row(None), Some(314));
    assert_eq!(h.chat_id, -1001);
    assert_eq!(h.msg_id, 2);
    assert_eq!(h.posted_at, UtcTime { secs: 1704164645 - 3600, nanos: 0 });
    assert_eq!(h.display_name, "Channel");
    assert_eq!(h.user_name, Some("chan_user".to_string()));
    assert_eq!(h.bias, None);
    assert_eq!(h.invite_hash, Some("inv".to_string()));
    assert_eq!(h.tags, strings(&["test", "tree"]));
    assert_eq!(h.img, "aGk=");
    assert_eq!(h.backup_msg_id, Some(314));
    let h = search_hit(&sample_payload(), sample_row(Some("Shown")), None);
    assert_eq!(h.display_name, "Shown");
}

#[test]
fn search_hit_defaults_for_missing_fields() {
    let p = Payload {
        entries: vec![
            ("posted_at".to_string(), PayloadValue::Text("not a date".to_string())),
            ("base64".to_string(), PayloadValue::Integer(3)),
        ],
    };
    let h = search_hit(&p, sample_row(None), None);
    assert_eq!(h.chat_id, 0);
    assert_eq!(h.msg_id, 0);
    assert_eq!(h.posted_at, UtcTime { secs: 0, nanos: 0 });
    assert_eq!(h.img, "");
    assert_eq!(h.backup_msg_id, None);
}

#[test]
fn stored_payload_reads_back() {
    let record = plan_insert(&params("pets"), true, "aGk=".to_string()).ok().unwrap();
    let p = point_payload(&record).unwrap();
    let keys: Vec<&str> = p.entries.iter().map(|(k, _)| k.as_str()).collect();
    assert_eq!(keys, vec!["chat_id", "msg_id", "posted_at", "base64"]);
    assert_eq!(p.entries[2].1, PayloadValue::Text("1970-01-01T00:16:40+00:00".to_string()));
    let h = search_hit(&p, sample_row(None), None);
    assert_eq!((h.chat_id, h.msg_id, h.posted_at, h.img.as_str()), (-5, 17, t(1000), "aGk="));
}

#[test]
fn payload_of_out_of_range_time() {
    let mut record = plan_insert(&params("pets"), true, "x".to_string()).ok().unwrap();
    record.posted_at = UtcTime { secs: i64::MAX, nanos: 0 };
    assert!(point_payload(&record).is_none());
}

// ---- request handling ----

fn params(collection: &str) -> UploadParams {
    UploadParams { msg_id: 17, chat_id: -5, posted_at: t(1000), collection: collection.to_string() }
}

#[test]
fn upload_fields_by_name() {
    assert_eq!(upload_field("meta"), UploadField::Meta);
    assert_eq!(upload_field("image"), UploadField::Image);
    assert_eq!(upload_field("images"), UploadField::Ignored);
}

#[test]
fn finish_upload_needs_both_parts() {
    let done = finish_upload(Some(params("pets")), Some(b"hello")).ok().unwrap();
    assert_eq!(done.image_base64, "aGVsbG8=");
    assert_eq!(done.meta.collection, "pets");
    assert_eq!(finish_upload(None, Some(b"hello")).err(), Some(AppError::NoImageUploaded));
    assert_eq!(finish_upload(Some(params("pets")), None).err(), Some(AppError::NoImageUploaded));
    let empty = finish_upload(Some(params("pets")), Some(b"")).ok().unwrap();
    assert_eq!(empty.image_base64, "");
}

#[test]
fn image_text_is_base64() {
    assert_eq!(image_base64(b""), "");
    assert_eq!(image_base64(b"f"), "Zg==");
    assert_eq!(image_base64(b"fo"), "Zm8=");
    assert_eq!(image_base64(b"foo"), "Zm9v");
    assert_eq!(image_base64(b"foobar"), "Zm9vYmFy");
    assert_eq!(image_base64(&[0xfb, 0xff, 0xbf]), "+/+/");
}

#[test]
fn image_search_plans() {
    let p = || ImageSearchParams { limit: None, posted_after: Some(t(1)), posted_before: None, collection: "c".to_string() };
    assert!(image_search_plan(false, Some(p())).ok().unwrap().is_none());
    assert!(image_search_plan(false, None).ok().unwrap().is_none());
    let r = image_search_plan(true, Some(p())).ok().unwrap().unwrap();
    assert_eq!((r.limit, r.start_from, r.start_after, r.collection.as_str()), (20, Some(t(1)), None, "c"));
    assert_eq!(
        image_search_plan(true, None).err(),
        Some(AppError::MetadataError("the params part is missing".to_string()))
    );
}

#[test]
fn insert_requires_the_collection() {
    let m = params("pets");
    assert_eq!(plan_insert(&m, false, "x".to_string()).err(), Some(AppError::CollectionNotFound("pets".to_string())));
    let r = plan_insert(&m, true, "aGk=".to_string()).ok().unwrap();
    assert_eq!(r.collection, "pets");
    assert_eq!(r.chat_id, -5);
    assert_eq!(r.msg_id, 17);
    assert_eq!(r.posted_at, t(1000));
    assert_eq!(r.base64, "aGk=");
    let resp = upload_response(m);
    assert_eq!((resp.msg_id, resp.chat_id, resp.posted_at, resp.collection.as_str()), (17, -5, t(1000), "pets"));
}

#[test]
fn search_fields_by_name() {
    assert_eq!(search_field("image", 0).err(), Some(AppError::NoImageUploaded));
    assert_eq!(search_field("image", 3).ok(), Some(SearchField::Image));
    assert_eq!(search_field("params", 3).ok(), Some(SearchField::Params));
    assert_eq!(search_field("other", 3).ok(), Some(SearchField::Unknown));
}

#[test]
fn image_search_defaults_and_bounds() {
    let r = image_search_request(ImageSearchParams {
        limit: None,
        posted_after: Some(t(1)),
        posted_before: Some(t(2)),
        collection: "c".to_string(),
    });
    assert_eq!(r.limit, 20);
    assert_eq!(r.start_from, Some(t(1)));
    assert_eq!(r.start_after, Some(t(2)));
    assert_eq!(r.collection, "c");
    let r = image_search_request(ImageSearchParams { limit: Some(5), posted_after: None, posted_before: None, collection: "c".to_string() });
    assert_eq!(r.limit, 5);
}

#[test]
fn text_search_defaults_and_bounds() {
    let p = TextSearchParams {
        tags: strings(&["dog"]),
        limit: None,
        posted_after: Some(t(1)),
        posted_before: Some(t(2)),
        collection: "c".to_string(),
    };
    let r = text_search_request(&p);
    assert_eq!(r.limit, 36);
    assert_eq!(r.start_from, Some(t(2)));
    assert_eq!(r.start_after, Some(t(1)));
    assert_eq!(tag_search_failure(AppError::MetadataError("x".to_string())), AppError::Unknown);
}

#[test]
fn search_plan() {
    let req = SearchRequest { collection: "c".to_string(), limit: 9, start_from: None, start_after: Some(t(4)) };
    let plan = plan_search(req, true).ok().unwrap();
    assert_eq!(plan.collection, "c");
    assert_eq!(plan.limit, 9);
    assert_eq!(plan.hnsw_ef, 256);
    assert!(!plan.exact && plan.with_payload && !plan.with_vectors);
    assert_eq!(plan.filter.unwrap().must.len(), 1);
    let req = SearchRequest { collection: "gone".to_string(), limit: 9, start_from: None, start_after: None };
    assert_eq!(plan_search(req, false).err(), Some(AppError::CollectionNotFound("gone".to_string())));
}

#[test]
fn collection_created_text() {
    assert_eq!(collection_created_message("pets"), "Collection 'pets' created successfully");
}

#[test]
fn metadata_collects_counts() {
    let mut m = MetadataResponse::new();
    m.insert("a".to_string(), points_count(Some(3)));
    m.insert("b".to_string(), points_count(None));
    m.insert("a".to_string(), 7);
    assert_eq!(m.len(), 2);
    assert_eq!(m.entries(), &vec![("a".to_string(), 7), ("b".to_string(), 0)]);
}

// ---- ingestion ----

#[test]
fn photo_locations() {
    assert_eq!(photo_dir(-1001234), "frontend/static/img/-1001234/");
    assert_eq!(photo_path(-1001234, 56), "frontend/static/img/-1001234/56.jpg");
    assert_ne!(photo_path(9, 12), photo_path(9, 1));
}

#[test]
fn watcher_decisions() {
    assert!(matches!(watch_step(5, ChatUpdate::StreamError), WatchAction::RetryAfterSecs(5)));
    assert!(matches!(watch_step(5, ChatUpdate::Other), WatchAction::Skip));
    assert!(matches!(watch_step(5, ChatUpdate::NewMessage { chat_id: 6, msg_id: 1, photo: true }), WatchAction::Skip));
    assert!(matches!(watch_step(5, ChatUpdate::NewMessage { chat_id: 5, msg_id: 1, photo: false }), WatchAction::Skip));
    match watch_step(5, ChatUpdate::NewMessage { chat_id: 5, msg_id: 77, photo: true }) {
        WatchAction::Ingest { msg_id, path } => {
            assert_eq!(msg_id, 77);
            assert_eq!(path, "frontend/static/img/5/77.jpg");
        }
        _ => panic!("a photo of the watched chat is ingested"),
    }
}

#[test]
fn backfill_decisions() {
    assert_eq!(backfill_target(3, 4, true), Some("frontend/static/img/3/4.jpg".to_string()));
    assert_eq!(backfill_target(3, 4, false), None);
    assert_eq!(backfill_collection(), "ukraine");
    let p = ingest_params(4, 3, t(9), "news");
    assert_eq!((p.msg_id, p.chat_id, p.posted_at, p.collection.as_str()), (4, 3, t(9), "news"));
    let mut progress = BackfillProgress::new();
    let mut reports = vec![];
    for _ in 0..25 {
        reports.push(progress.record_stored());
    }
    assert_eq!(progress.processed(), 25);
    let reported: Vec<usize> = reports.iter().enumerate().filter(|(_, r)| **r).map(|(i, _)| i + 1).collect();
    assert_eq!(reported, vec![10, 20]);
}
