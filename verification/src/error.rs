use vstd::prelude::*;
use vstd::string::StringExecFns;

verus! {

/// The failures that the service reports to its callers. The variants that
/// wrap a failure of an outside service carry that failure's message.
#[derive(Debug, PartialEq, Eq)]
pub enum AppError {
    /// The vector database refused or failed a request.
    VectorDatabaseError(String),
    /// The relational database of Telegram sources failed a query.
    TelegramDatabaseError(String),
    /// The metadata part of an upload was not valid JSON for its type.
    MetadataError(String),
    /// The multipart form could not be read.
    MultipartError(String),
    /// A request that needs an image carried none.
    NoImageUploaded,
    /// The named collection does not exist.
    CollectionNotFound(String),
    /// Any other failure; its cause is logged, never reported.
    Unknown,
}

/// What an error is answered with: an HTTP status and a JSON body with a
/// short `error` text and the full `details` text.
pub struct ErrorReply {
    pub status: u16,
    pub error: String,
    pub details: String,
}

/// The HTTP status that answers an error.
pub open spec fn status_of(e: AppError) -> u16 {
    match e {
        AppError::VectorDatabaseError(_) => 500,
        AppError::TelegramDatabaseError(_) => 500,
        AppError::MetadataError(_) => 400,
        AppError::MultipartError(_) => 400,
        AppError::NoImageUploaded => 400,
        AppError::CollectionNotFound(_) => 404,
        AppError::Unknown => 500,
    }
}

/// The short text of the `error` field.
pub open spec fn error_text(e: AppError) -> Seq<char> {
    match e {
        AppError::VectorDatabaseError(_) => "Vector database error"@,
        AppError::TelegramDatabaseError(_) => "Database error"@,
        AppError::MetadataError(_) => "Invalid metadata format"@,
        AppError::MultipartError(_) => "Invalid multipart data"@,
        AppError::NoImageUploaded => "No image uploaded"@,
        AppError::CollectionNotFound(name) => "Collection '"@ + name@ + "' not found"@,
        AppError::Unknown => "Internal server error"@,
    }
}

/// The error's own message, as its `Display` writes it: the `details` field.
pub open spec fn message_text(e: AppError) -> Seq<char> {
    match e {
        AppError::VectorDatabaseError(m) => "Vector database error: "@ + m@,
        AppError::TelegramDatabaseError(m) => "Telegram database error: "@ + m@,
        AppError::MetadataError(m) => "Metadata parsing error: "@ + m@,
        AppError::MultipartError(m) => "Multipart form error: "@ + m@,
        AppError::NoImageUploaded => "No image was uploaded"@,
        AppError::CollectionNotFound(name) => "Collection '"@ + name@ + "' not found"@,
        AppError::Unknown => "Unknown error occurred"@,
    }
}

fn prefixed(prefix: &str, text: &String) -> (res: String)
    ensures
        res@ == prefix@ + text@,
{
    let mut res = String::from_str(prefix);
    res.append(text.as_str());
    res
}

fn quoted_not_found(name: &String) -> (res: String)
    ensures
        res@ == "Collection '"@ + name@ + "' not found"@,
{
    let mut res = String::from_str("Collection '");
    res.append(name.as_str());
    res.append("' not found");
    res
}

impl AppError {
    /// The error's message, as its `Display` writes it.
    pub fn message(&self) -> (res: String)
        ensures
            res@ == message_text(*self),
    {
        match self {
            AppError::VectorDatabaseError(m) => prefixed("Vector database error: ", m),
            AppError::TelegramDatabaseError(m) => prefixed("Telegram database error: ", m),
            AppError::MetadataError(m) => prefixed("Metadata parsing error: ", m),
            AppError::MultipartError(m) => prefixed("Multipart form error: ", m),
            AppError::NoImageUploaded => String::from_str("No image was uploaded"),
            AppError::CollectionNotFound(name) => quoted_not_found(name),
            AppError::Unknown => String::from_str("Unknown error occurred"),
        }
    }

    /// The reply that answers this error: its status, its short text and its
    /// message. Failures of the databases and unknown failures are answered
    /// with 500, bad requests with 400, a missing collection with 404.
    pub fn reply(&self) -> (res: ErrorReply)
        ensures
            res.status == status_of(*self),
            res.error@ == error_text(*self),
            res.details@ == message_text(*self),
    {
        let details = self.message();
        let (status, error): (u16, String) = match self {
            AppError::VectorDatabaseError(_) => (500, String::from_str("Vector database error")),
            AppError::TelegramDatabaseError(_) => (500, String::from_str("Database error")),
            AppError::MetadataError(_) => (400, String::from_str("Invalid metadata format")),
            AppError::MultipartError(_) => (400, String::from_str("Invalid multipart data")),
            AppError::NoImageUploaded => (400, String::from_str("No image uploaded")),
            AppError::CollectionNotFound(name) => (404, quoted_not_found(name)),
            AppError::Unknown => (500, String::from_str("Internal server error")),
        };
        ErrorReply { status, error, details }
    }
}

/// Every error is answered with a client error (400 or 404) or a server error
/// (500), and the failures that are the service's own (its databases, or an
/// unknown cause) are the ones answered with 500.
pub proof fn lemma_reply_status_classes(e: AppError)
    ensures
        status_of(e) == 400 || status_of(e) == 404 || status_of(e) == 500,
        status_of(e) == 500 <==> (e is VectorDatabaseError || e is TelegramDatabaseError
            || e is Unknown),
{
}

/// An internal failure is answered with 500 and generic texts only: nothing
/// of its cause reaches the caller.
pub proof fn lemma_internal_failure_reveals_nothing()
    ensures
        status_of(AppError::Unknown) == 500,
        error_text(AppError::Unknown) == "Internal server error"@,
        message_text(AppError::Unknown) == "Unknown error occurred"@,
{
}

} // verus!
