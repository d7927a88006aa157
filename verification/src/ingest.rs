use vstd::prelude::*;
use vstd::string::StringExecFns;
use crate::entity::UploadParams;
use crate::filter::UtcTime;
use crate::text::{decimal_text, lemma_decimal_text_injective, push_decimal};

verus! {

/// The directory that the photos of a chat are saved in.
pub open spec fn photo_dir_text(chat_id: i64) -> Seq<char> {
    "frontend/static/img/"@ + decimal_text(chat_id as int) + "/"@
}

/// The file that the photo of a message is saved to.
pub open spec fn photo_path_text(chat_id: i64, msg_id: i32) -> Seq<char> {
    photo_dir_text(chat_id) + decimal_text(msg_id as int) + ".jpg"@
}

/// The directory that the photos of a chat are saved in:
/// `frontend/static/img/{chat_id}/`.
pub fn photo_dir(chat_id: i64) -> (res: String)
    ensures
        res@ == photo_dir_text(chat_id),
{
    let mut res = String::from_str("frontend/static/img/");
    push_decimal(&mut res, chat_id);
    res.append("/");
    res
}

/// The file that the photo of a message is saved to:
/// `frontend/static/img/{chat_id}/{msg_id}.jpg`.
pub fn photo_path(chat_id: i64, msg_id: i32) -> (res: String)
    ensures
        res@ == photo_path_text(chat_id, msg_id),
{
    let mut res = photo_dir(chat_id);
    push_decimal(&mut res, msg_id as i64);
    res.append(".jpg");
    res
}

/// Every message of a chat gets a file of its own: the photos of two
/// different messages are never saved to the same path.
pub proof fn lemma_photo_paths_distinct(chat_id: i64, m1: i32, m2: i32)
    requires
        m1 != m2,
    ensures
        photo_path_text(chat_id, m1) != photo_path_text(chat_id, m2),
{
    let dir = photo_dir_text(chat_id);
    let p1 = photo_path_text(chat_id, m1);
    let p2 = photo_path_text(chat_id, m2);
    if p1 == p2 {
        let d1 = decimal_text(m1 as int);
        let d2 = decimal_text(m2 as int);
        let suffix = ".jpg"@;
        assert(p1.len() == dir.len() + d1.len() + suffix.len());
        assert(p2.len() == dir.len() + d2.len() + suffix.len());
        assert(p1.subrange(dir.len() as int, (dir.len() + d1.len()) as int) =~= d1);
        assert(p2.subrange(dir.len() as int, (dir.len() + d2.len()) as int) =~= d2);
        lemma_decimal_text_injective(m1 as int, m2 as int);
    }
}

/// The metadata under which an ingested photo is stored.
pub fn ingest_params(msg_id: i32, chat_id: i64, posted_at: UtcTime, collection: &str) -> (res:
    UploadParams)
    ensures
        res.msg_id == msg_id,
        res.chat_id == chat_id,
        res.posted_at == posted_at,
        res.collection@ == collection@,
{
    UploadParams { msg_id, chat_id, posted_at, collection: String::from_str(collection) }
}

/// The collection that a backfill of a chat's history stores into.
pub fn backfill_collection() -> (res: String)
    ensures
        res@ == "ukraine"@,
{
    String::from_str("ukraine")
}

/// What the update stream delivered, as far as the watcher looks at it.
pub enum ChatUpdate {
    /// The stream failed.
    StreamError,
    /// An update that is not a new message.
    Other,
    /// A new message, in a chat, with or without a photo.
    NewMessage { chat_id: i64, msg_id: i32, photo: bool },
}

/// What the watcher does next.
pub enum WatchAction {
    /// Wait this many seconds, then read the stream again.
    RetryAfterSecs(u64),
    /// Go on to the next update.
    Skip,
    /// Download the message's photo to `path` and store it.
    Ingest { msg_id: i32, path: String },
}

/// Decides one update of the watched stream: after a stream failure the
/// watcher waits 5 seconds; it ingests exactly the new messages of the
/// watched chat that carry a photo, saving each under the chat's photo
/// directory; it skips everything else.
pub fn watch_step(target_id: i64, update: ChatUpdate) -> (res: WatchAction)
    ensures
        update is StreamError ==> (res matches WatchAction::RetryAfterSecs(s) && s == 5),
        update is Other ==> res is Skip,
        update matches ChatUpdate::NewMessage { chat_id, msg_id, photo } ==> {
            if chat_id == target_id && photo {
                (res matches WatchAction::Ingest { msg_id: m, path } && m == msg_id && path@
                    == photo_path_text(target_id, msg_id))
            } else {
                res is Skip
            }
        },
{
    match update {
        ChatUpdate::StreamError => WatchAction::RetryAfterSecs(5),
        ChatUpdate::Other => WatchAction::Skip,
        ChatUpdate::NewMessage { chat_id, msg_id, photo } => {
            if chat_id != target_id {
                WatchAction::Skip
            } else if !photo {
                WatchAction::Skip
            } else {
                WatchAction::Ingest { msg_id, path: photo_path(target_id, msg_id) }
            }
        },
    }
}

/// The count of photos that a backfill has stored.
pub struct BackfillProgress {
    processed: u64,
}

impl BackfillProgress {
    pub closed spec fn processed_spec(&self) -> u64 {
        self.processed
    }

    /// No photo stored yet.
    pub fn new() -> (res: BackfillProgress)
        ensures
            res.processed_spec() == 0,
    {
        BackfillProgress { processed: 0 }
    }

    /// The number of photos stored.
    pub fn processed(&self) -> (res: u64)
        ensures
            res == self.processed_spec(),
    {
        self.processed
    }

    /// Counts one more stored photo, and says whether progress is reported
    /// now: after every tenth photo.
    pub fn record_stored(&mut self) -> (report: bool)
        requires
            old(self).processed_spec() < u64::MAX,
        ensures
            final(self).processed_spec() == old(self).processed_spec() + 1,
            report == (final(self).processed_spec() % 10 == 0),
    {
        self.processed = self.processed + 1;
        self.processed % 10 == 0
    }
}

/// The file to save a message of a backfilled chat to: only a message with
/// a photo is saved.
pub fn backfill_target(chat_id: i64, msg_id: i32, photo: bool) -> (res: Option<String>)
    ensures
        photo <==> res is Some,
        res matches Some(p) ==> p@ == photo_path_text(chat_id, msg_id),
{
    if photo {
        Some(photo_path(chat_id, msg_id))
    } else {
        None
    }
}

} // verus!
