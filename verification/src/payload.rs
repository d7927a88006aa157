use vstd::prelude::*;
use vstd::string::StringExecFns;
use crate::entity::SearchHit;
use crate::filter::UtcTime;
use crate::routes::ImageRecord;
use crate::text::same_text;

verus! {

/// A value stored in a point's payload, as far as the service reads it:
/// integers and texts; every other kind of value (and a value with no kind)
/// is `Other`.
#[derive(Debug, PartialEq, Eq)]
pub enum PayloadValue {
    Integer(i64),
    Text(String),
    Other,
}

impl PayloadValue {
    /// An equal copy of the value.
    pub fn duplicate(&self) -> (res: PayloadValue)
        ensures
            res == *self,
    {
        match self {
            PayloadValue::Integer(i) => PayloadValue::Integer(*i),
            PayloadValue::Text(s) => PayloadValue::Text(s.clone()),
            PayloadValue::Other => PayloadValue::Other,
        }
    }
}

/// The payload of a point: its fields and their values.
pub struct Payload {
    pub entries: Vec<(String, PayloadValue)>,
}

impl Payload {
    /// The fields as plain values, in order.
    pub open spec fn fields(&self) -> Seq<(Seq<char>, PayloadValue)> {
        self.entries@.map_values(|e: (String, PayloadValue)| (e.0@, e.1))
    }
}

/// `i` is the first position of the field `key`.
pub open spec fn first_position(fields: Seq<(Seq<char>, PayloadValue)>, key: Seq<char>, i: int) -> bool {
    &&& 0 <= i < fields.len()
    &&& fields[i].0 == key
    &&& forall|j: int| 0 <= j < i ==> (#[trigger] fields[j]).0 != key
}

/// The value of the field `key` (its first occurrence), if the payload has
/// the field.
pub open spec fn field_value(fields: Seq<(Seq<char>, PayloadValue)>, key: Seq<char>) -> Option<
    PayloadValue,
> {
    if exists|i: int| first_position(fields, key, i) {
        Some(fields[choose|i: int| first_position(fields, key, i)].1)
    } else {
        None
    }
}

proof fn lemma_first_position_unique(
    fields: Seq<(Seq<char>, PayloadValue)>,
    key: Seq<char>,
    i: int,
    j: int,
)
    requires
        first_position(fields, key, i),
        first_position(fields, key, j),
    ensures
        i == j,
{
    if i < j {
        assert(fields[i].0 != key);
    }
    if j < i {
        assert(fields[j].0 != key);
    }
}

/// The value of a payload field, as `field_value` states it.
pub fn get_field(p: &Payload, key: &str) -> (res: Option<PayloadValue>)
    ensures
        res == field_value(p.fields(), key@),
{
    let mut i: usize = 0;
    while i < p.entries.len()
        invariant
            i <= p.entries@.len(),
            forall|j: int| 0 <= j < i ==> (#[trigger] p.fields()[j]).0 != key@,
        decreases p.entries.len() - i,
    {
        if same_text(p.entries[i].0.as_str(), key) {
            proof {
                assert(first_position(p.fields(), key@, i as int));
                let c = choose|c: int| first_position(p.fields(), key@, c);
                lemma_first_position_unique(p.fields(), key@, i as int, c);
            }
            return Some(p.entries[i].1.duplicate());
        }
        assert(p.fields()[i as int].0 != key@);
        i = i + 1;
    }
    assert(!exists|c: int| first_position(p.fields(), key@, c));
    None
}

/// A text value.
pub open spec fn string_value_of(v: PayloadValue) -> Option<Seq<char>> {
    match v {
        PayloadValue::Text(s) => Some(s@),
        _ => None,
    }
}

/// The text of a text value.
pub fn get_string_value(v: &PayloadValue) -> (res: Option<String>)
    ensures
        res matches Some(s) ==> string_value_of(*v) == Some(s@),
        res is None <==> string_value_of(*v) is None,
{
    match v {
        PayloadValue::Text(s) => Some(s.clone()),
        _ => None,
    }
}

/// An integer value, cut to 32 bits as `as i32` does.
pub fn get_int_value(v: &PayloadValue) -> (res: Option<i32>)
    ensures
        res == match *v {
            PayloadValue::Integer(i) => Some(i as i32),
            _ => None,
        },
{
    match v {
        PayloadValue::Integer(i) => Some(*i as i32),
        _ => None,
    }
}

/// An integer value.
pub fn get_int64_value(v: &PayloadValue) -> (res: Option<i64>)
    ensures
        res == match *v {
            PayloadValue::Integer(i) => Some(i),
            _ => None,
        },
{
    match v {
        PayloadValue::Integer(i) => Some(*i),
        _ => None,
    }
}

/// The instant that an RFC 3339 text denotes (seconds since the epoch and
/// nanoseconds), as chrono's `DateTime::parse_from_rfc3339` reads it; `None`
/// when chrono rejects the text.
pub uninterp spec fn rfc3339_instant(s: Seq<char>) -> Option<(i64, u32)>;

/// chrono's `DateTime::parse_from_rfc3339`, with the result taken to UTC as
/// seconds and nanoseconds. The contract names the answer
/// `rfc3339_instant(s@)`; the grammar of RFC 3339 is not restated here.
#[verifier::external_body]
fn parse_rfc3339(s: &str) -> (res: Option<(i64, u32)>)
    ensures
        res == rfc3339_instant(s@),
{
    match chrono::DateTime::parse_from_rfc3339(s) {
        Ok(dt) => Some((dt.timestamp(), dt.timestamp_subsec_nanos())),
        Err(_) => None,
    }
}

/// The instant of a text value that is an RFC 3339 date.
pub open spec fn date_value_of(v: PayloadValue) -> Option<UtcTime> {
    match v {
        PayloadValue::Text(s) => match rfc3339_instant(s@) {
            Some(p) => Some(UtcTime { secs: p.0, nanos: p.1 }),
            None => None,
        },
        _ => None,
    }
}

/// The instant of a text value that parses as an RFC 3339 date.
pub fn get_date_value(v: &PayloadValue) -> (res: Option<UtcTime>)
    ensures
        res == date_value_of(*v),
{
    match v {
        PayloadValue::Text(s) => match parse_rfc3339(s.as_str()) {
            Some(p) => Some(UtcTime { secs: p.0, nanos: p.1 }),
            None => None,
        },
        _ => None,
    }
}


/// The record of a Telegram source channel, as the sources table holds it.
pub struct SourceRow {
    pub username: Option<String>,
    pub bias: Option<String>,
    pub channel_name: String,
    pub display_name: Option<String>,
    pub invite: Option<String>,
}

/// The integer in a field, if the payload has the field and it holds one.
pub open spec fn int_field(fields: Seq<(Seq<char>, PayloadValue)>, key: Seq<char>) -> Option<i64> {
    match field_value(fields, key) {
        Some(PayloadValue::Integer(i)) => Some(i),
        _ => None,
    }
}

/// The chat a point was posted in: its `chat_id` field, or 0.
pub open spec fn chat_id_of(fields: Seq<(Seq<char>, PayloadValue)>) -> i64 {
    match int_field(fields, "chat_id"@) {
        Some(i) => i,
        None => 0,
    }
}

/// The message a point came from: its `msg_id` field cut to 32 bits, or 0.
pub open spec fn msg_id_of(fields: Seq<(Seq<char>, PayloadValue)>) -> i32 {
    match int_field(fields, "msg_id"@) {
        Some(i) => i as i32,
        None => 0,
    }
}

/// When a point was posted: its `posted_at` field read as an RFC 3339 date,
/// or the Unix epoch.
pub open spec fn posted_at_of(fields: Seq<(Seq<char>, PayloadValue)>) -> UtcTime {
    match field_value(fields, "posted_at"@) {
        Some(v) => match date_value_of(v) {
            Some(t) => t,
            None => UtcTime { secs: 0, nanos: 0 },
        },
        None => UtcTime { secs: 0, nanos: 0 },
    }
}

/// The image text of a point: its `base64` field, or the empty text.
pub open spec fn image_of(fields: Seq<(Seq<char>, PayloadValue)>) -> Seq<char> {
    match field_value(fields, "base64"@) {
        Some(PayloadValue::Text(s)) => s@,
        _ => seq![],
    }
}

/// The chat a found point was posted in: its `chat_id` field, or 0. The
/// source channel of the point is looked up under this id.
pub fn point_chat_id(p: &Payload) -> (res: i64)
    ensures
        res == chat_id_of(p.fields()),
{
    match get_field(p, "chat_id") {
        Some(v) => match get_int64_value(&v) {
            Some(i) => i,
            None => 0,
        },
        None => 0,
    }
}

/// The search result for a found point and the record of its source
/// channel: the message, chat, post time and image come from the point's
/// payload (with 0, the epoch and the empty text where a field is missing or
/// of the wrong kind), the names and invite from the channel record, whose
/// display name falls back to its channel name; the id of the post's copy in
/// the backup channel is the one the posts table records, if any.
pub fn search_hit(p: &Payload, row: SourceRow, backup: Option<i32>) -> (res: SearchHit)
    ensures
        res.msg_id == msg_id_of(p.fields()),
        res.chat_id == chat_id_of(p.fields()),
        res.posted_at == posted_at_of(p.fields()),
        res.display_name == match row.display_name {
            Some(d) => d,
            None => row.channel_name,
        },
        res.bias == row.bias,
        res.user_name == row.username,
        res.invite_hash == row.invite,
        res.tags@.len() == 2,
        res.tags@[0]@ == "test"@,
        res.tags@[1]@ == "tree"@,
        res.img@ == image_of(p.fields()),
        res.backup_msg_id == backup,
{
    let chat_id = point_chat_id(p);
    let msg_id: i32 = match get_field(p, "msg_id") {
        Some(v) => match get_int_value(&v) {
            Some(i) => i,
            None => 0,
        },
        None => 0,
    };
    let posted_at = match get_field(p, "posted_at") {
        Some(v) => match get_date_value(&v) {
            Some(t) => t,
            None => UtcTime { secs: 0, nanos: 0 },
        },
        None => UtcTime { secs: 0, nanos: 0 },
    };
    let img = match get_field(p, "base64") {
        Some(v) => match get_string_value(&v) {
            Some(s) => s,
            None => String::new(),
        },
        None => String::new(),
    };
    let display_name = match row.display_name {
        Some(d) => d,
        None => row.channel_name,
    };
    let mut tags: Vec<String> = Vec::new();
    tags.push(String::from_str("test"));
    tags.push(String::from_str("tree"));
    SearchHit {
        msg_id,
        chat_id,
        posted_at,
        display_name,
        bias: row.bias,
        user_name: row.username,
        invite_hash: row.invite,
        tags,
        img,
        backup_msg_id: backup,
    }
}


/// The RFC 3339 text that chrono's `DateTime::<Utc>::to_rfc3339` writes for
/// the instant `secs` seconds and `nanos` nanoseconds after the Unix epoch;
/// `None` where `DateTime::from_timestamp` has no date for them.
pub uninterp spec fn rfc3339_text(secs: i64, nanos: u32) -> Option<Seq<char>>;

/// chrono's `DateTime::from_timestamp` followed by `to_rfc3339`: the contract
/// names the text `rfc3339_text(secs, nanos)`; the calendar arithmetic and
/// the format are not restated here.
#[verifier::external_body]
fn format_rfc3339(t: UtcTime) -> (res: Option<String>)
    ensures
        match res {
            Some(s) => rfc3339_text(t.secs, t.nanos) == Some(s@),
            None => rfc3339_text(t.secs, t.nanos) is None,
        },
{
    match chrono::DateTime::from_timestamp(t.secs, t.nanos) {
        Some(dt) => Some(dt.to_rfc3339()),
        None => None,
    }
}

/// The payload fields of a stored image: its chat and message as integers,
/// its post time as the text `posted`, and its image as the text `img`, in
/// that order.
pub open spec fn describes_record(
    fields: Seq<(Seq<char>, PayloadValue)>,
    chat_id: i64,
    msg_id: i32,
    posted: Seq<char>,
    img: Seq<char>,
) -> bool {
    &&& fields.len() == 4
    &&& fields[0] == ("chat_id"@, PayloadValue::Integer(chat_id))
    &&& fields[1] == ("msg_id"@, PayloadValue::Integer(msg_id as i64))
    &&& fields[2].0 == "posted_at"@
    &&& string_value_of(fields[2].1) == Some(posted)
    &&& fields[3].0 == "base64"@
    &&& string_value_of(fields[3].1) == Some(img)
}

/// The payload stored with an image's features: its chat, its message, its
/// post time as RFC 3339 text and its image text. There is none only where
/// chrono has no date for the post time.
pub fn point_payload(r: &ImageRecord) -> (res: Option<Payload>)
    ensures
        res is Some <==> rfc3339_text(r.posted_at.secs, r.posted_at.nanos) is Some,
        res matches Some(p) ==> describes_record(
            p.fields(),
            r.chat_id,
            r.msg_id,
            rfc3339_text(r.posted_at.secs, r.posted_at.nanos)->0,
            r.base64@,
        ),
{
    let posted = match format_rfc3339(r.posted_at) {
        Some(t) => t,
        None => return None,
    };
    let mut entries: Vec<(String, PayloadValue)> = Vec::new();
    entries.push((String::from_str("chat_id"), PayloadValue::Integer(r.chat_id)));
    entries.push((String::from_str("msg_id"), PayloadValue::Integer(r.msg_id as i64)));
    entries.push((String::from_str("posted_at"), PayloadValue::Text(posted)));
    entries.push((String::from_str("base64"), PayloadValue::Text(r.base64.clone())));
    let p = Payload { entries };
    assert(p.fields().len() == 4);
    Some(p)
}

proof fn lemma_first_at(fields: Seq<(Seq<char>, PayloadValue)>, key: Seq<char>, i: int)
    requires
        first_position(fields, key, i),
    ensures
        field_value(fields, key) == Some(fields[i].1),
{
    let c = choose|c: int| first_position(fields, key, c);
    lemma_first_position_unique(fields, key, i, c);
}

/// What is stored for an image reads back as that image: a payload written
/// for a record yields the record's chat, message and image, and the post
/// time that the written text denotes.
pub proof fn lemma_stored_point_reads_back(
    fields: Seq<(Seq<char>, PayloadValue)>,
    chat_id: i64,
    msg_id: i32,
    posted: Seq<char>,
    img: Seq<char>,
)
    requires
        describes_record(fields, chat_id, msg_id, posted, img),
    ensures
        chat_id_of(fields) == chat_id,
        msg_id_of(fields) == msg_id,
        image_of(fields) == img,
        posted_at_of(fields) == match rfc3339_instant(posted) {
            Some(t) => UtcTime { secs: t.0, nanos: t.1 },
            None => UtcTime { secs: 0, nanos: 0 },
        },
{
    reveal_strlit("chat_id");
    reveal_strlit("msg_id");
    reveal_strlit("posted_at");
    reveal_strlit("base64");
    assert("chat_id"@.len() == 7);
    assert("msg_id"@.len() == 6);
    assert("posted_at"@.len() == 9);
    assert("base64"@.len() == 6);
    assert("msg_id"@[0] != "base64"@[0]);
    assert(first_position(fields, "chat_id"@, 0));
    lemma_first_at(fields, "chat_id"@, 0);
    assert(first_position(fields, "msg_id"@, 1));
    lemma_first_at(fields, "msg_id"@, 1);
    assert(first_position(fields, "posted_at"@, 2));
    lemma_first_at(fields, "posted_at"@, 2);
    assert(first_position(fields, "base64"@, 3));
    lemma_first_at(fields, "base64"@, 3);
}

} // verus!
