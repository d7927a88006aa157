use vstd::prelude::*;
use vstd::string::StringExecFns;

verus! {

/// An instant in UTC: whole seconds since the Unix epoch and the nanoseconds
/// past them.
#[derive(Debug, Clone, Copy, PartialEq, Eq)]
pub struct UtcTime {
    pub secs: i64,
    pub nanos: u32,
}

/// `a` is strictly earlier than `b`.
pub open spec fn earlier(a: UtcTime, b: UtcTime) -> bool {
    a.secs < b.secs || (a.secs == b.secs && a.nanos < b.nanos)
}

/// Which side of a date bound a condition keeps.
#[derive(Debug, Clone, Copy, PartialEq, Eq)]
pub enum Bound {
    /// The field must be at or after the instant (`gte`).
    AtOrAfter,
    /// The field must be strictly after the instant (`gt`).
    After,
}

/// One condition of a date filter: the payload field `key` must lie on the
/// `bound` side of `at`.
pub struct DateCondition {
    pub key: String,
    pub bound: Bound,
    pub at: UtcTime,
}

/// A filter whose conditions must all hold.
pub struct DateFilter {
    pub must: Vec<DateCondition>,
}

/// A condition as plain values.
pub open spec fn condition_view(c: DateCondition) -> (Seq<char>, Bound, UtcTime) {
    (c.key@, c.bound, c.at)
}

/// The conditions of a filter as plain values.
pub open spec fn filter_view(f: DateFilter) -> Seq<(Seq<char>, Bound, UtcTime)> {
    f.must@.map_values(|c: DateCondition| condition_view(c))
}

/// The conditions that the date bounds of a search call for, in order: the
/// lower bound `start_from` (inclusive) first, then `start_after` (exclusive),
/// both on the `posted_at` field.
pub open spec fn date_conditions(start_from: Option<UtcTime>, start_after: Option<UtcTime>) -> Seq<
    (Seq<char>, Bound, UtcTime),
> {
    let from_part = match start_from {
        Some(t) => seq![("posted_at"@, Bound::AtOrAfter, t)],
        None => seq![],
    };
    let after_part = match start_after {
        Some(t) => seq![("posted_at"@, Bound::After, t)],
        None => seq![],
    };
    from_part + after_part
}

/// The search filter for optional date bounds: none when neither bound is
/// given, otherwise the conditions `date_conditions` lists.
pub fn build_date_filter(start_from: Option<UtcTime>, start_after: Option<UtcTime>) -> (res: Option<
    DateFilter,
>)
    ensures
        res is None <==> (start_from is None && start_after is None),
        res matches Some(f) ==> filter_view(f) == date_conditions(start_from, start_after),
{
    if start_from.is_none() && start_after.is_none() {
        return None;
    }
    let mut conditions: Vec<DateCondition> = Vec::new();
    if let Some(from_date) = start_from {
        conditions.push(
            DateCondition {
                key: String::from_str("posted_at"),
                bound: Bound::AtOrAfter,
                at: from_date,
            },
        );
    }
    if let Some(after_date) = start_after {
        conditions.push(
            DateCondition { key: String::from_str("posted_at"), bound: Bound::After, at: after_date },
        );
    }
    let f = DateFilter { must: conditions };
    assert(filter_view(f) =~= date_conditions(start_from, start_after));
    Some(f)
}

/// Whether an instant meets one condition.
pub open spec fn meets(t: UtcTime, c: (Seq<char>, Bound, UtcTime)) -> bool {
    match c.1 {
        Bound::AtOrAfter => !earlier(t, c.2),
        Bound::After => earlier(c.2, t),
    }
}

/// Whether a post made at `t` passes a filter (no filter passes every post).
pub open spec fn admits(filter: Option<Seq<(Seq<char>, Bound, UtcTime)>>, t: UtcTime) -> bool {
    match filter {
        None => true,
        Some(cs) => forall|i: int| 0 <= i < cs.len() ==> meets(t, #[trigger] cs[i]),
    }
}

/// The filter built for a search keeps exactly the posts made at or after
/// `start_from` and strictly after `start_after`, each bound applying only
/// when it is given.
pub proof fn lemma_filter_keeps_posts_in_range(
    start_from: Option<UtcTime>,
    start_after: Option<UtcTime>,
    t: UtcTime,
)
    ensures
        admits(
            if start_from is None && start_after is None {
                None
            } else {
                Some(date_conditions(start_from, start_after))
            },
            t,
        ) <==> ((start_from matches Some(f) ==> !earlier(t, f)) && (start_after matches Some(a)
            ==> earlier(a, t))),
{
    let cs = date_conditions(start_from, start_after);
    if start_from is Some || start_after is Some {
        if let Some(f) = start_from {
            assert(cs[0] == ("posted_at"@, Bound::AtOrAfter, f));
        }
        if let Some(a) = start_after {
            assert(cs[cs.len() - 1] == ("posted_at"@, Bound::After, a));
        }
    }
}

} // verus!
