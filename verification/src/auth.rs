use vstd::prelude::*;
use vstd::string::{StringExecFns, StringSliceAdditionalSpecFns};
use crate::text::{
    chars_of, lemma_split_pieces_nonempty, split_pieces, string_of, trim_chars, trimmed,
};

verus! {

/// Compares two byte strings in time that depends only on their lengths:
/// every byte pair is visited, and the differences are folded together with
/// `|` so that no early exit reveals where the first mismatch lies.
pub fn constant_time_eq(a: &[u8], b: &[u8]) -> (res: bool)
    ensures
        res <==> a@ == b@,
{
    if a.len() != b.len() {
        return false;
    }
    let mut diff: u8 = 0;
    let mut i: usize = 0;
    while i < a.len()
        invariant
            a.len() == b.len(),
            i <= a.len(),
            diff == 0 <==> (forall|j: int| 0 <= j < i ==> a@[j] == b@[j]),
        decreases a.len() - i,
    {
        let x: u8 = a[i];
        let y: u8 = b[i];
        proof {
            lemma_fold_step(diff, x, y);
        }
        diff = diff | (x ^ y);
        i = i + 1;
    }
    proof {
        if diff == 0 {
            assert(a@ =~= b@);
        }
    }
    diff == 0
}

proof fn lemma_fold_step(d: u8, x: u8, y: u8)
    ensures
        (d | (x ^ y)) == 0 <==> (d == 0 && x == y),
{
    assert((d | (x ^ y)) == 0 <==> (d == 0 && x == y)) by (bit_vector);
}


/// A byte that `HeaderValue::to_str` accepts: visible ASCII or a tab.
pub open spec fn visible_ascii(b: u8) -> bool {
    (32 <= b && b < 127) || b == 9
}

/// Every byte of `h` is visible ASCII or a tab.
pub open spec fn all_visible(h: Seq<u8>) -> bool {
    forall|i: int| 0 <= i < h.len() ==> visible_ascii(#[trigger] h[i])
}

/// The key that a request presents: the bytes of its key header when that
/// header is present and its value is visible ASCII text, and the empty
/// text otherwise.
pub open spec fn presented_key(header: Option<Seq<u8>>) -> Seq<u8> {
    match header {
        Some(h) => if all_visible(h) {
            h
        } else {
            seq![]
        },
        None => seq![],
    }
}

/// The presented key is the header's bytes, unchanged, when they are all
/// visible ASCII or tabs; it is empty when a byte is not, or when there is no
/// header.
pub proof fn lemma_presented_key_is_header(h: Seq<u8>)
    ensures
        (forall|i: int| 0 <= i < h.len() ==> ((32 <= #[trigger] h[i] && h[i] < 127) || h[i] == 9))
            ==> presented_key(Some(h)) == h,
        (exists|i: int| 0 <= i < h.len() && !((32 <= #[trigger] h[i] && h[i] < 127) || h[i] == 9))
            ==> presented_key(Some(h)).len() == 0,
        presented_key(None).len() == 0,
{
    if exists|i: int| 0 <= i < h.len() && !((32 <= #[trigger] h[i] && h[i] < 127) || h[i] == 9) {
        let i = choose|i: int| 0 <= i < h.len() && !((32 <= #[trigger] h[i] && h[i] < 127) || h[i] == 9);
        assert(!visible_ascii(h[i]));
    }
}

/// How a request to a protected route is answered.
#[derive(Debug, Clone, Copy, PartialEq, Eq)]
pub enum Access {
    /// The request goes on to its handler.
    Granted,
    /// The request is refused with 401.
    Unauthorized,
    /// No key is configured: every request is refused with 500.
    Misconfigured,
}

impl Access {
    /// The HTTP status of a refusal; a granted request has none.
    pub fn refusal_status(&self) -> (res: Option<u16>)
        ensures
            *self == Access::Granted ==> res is None,
            *self == Access::Unauthorized ==> res == Some(401u16),
            *self == Access::Misconfigured ==> res == Some(500u16),
    {
        match self {
            Access::Granted => None,
            Access::Unauthorized => Some(401),
            Access::Misconfigured => Some(500),
        }
    }
}

fn header_key(header: Option<&[u8]>) -> (res: Vec<u8>)
    ensures
        res@ == presented_key(match header {
            Some(h) => Some(h@),
            None => None,
        }),
{
    match header {
        None => Vec::new(),
        Some(h) => {
            let mut out: Vec<u8> = Vec::new();
            let mut i: usize = 0;
            while i < h.len()
                invariant
                    header == Some(h),
                    i <= h@.len(),
                    out@ == h@.take(i as int),
                    forall|k: int| 0 <= k < i ==> visible_ascii(#[trigger] h@[k]),
                decreases h.len() - i,
            {
                let b: u8 = h[i];
                if !((32 <= b && b < 127) || b == 9) {
                    assert(!visible_ascii(h@[i as int]));
                    assert(!all_visible(h@));
                    let empty: Vec<u8> = Vec::new();
                    assert(empty@ =~= presented_key(Some(h@)));
                    return empty;
                }
                out.push(b);
                assert(h@.take(i + 1) =~= h@.take(i as int).push(b));
                i = i + 1;
            }
            assert(h@.take(h@.len() as int) =~= h@);
            assert(all_visible(h@));
            out
        },
    }
}

/// Decides a request to a protected route from the configured key (absent
/// when the service has none) and the raw value of the request's key header
/// (absent when the request has none). Without a key every request is
/// refused as misconfigured. With an empty key every request is refused as
/// unauthorized: only a holder of a key may reach the API, and nobody holds
/// an empty one. Otherwise the request is granted exactly when the presented
/// key equals the configured one, byte for byte; the comparison takes the
/// same time wherever the keys differ.
pub fn authorize(expected: Option<&str>, header: Option<&[u8]>) -> (res: Access)
    ensures
        expected is None ==> res == Access::Misconfigured,
        expected matches Some(e) ==> res != Access::Misconfigured,
        expected matches Some(e) ==> (e@.len() == 0 ==> res == Access::Unauthorized),
        expected matches Some(e) ==> (e@.len() > 0 ==> (header matches Some(h) ==> ((forall|i: int|
            0 <= i < h@.len() ==> ((32 <= #[trigger] h@[i] && h@[i] < 127) || h@[i] == 9)) ==> (res
            == Access::Granted <==> e.spec_bytes() == h@)))),
        expected matches Some(e) ==> (e@.len() > 0 ==> (res == Access::Granted <==> e.spec_bytes()
            == presented_key(
            match header {
                Some(h) => Some(h@),
                None => None,
            },
        ))),
{
    match expected {
        None => Access::Misconfigured,
        Some(e) => {
            if e.is_empty() {
                return Access::Unauthorized;
            }
            let provided = header_key(header);
            if constant_time_eq(provided.as_slice(), e.as_bytes()) {
                Access::Granted
            } else {
                Access::Unauthorized
            }
        },
    }
}

/// A text that `HeaderValue::from_str` accepts: no control character other
/// than the tab (every byte of its UTF-8 form is a tab, at least 32, and not
/// 127).
pub open spec fn header_value_text(s: Seq<char>) -> bool {
    forall|i: int|
        0 <= i < s.len() ==> (#[trigger] s[i] == '\t' || (s[i] as u32 >= 32 && s[i] as u32 != 127))
}

/// `HeaderValue::from_str`: whether the text parses as a header value. The
/// crate checks that every byte of the text is a tab or at least 32 and not
/// 127; the bytes of a non-ASCII character are all at least 128.
#[verifier::external_body]
fn parses_as_header_value(s: &str) -> (res: bool)
    ensures
        res == header_value_text(s@),
{
    s.parse::<http::HeaderValue>().is_ok()
}

/// The origins that a comma-separated list names, in order: each piece is
/// trimmed, and kept when it is not empty and is a valid header value.
pub open spec fn kept_origins(pieces: Seq<Seq<char>>) -> Seq<Seq<char>>
    decreases pieces.len(),
{
    if pieces.len() == 0 {
        seq![]
    } else {
        let prev = kept_origins(pieces.drop_last());
        let t = trimmed(pieces.last());
        if t.len() > 0 && header_value_text(t) {
            prev.push(t)
        } else {
            prev
        }
    }
}

/// The origins that cross-origin requests may come from, read from the
/// configured comma-separated list.
pub open spec fn configured_origins(configured: Seq<char>) -> Seq<Seq<char>> {
    kept_origins(split_pieces(configured, ','))
}

fn keep_piece(out: &mut Vec<String>, piece: &[char])
    ensures
        final(out)@.len() == old(out)@.len() + (if trimmed(piece@).len() > 0 && header_value_text(
            trimmed(piece@),
        ) {
            1int
        } else {
            0int
        }),
        forall|k: int| 0 <= k < old(out)@.len() ==> #[trigger] final(out)@[k] == old(out)@[k],
        trimmed(piece@).len() > 0 && header_value_text(trimmed(piece@)) ==> final(out)@.last()@
            == trimmed(piece@),
{
    let t = trim_chars(piece);
    if t.len() > 0 {
        let text = string_of(t.as_slice());
        if parses_as_header_value(text.as_str()) {
            out.push(text);
        }
    }
}

/// Every origin that a configured list yields is a non-empty text with no
/// surrounding whitespace that is a valid header value.
pub proof fn lemma_configured_origins_valid(pieces: Seq<Seq<char>>)
    ensures
        forall|k: int|
            0 <= k < kept_origins(pieces).len() ==> {
                let o = #[trigger] kept_origins(pieces)[k];
                &&& o.len() > 0
                &&& header_value_text(o)
                &&& exists|i: int| 0 <= i < pieces.len() && o == trimmed(pieces[i])
            },
    decreases pieces.len(),
{
    if pieces.len() > 0 {
        let prev = pieces.drop_last();
        lemma_configured_origins_valid(prev);
        assert forall|k: int| 0 <= k < kept_origins(pieces).len() implies {
            let o = #[trigger] kept_origins(pieces)[k];
            &&& o.len() > 0
            &&& header_value_text(o)
            &&& exists|i: int| 0 <= i < pieces.len() && o == trimmed(pieces[i])
        } by {
            if k < kept_origins(prev).len() {
                let o = kept_origins(prev)[k];
                assert(kept_origins(pieces)[k] == o);
                let i = choose|i: int| 0 <= i < prev.len() && o == trimmed(prev[i]);
                assert(pieces[i] == prev[i]);
            } else {
                assert(kept_origins(pieces)[k] == trimmed(pieces.last()));
                assert(pieces[pieces.len() - 1] == pieces.last());
            }
        }
    }
}

/// The origins allowed when the configured list names none: the local
/// development frontends.
pub open spec fn default_origins() -> Seq<Seq<char>> {
    seq!["http://localhost:3011"@, "http://localhost:5173"@]
}

proof fn lemma_split_concat(a: Seq<char>, b: Seq<char>)
    ensures
        split_pieces(a + seq![','] + b, ',') == split_pieces(a, ',') + split_pieces(b, ','),
    decreases b.len(),
{
    let s = a + seq![','] + b;
    if b.len() == 0 {
        assert(s.drop_last() =~= a);
        assert(split_pieces(s, ',') =~= split_pieces(a, ',') + split_pieces(b, ','));
    } else {
        let b0 = b.drop_last();
        lemma_split_concat(a, b0);
        lemma_split_pieces_nonempty(b0, ',');
        assert(s.drop_last() =~= a + seq![','] + b0);
        assert(s.last() == b.last());
        assert(split_pieces(s, ',') =~= split_pieces(a, ',') + split_pieces(b, ','));
    }
}

proof fn lemma_split_without_comma(s: Seq<char>)
    requires
        forall|i: int| 0 <= i < s.len() ==> #[trigger] s[i] != ',',
    ensures
        split_pieces(s, ',') == seq![s],
    decreases s.len(),
{
    if s.len() > 0 {
        let s0 = s.drop_last();
        assert forall|i: int| 0 <= i < s0.len() implies #[trigger] s0[i] != ',' by {
            assert(s0[i] == s[i]);
        }
        lemma_split_without_comma(s0);
        assert(s.last() == s[s.len() - 1]);
        assert(s.last() != ',');
        assert(s0.push(s.last()) =~= s);
        let prev = split_pieces(s0, ',');
        assert(split_pieces(s, ',') == prev.update(prev.len() - 1, prev.last().push(s.last())));
        assert(prev.update(prev.len() - 1, prev.last().push(s.last())) =~= seq![s]);
    } else {
        assert(s =~= Seq::<char>::empty());
    }
}

proof fn lemma_kept_concat(x: Seq<Seq<char>>, y: Seq<Seq<char>>)
    ensures
        kept_origins(x + y) == kept_origins(x) + kept_origins(y),
    decreases y.len(),
{
    if y.len() == 0 {
        assert(x + y =~= x);
        assert(kept_origins(x) + kept_origins(y) =~= kept_origins(x));
    } else {
        lemma_kept_concat(x, y.drop_last());
        assert((x + y).drop_last() =~= x + y.drop_last());
        assert((x + y).last() == y.last());
        assert(kept_origins(x + y) =~= kept_origins(x) + kept_origins(y));
    }
}

/// The configured list is read piece by piece: the origins of two lists
/// joined by a comma are those of the first followed by those of the second.
pub proof fn lemma_origins_of_joined_lists(a: Seq<char>, b: Seq<char>)
    ensures
        configured_origins(a + seq![','] + b) == configured_origins(a) + configured_origins(b),
{
    lemma_split_concat(a, b);
    lemma_kept_concat(split_pieces(a, ','), split_pieces(b, ','));
}

/// A piece without a comma names one origin, its trimmed text, when that is
/// not empty and is a valid header value, and none otherwise; a list that
/// names exactly one origin allows that origin alone.
pub proof fn lemma_origins_of_one_piece(s: Seq<char>)
    requires
        forall|i: int| 0 <= i < s.len() ==> #[trigger] s[i] != ',',
    ensures
        trimmed(s).len() > 0 && header_value_text(trimmed(s)) ==> configured_origins(s) == seq![
            trimmed(s),
        ] && allowed_origins(s) == seq![trimmed(s)],
        !(trimmed(s).len() > 0 && header_value_text(trimmed(s))) ==> configured_origins(s).len()
            == 0 && allowed_origins(s) == default_origins(),
{
    lemma_split_without_comma(s);
    let one: Seq<Seq<char>> = seq![s];
    assert(one.drop_last() =~= Seq::<Seq<char>>::empty());
    assert(kept_origins(Seq::<Seq<char>>::empty()) =~= Seq::<Seq<char>>::empty());
    if trimmed(s).len() > 0 && header_value_text(trimmed(s)) {
        assert(configured_origins(s) =~= seq![trimmed(s)]);
    }
}

/// The origins of the cross-origin policy: those of the configured list, or
/// the local development frontends when the list names none.
pub open spec fn allowed_origins(configured: Seq<char>) -> Seq<Seq<char>> {
    if configured_origins(configured).len() == 0 {
        default_origins()
    } else {
        configured_origins(configured)
    }
}

/// The allowed origins of the cross-origin policy: from the configured
/// comma-separated list, each piece trimmed, empty pieces and pieces that are
/// not valid header values dropped; when no origin is left, the two local
/// development frontends `http://localhost:3011` and `http://localhost:5173`.
pub fn cors_origins(configured: &str) -> (res: Vec<String>)
    ensures
        res@.len() == allowed_origins(configured@).len(),
        forall|k: int| 0 <= k < res@.len() ==> #[trigger] res@[k]@ == allowed_origins(configured@)[k],
{
    let listed = listed_origins(configured);
    if listed.len() == 0 {
        let mut defaults: Vec<String> = Vec::new();
        defaults.push(String::from_str("http://localhost:3011"));
        defaults.push(String::from_str("http://localhost:5173"));
        defaults
    } else {
        listed
    }
}

/// The origins that the configured comma-separated list names.
fn listed_origins(configured: &str) -> (res: Vec<String>)
    ensures
        res@.len() == configured_origins(configured@).len(),
        forall|k: int| 0 <= k < res@.len() ==> #[trigger] res@[k]@ == configured_origins(configured@)[k],
{
    let cs = chars_of(configured);
    let mut out: Vec<String> = Vec::new();
    let mut cur: Vec<char> = Vec::new();
    let ghost mut done: Seq<Seq<char>> = seq![];
    let mut i: usize = 0;
    while i < cs.len()
        invariant
            cs@ == configured@,
            i <= cs@.len(),
            split_pieces(cs@.take(i as int), ',') == done.push(cur@),
            out@.len() == kept_origins(done).len(),
            forall|k: int| 0 <= k < out@.len() ==> #[trigger] out@[k]@ == kept_origins(done)[k],
        decreases cs.len() - i,
    {
        let c = cs[i];
        proof {
            lemma_split_pieces_nonempty(cs@.take(i as int), ',');
            assert(cs@.take(i + 1).drop_last() =~= cs@.take(i as int));
        }
        if c == ',' {
            keep_piece(&mut out, cur.as_slice());
            proof {
                assert(done.push(cur@).drop_last() =~= done);
                done = done.push(cur@);
            }
            cur = Vec::new();
            assert(split_pieces(cs@.take(i + 1), ',') =~= done.push(cur@));
        } else {
            cur.push(c);
            assert(split_pieces(cs@.take(i + 1), ',') =~= done.push(cur@));
        }
        i = i + 1;
    }
    keep_piece(&mut out, cur.as_slice());
    proof {
        assert(cs@.take(cs@.len() as int) =~= cs@);
        let all = done.push(cur@);
        assert(all.drop_last() =~= done);
    }
    out
}

} // verus!
