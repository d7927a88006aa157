use vstd::prelude::*;
use crate::text::{
    any_word_within, chars_of, contains, has_substring, is_word_at, lowercase, occurs_at,
    same_chars, some_word_within, to_lower, white_space,
};

verus! {

/// A search tag matches an ImageNet class name when, compared in lower case,
/// the two are equal, one contains the other, or some whitespace-separated word
/// of the class name equals the tag or occurs in it.
pub open spec fn tag_matches_class(tag: Seq<char>, class: Seq<char>) -> bool {
    let t = lowercase(tag);
    let c = lowercase(class);
    ||| c == t
    ||| has_substring(c, t)
    ||| has_substring(t, c)
    ||| some_word_within(c, t)
}

/// Whether some tag of `tags` matches `class`.
pub open spec fn some_tag_matches(tags: Seq<Seq<char>>, class: Seq<char>) -> bool {
    exists|i: int| 0 <= i < tags.len() && tag_matches_class(#[trigger] tags[i], class)
}

/// A class is hit when, in lower case, a whitespace-separated word of its
/// name (the characters `a..b`, none of them whitespace, with whitespace or
/// the end of the name on either side) occurs within one of the tags
/// (at `j..k`): "dogs" hits "German shepherd dog".
pub proof fn lemma_class_word_within_tag_hits(
    tags: Seq<Seq<char>>,
    i: int,
    class: Seq<char>,
    a: int,
    b: int,
    j: int,
    k: int,
)
    requires
        0 <= i < tags.len(),
        0 <= a < b <= lowercase(class).len(),
        forall|m: int| a <= m < b ==> !white_space(#[trigger] lowercase(class)[m]),
        a == 0 || white_space(lowercase(class)[a - 1]),
        b == lowercase(class).len() || white_space(lowercase(class)[b]),
        0 <= j <= k <= lowercase(tags[i]).len(),
        lowercase(tags[i]).subrange(j, k) == lowercase(class).subrange(a, b),
    ensures
        some_tag_matches(tags, class),
{
    let lc = lowercase(class);
    let lt = lowercase(tags[i]);
    let w = lc.subrange(a, b);
    assert(is_word_at(lc, a, b));
    assert(w.len() == k - j);
    assert(occurs_at(lt, w, j));
    assert(has_substring(lt, w));
    assert(some_word_within(lc, lt));
    assert(tag_matches_class(tags[i], class));
}

/// A class is hit when, in lower case, one of the tags occurs within its
/// name (at `j..k`).
pub proof fn lemma_tag_within_class_hits(tags: Seq<Seq<char>>, i: int, class: Seq<char>, j: int, k: int)
    requires
        0 <= i < tags.len(),
        0 <= j <= k <= lowercase(class).len(),
        lowercase(class).subrange(j, k) == lowercase(tags[i]),
    ensures
        some_tag_matches(tags, class),
{
    assert(occurs_at(lowercase(class), lowercase(tags[i]), j));
    assert(tag_matches_class(tags[i], class));
}

/// A class is hit when, in lower case, its name occurs within one of the
/// tags (at `j..k`).
pub proof fn lemma_class_within_tag_hits(tags: Seq<Seq<char>>, i: int, class: Seq<char>, j: int, k: int)
    requires
        0 <= i < tags.len(),
        0 <= j <= k <= lowercase(tags[i]).len(),
        lowercase(tags[i]).subrange(j, k) == lowercase(class),
    ensures
        some_tag_matches(tags, class),
{
    assert(occurs_at(lowercase(tags[i]), lowercase(class), j));
    assert(tag_matches_class(tags[i], class));
}

/// A class is hit only for a reason: in lower case, one of the tags equals
/// its name, occurs within its name, contains its name, or contains a
/// whitespace-separated word of its name.
pub proof fn lemma_hit_has_reason(tags: Seq<Seq<char>>, class: Seq<char>)
    requires
        some_tag_matches(tags, class),
    ensures
        exists|i: int|
            #![trigger tags[i]]
            0 <= i < tags.len() && {
                let lt = lowercase(tags[i]);
                let lc = lowercase(class);
                ||| lc == lt
                ||| (exists|j: int, k: int|
                    0 <= j <= k <= lc.len() && #[trigger] lc.subrange(j, k) == lt)
                ||| (exists|j: int, k: int|
                    0 <= j <= k <= lt.len() && #[trigger] lt.subrange(j, k) == lc)
                ||| (exists|a: int, b: int, j: int, k: int|
                    #![trigger lc.subrange(a, b), lt.subrange(j, k)]
                    {
                        &&& 0 <= a < b <= lc.len()
                        &&& forall|m: int| a <= m < b ==> !white_space(#[trigger] lc[m])
                        &&& (a == 0 || white_space(lc[a - 1]))
                        &&& (b == lc.len() || white_space(lc[b]))
                        &&& 0 <= j <= k <= lt.len()
                        &&& lt.subrange(j, k) == lc.subrange(a, b)
                    })
            },
{
    let i = choose|i: int| 0 <= i < tags.len() && tag_matches_class(#[trigger] tags[i], class);
    let lt = lowercase(tags[i]);
    let lc = lowercase(class);
    if lc == lt {
    } else if has_substring(lc, lt) {
        let p = choose|p: int| occurs_at(lc, lt, p);
        assert(lc.subrange(p, p + lt.len()) == lt);
    } else if has_substring(lt, lc) {
        let p = choose|p: int| occurs_at(lt, lc, p);
        assert(lt.subrange(p, p + lc.len()) == lc);
    } else {
        let (a, b) = choose|a: int, b: int|
            #![trigger is_word_at(lc, a, b)]
            is_word_at(lc, a, b) && (lc.subrange(a, b) == lt || has_substring(lt, lc.subrange(a, b)));
        let w = lc.subrange(a, b);
        if w == lt {
            assert(lt.subrange(0, lt.len() as int) == lc.subrange(a, b));
        } else {
            let p = choose|p: int| occurs_at(lt, w, p);
            assert(lt.subrange(p, p + w.len()) == lc.subrange(a, b));
        }
    }
}

/// Matching is case-insensitive on both sides: whether a class is hit
/// depends on the tags and on the class name only through their lower-case
/// forms ("persian" hits "Persian cat" as it hits "persian cat").
pub proof fn lemma_hits_depend_on_lower_case(
    tags1: Seq<Seq<char>>,
    tags2: Seq<Seq<char>>,
    class1: Seq<char>,
    class2: Seq<char>,
)
    requires
        tags1.len() == tags2.len(),
        forall|i: int| 0 <= i < tags1.len() ==> lowercase(#[trigger] tags1[i]) == lowercase(tags2[i]),
        lowercase(class1) == lowercase(class2),
    ensures
        some_tag_matches(tags1, class1) == some_tag_matches(tags2, class2),
{
    assert forall|i: int| 0 <= i < tags1.len() implies tag_matches_class(#[trigger] tags1[i], class1)
        == tag_matches_class(tags2[i], class2) by {
        assert(lowercase(tags1[i]) == lowercase(tags2[i]));
    }
    if some_tag_matches(tags1, class1) {
        let i = choose|i: int| 0 <= i < tags1.len() && tag_matches_class(#[trigger] tags1[i], class1);
        assert(tag_matches_class(tags2[i], class2));
    }
    if some_tag_matches(tags2, class2) {
        let i = choose|i: int| 0 <= i < tags2.len() && tag_matches_class(#[trigger] tags2[i], class2);
        assert(tag_matches_class(tags1[i], class1));
    }
}

/// How many classes of `classes` the tag matches.
pub open spec fn classes_matched(tag: Seq<char>, classes: Seq<Seq<char>>) -> nat
    decreases classes.len(),
{
    if classes.len() == 0 {
        0
    } else {
        classes_matched(tag, classes.drop_last()) + (if tag_matches_class(
            tag,
            classes.last(),
        ) {
            1nat
        } else {
            0nat
        })
    }
}

/// How many (tag, class) pairs match: the number of matches that the search
/// by tags counts.
pub open spec fn pairs_matched(tags: Seq<Seq<char>>, classes: Seq<Seq<char>>) -> nat
    decreases tags.len(),
{
    if tags.len() == 0 {
        0
    } else {
        pairs_matched(tags.drop_last(), classes) + classes_matched(tags.last(), classes)
    }
}

/// How many entries of `hits` are set.
pub open spec fn hit_count(hits: Seq<bool>) -> nat
    decreases hits.len(),
{
    if hits.len() == 0 {
        0
    } else {
        hit_count(hits.drop_last()) + (if hits.last() {
            1nat
        } else {
            0nat
        })
    }
}

/// `n`, or `u64::MAX` where `n` is larger.
pub open spec fn saturate(n: nat) -> nat {
    if n <= u64::MAX {
        n
    } else {
        u64::MAX as nat
    }
}

/// The views of a list of strings.
pub open spec fn texts(v: Seq<String>) -> Seq<Seq<char>> {
    v.map_values(|s: String| s@)
}

/// The outcome of matching search tags against the class names: which classes
/// were hit, how many (tag, class) matches were found (saturating at
/// `u64::MAX`), and how many distinct classes were hit.
pub struct TagQuery {
    hits: Vec<bool>,
    matches_found: u64,
    hit_classes: u64,
}

impl TagQuery {
    pub closed spec fn hits_spec(&self) -> Seq<bool> {
        self.hits@
    }

    pub closed spec fn matches_found_spec(&self) -> u64 {
        self.matches_found
    }

    pub closed spec fn hit_classes_spec(&self) -> u64 {
        self.hit_classes
    }

    /// The counts agree with the hits: the distinct classes hit are counted,
    /// and a match was found exactly when some class was hit.
    pub open spec fn wf(&self) -> bool {
        &&& self.hit_classes_spec() as nat == hit_count(self.hits_spec())
        &&& (self.matches_found_spec() == 0 <==> self.hit_classes_spec() == 0)
    }

    /// Whether class `i` was hit by some tag.
    pub fn hit(&self, i: usize) -> (res: bool)
        requires
            i < self.hits_spec().len(),
        ensures
            res == self.hits_spec()[i as int],
    {
        self.hits[i]
    }

    /// The number of classes (the length of the query vector).
    pub fn len(&self) -> (res: usize)
        ensures
            res == self.hits_spec().len(),
    {
        self.hits.len()
    }

    /// The number of (tag, class) matches found.
    pub fn matches_found(&self) -> (res: u64)
        ensures
            res == self.matches_found_spec(),
    {
        self.matches_found
    }

    /// The weight that the query vector gives class `i`, as a fraction
    /// `(numerator, denominator)`: with no match every class gets the same
    /// share `1 / n`; otherwise every hit class gets `1 / k`, `k` the number of
    /// hit classes, and the others get nothing.
    pub open spec fn weight_spec(&self, i: int) -> (nat, nat) {
        if self.matches_found_spec() == 0 {
            (1, self.hits_spec().len())
        } else if self.hits_spec()[i] {
            (1, self.hit_classes_spec() as nat)
        } else {
            (0, self.hit_classes_spec() as nat)
        }
    }

    /// The weight of class `i`, as `weight_spec` states it.
    pub fn weight(&self, i: usize) -> (res: (u64, u64))
        requires
            self.wf(),
            i < self.hits_spec().len(),
        ensures
            (res.0 as nat, res.1 as nat) == self.weight_spec(i as int),
    {
        if self.matches_found == 0 {
            (1, self.hits.len() as u64)
        } else if self.hits[i] {
            (1, self.hit_classes)
        } else {
            (0, self.hit_classes)
        }
    }
}

/// The sum of the numerators of the first `n` weights.
pub open spec fn numerator_sum(q: TagQuery, n: int) -> nat
    decreases n,
{
    if n <= 0 {
        0
    } else {
        numerator_sum(q, n - 1) + q.weight_spec(n - 1).0
    }
}

proof fn lemma_hit_count_prefix(hits: Seq<bool>, n: int)
    requires
        0 <= n <= hits.len(),
    ensures
        hit_count(hits.take(n)) <= n,
    decreases n,
{
    if n > 0 {
        lemma_hit_count_prefix(hits, n - 1);
        assert(hits.take(n).drop_last() =~= hits.take(n - 1));
    }
}

proof fn lemma_numerators(q: TagQuery, n: int)
    requires
        q.wf(),
        0 <= n <= q.hits@.len(),
    ensures
        numerator_sum(q, n) == if q.matches_found == 0 {
            n as nat
        } else {
            hit_count(q.hits@.take(n))
        },
    decreases n,
{
    if n > 0 {
        lemma_numerators(q, n - 1);
        assert(q.hits@.take(n).drop_last() =~= q.hits@.take(n - 1));
    }
}

/// The query vector is a probability distribution: the weights share one
/// positive denominator and their numerators add up to it, whether the tags
/// matched some classes (the vector is normalised) or none (the vector is
/// uniform).
pub proof fn lemma_weights_sum_to_one(q: TagQuery)
    requires
        q.wf(),
        q.hits_spec().len() > 0,
    ensures
        forall|i: int|
            0 <= i < q.hits_spec().len() ==> (#[trigger] q.weight_spec(i)).1 == q.weight_spec(0).1,
        q.weight_spec(0).1 > 0,
        numerator_sum(q, q.hits_spec().len() as int) == q.weight_spec(0).1,
{
    lemma_numerators(q, q.hits@.len() as int);
    assert(q.hits@.take(q.hits@.len() as int) =~= q.hits@);
}

proof fn lemma_classes_matched_zero(t: Seq<char>, cs: Seq<Seq<char>>)
    ensures
        classes_matched(t, cs) == 0 <==> forall|k: int|
            0 <= k < cs.len() ==> !tag_matches_class(t, #[trigger] cs[k]),
    decreases cs.len(),
{
    if cs.len() > 0 {
        lemma_classes_matched_zero(t, cs.drop_last());
        assert forall|k: int| 0 <= k < cs.len() - 1 implies cs.drop_last()[k] == cs[k] by {}
    }
}

proof fn lemma_pairs_matched_zero(ts: Seq<Seq<char>>, cs: Seq<Seq<char>>)
    ensures
        pairs_matched(ts, cs) == 0 <==> forall|i: int|
            0 <= i < ts.len() ==> classes_matched(#[trigger] ts[i], cs) == 0,
    decreases ts.len(),
{
    if ts.len() > 0 {
        lemma_pairs_matched_zero(ts.drop_last(), cs);
        assert forall|i: int| 0 <= i < ts.len() - 1 implies ts.drop_last()[i] == ts[i] by {}
    }
}

proof fn lemma_hit_count_zero(h: Seq<bool>)
    ensures
        hit_count(h) == 0 <==> forall|k: int| 0 <= k < h.len() ==> !h[k],
    decreases h.len(),
{
    if h.len() > 0 {
        lemma_hit_count_zero(h.drop_last());
        assert forall|k: int| 0 <= k < h.len() - 1 implies h.drop_last()[k] == h[k] by {}
    }
}

proof fn lemma_found_iff_hit(ts: Seq<Seq<char>>, cs: Seq<Seq<char>>, hits: Seq<bool>)
    requires
        hits.len() == cs.len(),
        forall|k: int| 0 <= k < cs.len() ==> (#[trigger] hits[k] <==> some_tag_matches(ts, cs[k])),
    ensures
        pairs_matched(ts, cs) == 0 <==> hit_count(hits) == 0,
{
    lemma_pairs_matched_zero(ts, cs);
    lemma_hit_count_zero(hits);
    assert forall|i: int| 0 <= i < ts.len() implies #[trigger] classes_matched(ts[i], cs) == 0 <==> forall|k: int|
        0 <= k < cs.len() ==> !tag_matches_class(ts[i], #[trigger] cs[k]) by {
        lemma_classes_matched_zero(ts[i], cs);
    }
    if hit_count(hits) == 0 {
        assert forall|i: int| 0 <= i < ts.len() implies classes_matched(#[trigger] ts[i], cs) == 0 by {
            lemma_classes_matched_zero(ts[i], cs);
            assert forall|k: int| 0 <= k < cs.len() implies !tag_matches_class(ts[i], #[trigger] cs[k]) by {
                assert(!hits[k]);
            }
        }
    }
    if pairs_matched(ts, cs) == 0 {
        assert forall|k: int| 0 <= k < hits.len() implies !hits[k] by {
            if hits[k] {
                let i = choose|i: int| 0 <= i < ts.len() && tag_matches_class(#[trigger] ts[i], cs[k]);
                lemma_classes_matched_zero(ts[i], cs);
                assert(classes_matched(ts[i], cs) == 0);
            }
        }
    }
}

/// Lower-cases a text and returns its characters.
fn lower_chars(s: &String) -> (res: Vec<char>)
    ensures
        res@ == lowercase(s@),
{
    let l = to_lower(s.as_str());
    chars_of(l.as_str())
}

/// Whether one tag (already lower-cased) matches one class name (already
/// lower-cased), as `tag_matches_class` states it.
fn lowered_match(t: &[char], c: &[char]) -> (res: bool)
    ensures
        res == (c@ == t@ || has_substring(c@, t@) || has_substring(t@, c@) || some_word_within(
            c@,
            t@,
        )),
{
    same_chars(c, t) || contains(c, t) || contains(t, c) || any_word_within(c, t)
}

/// Matches the search tags against the class names: for every tag and every
/// class, in order, a match marks the class as hit and counts one more match.
pub fn match_tags(tags: &Vec<String>, classes: &Vec<String>) -> (res: TagQuery)
    ensures
        res.wf(),
        res.hits_spec().len() == classes@.len(),
        forall|k: int|
            0 <= k < classes@.len() ==> (#[trigger] res.hits_spec()[k] <==> some_tag_matches(
                texts(tags@),
                classes@[k]@,
            )),
        res.matches_found_spec() as nat == saturate(pairs_matched(texts(tags@), texts(classes@))),
{
    let ghost ts = texts(tags@);
    let ghost cs = texts(classes@);
    let mut lowered: Vec<Vec<char>> = Vec::new();
    let mut c: usize = 0;
    while c < classes.len()
        invariant
            c <= classes@.len(),
            lowered@.len() == c,
            forall|k: int| 0 <= k < c ==> (#[trigger] lowered@[k])@ == lowercase(classes@[k]@),
        decreases classes.len() - c,
    {
        lowered.push(lower_chars(&classes[c]));
        c = c + 1;
    }
    let mut hits: Vec<bool> = Vec::new();
    let mut c: usize = 0;
    while c < classes.len()
        invariant
            c <= classes@.len(),
            hits@.len() == c,
            forall|k: int| 0 <= k < c ==> !hits@[k],
        decreases classes.len() - c,
    {
        hits.push(false);
        c = c + 1;
    }
    let mut found: u64 = 0;
    let mut t: usize = 0;
    while t < tags.len()
        invariant
            ts == texts(tags@),
            cs == texts(classes@),
            t <= tags@.len(),
            hits@.len() == classes@.len(),
            lowered@.len() == classes@.len(),
            forall|k: int| 0 <= k < classes@.len() ==> (#[trigger] lowered@[k])@ == lowercase(classes@[k]@),
            forall|k: int|
                0 <= k < classes@.len() ==> (#[trigger] hits@[k] <==> some_tag_matches(
                    ts.take(t as int),
                    classes@[k]@,
                )),
            found as nat == saturate(pairs_matched(ts.take(t as int), cs)),
        decreases tags.len() - t,
    {
        let tl = lower_chars(&tags[t]);
        let ghost hits_before = hits@;
        let ghost pairs_before = pairs_matched(ts.take(t as int), cs);
        let mut k: usize = 0;
        while k < classes.len()
            invariant
                ts == texts(tags@),
                cs == texts(classes@),
                t < tags@.len(),
                k <= classes@.len(),
                tl@ == lowercase(tags@[t as int]@),
                hits@.len() == classes@.len(),
                lowered@.len() == classes@.len(),
                forall|m: int| 0 <= m < classes@.len() ==> (#[trigger] lowered@[m])@ == lowercase(classes@[m]@),
                forall|m: int|
                    0 <= m < k ==> (#[trigger] hits@[m] <==> (hits_before[m] || tag_matches_class(
                        tags@[t as int]@,
                        classes@[m]@,
                    ))),
                forall|m: int| k <= m < classes@.len() ==> #[trigger] hits@[m] == hits_before[m],
                found as nat == saturate(pairs_before + classes_matched(ts[t as int], cs.take(k as int))),
            decreases classes.len() - k,
        {
            let m = lowered_match(tl.as_slice(), lowered[k].as_slice());
            assert(cs.take(k + 1).drop_last() =~= cs.take(k as int));
            assert(cs[k as int] == classes@[k as int]@);
            assert(ts[t as int] == tags@[t as int]@);
            if m {
                hits.set(k, true);
                found = found.saturating_add(1);
            }
            k = k + 1;
        }
        proof {
            assert(cs.take(classes@.len() as int) =~= cs);
            assert(ts.take(t + 1).drop_last() =~= ts.take(t as int));
            assert forall|m: int| 0 <= m < classes@.len() implies (#[trigger] hits@[m]
                <==> some_tag_matches(ts.take(t + 1), classes@[m]@)) by {
                let tp = ts.take(t + 1);
                if hits@[m] && !hits_before[m] {
                    assert(tp[t as int] == tags@[t as int]@);
                }
                if some_tag_matches(tp, classes@[m]@) {
                    let i = choose|i: int| 0 <= i < tp.len() && tag_matches_class(#[trigger] tp[i], classes@[m]@);
                    if i < t {
                        assert(ts.take(t as int)[i] == tp[i]);
                    } else {
                        assert(tp[i] == tags@[t as int]@);
                    }
                }
                if hits_before[m] {
                    let i = choose|i: int| 0 <= i < t && tag_matches_class(#[trigger] ts.take(t as int)[i], classes@[m]@);
                    assert(tp[i] == ts.take(t as int)[i]);
                }
            }
        }
        t = t + 1;
    }
    proof {
        assert(ts.take(tags@.len() as int) =~= ts);
    }
    let mut distinct: u64 = 0;
    let mut k: usize = 0;
    while k < hits.len()
        invariant
            k <= hits@.len(),
            distinct as nat == hit_count(hits@.take(k as int)),
        decreases hits.len() - k,
    {
        proof {
            lemma_hit_count_prefix(hits@, k as int);
            assert(hits@.take(k + 1).drop_last() =~= hits@.take(k as int));
        }
        if hits[k] {
            distinct = distinct + 1;
        }
        k = k + 1;
    }
    proof {
        assert(hits@.take(hits@.len() as int) =~= hits@);
        assert forall|k: int| 0 <= k < cs.len() implies (#[trigger] hits@[k] <==> some_tag_matches(ts, cs[k])) by {
            assert(cs[k] == classes@[k]@);
        }
        lemma_found_iff_hit(ts, cs, hits@);
    }
    TagQuery { hits, matches_found: found, hit_classes: distinct }
}

} // verus!
