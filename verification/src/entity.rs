use vstd::prelude::*;
use crate::filter::UtcTime;
use crate::text::{chars_of, same_chars};

verus! {

/// The metadata of an uploaded image: which Telegram message it came from,
/// when that message was posted, and the collection it goes into.
pub struct UploadParams {
    pub msg_id: i32,
    pub chat_id: i64,
    pub posted_at: UtcTime,
    pub collection: String,
}

/// The answer to an accepted upload: the metadata it was stored with.
pub struct UploadResponse {
    pub msg_id: i32,
    pub chat_id: i64,
    pub posted_at: UtcTime,
    pub collection: String,
}

/// One image found by a search, with its source channel; the similarity
/// score that the vector database gives it is added where the search runs.
pub struct SearchHit {
    pub msg_id: i32,
    pub chat_id: i64,
    pub posted_at: UtcTime,
    pub display_name: String,
    pub bias: Option<String>,
    pub user_name: Option<String>,
    pub invite_hash: Option<String>,
    pub tags: Vec<String>,
    pub img: String,
    pub backup_msg_id: Option<i32>,
}

/// The parameters of a search by text tags.
pub struct TextSearchParams {
    pub tags: Vec<String>,
    pub limit: Option<u64>,
    pub posted_after: Option<UtcTime>,
    pub posted_before: Option<UtcTime>,
    pub collection: String,
}

/// The parameters of a search by an example image.
pub struct ImageSearchParams {
    pub limit: Option<u64>,
    pub posted_after: Option<UtcTime>,
    pub posted_before: Option<UtcTime>,
    pub collection: String,
}


/// The datasets that the service holds: for each collection, by name, the
/// number of points stored in it.
pub struct MetadataResponse {
    datasets: Vec<(String, u64)>,
}

/// The map that a list of (name, count) entries describes, later entries
/// overriding earlier ones.
pub open spec fn entries_map(entries: Seq<(Seq<char>, u64)>) -> Map<Seq<char>, u64>
    decreases entries.len(),
{
    if entries.len() == 0 {
        Map::empty()
    } else {
        entries_map(entries.drop_last()).insert(entries.last().0, entries.last().1)
    }
}

/// No name occurs twice.
pub open spec fn distinct_names(entries: Seq<(Seq<char>, u64)>) -> bool {
    forall|i: int, j: int|
        0 <= i < entries.len() && 0 <= j < entries.len() && i != j ==> (#[trigger] entries[i]).0
            != (#[trigger] entries[j]).0
}

proof fn lemma_entries_map_domain(entries: Seq<(Seq<char>, u64)>, k: Seq<char>)
    ensures
        entries_map(entries).dom().contains(k) <==> exists|i: int|
            0 <= i < entries.len() && (#[trigger] entries[i]).0 == k,
    decreases entries.len(),
{
    if entries.len() > 0 {
        lemma_entries_map_domain(entries.drop_last(), k);
        if exists|i: int| 0 <= i < entries.len() - 1 && (#[trigger] entries.drop_last()[i]).0 == k {
            let i = choose|i: int| 0 <= i < entries.len() - 1 && (#[trigger] entries.drop_last()[i]).0 == k;
            assert(entries[i].0 == k);
        }
        if exists|i: int| 0 <= i < entries.len() && (#[trigger] entries[i]).0 == k {
            let i = choose|i: int| 0 <= i < entries.len() && (#[trigger] entries[i]).0 == k;
            if i < entries.len() - 1 {
                assert(entries.drop_last()[i].0 == k);
            }
        }
    }
}

proof fn lemma_entries_map_update(entries: Seq<(Seq<char>, u64)>, i: int, v: u64)
    requires
        distinct_names(entries),
        0 <= i < entries.len(),
    ensures
        entries_map(entries.update(i, (entries[i].0, v))) == entries_map(entries).insert(
            entries[i].0,
            v,
        ),
    decreases entries.len(),
{
    let k = entries[i].0;
    let upd = entries.update(i, (k, v));
    if i == entries.len() - 1 {
        assert(upd.drop_last() =~= entries.drop_last());
        assert(entries_map(upd) =~= entries_map(entries).insert(k, v));
    } else {
        let prefix = entries.drop_last();
        assert forall|a: int, b: int|
            0 <= a < prefix.len() && 0 <= b < prefix.len() && a != b implies (#[trigger] prefix[a]).0
            != (#[trigger] prefix[b]).0 by {
            assert(prefix[a] == entries[a]);
            assert(prefix[b] == entries[b]);
        }
        lemma_entries_map_update(prefix, i, v);
        assert(upd.drop_last() =~= prefix.update(i, (k, v)));
        assert(entries.last().0 != k);
        assert(entries_map(upd) =~= entries_map(entries).insert(k, v));
    }
}

impl MetadataResponse {
    /// The datasets as a map from collection name to point count.
    pub open spec fn datasets_map(&self) -> Map<Seq<char>, u64> {
        entries_map(self.entry_views())
    }

    /// The recorded (name, count) entries as plain values.
    pub closed spec fn entry_views(&self) -> Seq<(Seq<char>, u64)> {
        self.datasets@.map_values(|e: (String, u64)| (e.0@, e.1))
    }

    /// No collection is listed twice.
    pub open spec fn wf(&self) -> bool {
        distinct_names(self.entry_views())
    }

    /// No datasets.
    pub fn new() -> (res: MetadataResponse)
        ensures
            res.wf(),
            res.datasets_map() == Map::<Seq<char>, u64>::empty(),
    {
        let res = MetadataResponse { datasets: Vec::new() };
        assert(res.entry_views() =~= Seq::<(Seq<char>, u64)>::empty());
        res
    }

    /// Records the point count of a collection, replacing any count recorded
    /// for it before.
    pub fn insert(&mut self, name: String, count: u64)
        requires
            old(self).wf(),
        ensures
            final(self).wf(),
            final(self).datasets_map() == old(self).datasets_map().insert(name@, count),
    {
        let ghost before = self.entry_views();
        let key = chars_of(name.as_str());
        let mut i: usize = 0;
        while i < self.datasets.len()
            invariant
                self.entry_views() == before,
                before == old(self).entry_views(),
                distinct_names(before),
                key@ == name@,
                i <= self.datasets@.len(),
                forall|j: int| 0 <= j < i ==> (#[trigger] before[j]).0 != name@,
            decreases self.datasets.len() - i,
        {
            let existing = chars_of(self.datasets[i].0.as_str());
            if same_chars(existing.as_slice(), key.as_slice()) {
                let entry_name = self.datasets[i].0.clone();
                self.datasets.set(i, (entry_name, count));
                proof {
                    assert(before[i as int].0 == name@);
                    assert(self.entry_views() =~= before.update(i as int, (name@, count)));
                    lemma_entries_map_update(before, i as int, count);
                    assert(before.update(i as int, (before[i as int].0, count)) =~= self.entry_views());
                    assert(self.datasets_map() == entries_map(before).insert(name@, count));
                    assert forall|a: int, b: int|
                        0 <= a < self.entry_views().len() && 0 <= b < self.entry_views().len() && a
                            != b implies (#[trigger] self.entry_views()[a]).0 != (
                    #[trigger] self.entry_views()[b]).0 by {
                        assert(self.entry_views()[a].0 == before[a].0);
                        assert(self.entry_views()[b].0 == before[b].0);
                    }
                }
                return;
            }
            assert(before[i as int].0 != name@);
            i = i + 1;
        }
        self.datasets.push((name, count));
        proof {
            let after = self.entry_views();
            assert(after =~= before.push((name@, count)));
            assert(after.drop_last() =~= before);
            assert forall|a: int, b: int|
                0 <= a < after.len() && 0 <= b < after.len() && a != b implies (
            #[trigger] after[a]).0 != (#[trigger] after[b]).0 by {
                if a < before.len() {
                    assert(after[a] == before[a]);
                }
                if b < before.len() {
                    assert(after[b] == before[b]);
                }
            }
        }
    }

    /// The number of collections listed.
    pub fn len(&self) -> (res: usize)
        requires
            self.wf(),
        ensures
            res == self.datasets_map().dom().len(),
    {
        proof {
            lemma_distinct_map_len(self.entry_views());
        }
        self.datasets.len()
    }

    /// The recorded (name, count) pairs, each collection once.
    pub fn entries(&self) -> (res: &Vec<(String, u64)>)
        ensures
            res@.map_values(|e: (String, u64)| (e.0@, e.1)) == self.entry_views(),
    {
        &self.datasets
    }
}

proof fn lemma_distinct_map_len(entries: Seq<(Seq<char>, u64)>)
    requires
        distinct_names(entries),
    ensures
        entries_map(entries).dom().len() == entries.len(),
        entries_map(entries).dom().finite(),
    decreases entries.len(),
{
    if entries.len() > 0 {
        let prefix = entries.drop_last();
        assert forall|a: int, b: int|
            0 <= a < prefix.len() && 0 <= b < prefix.len() && a != b implies (#[trigger] prefix[a]).0
            != (#[trigger] prefix[b]).0 by {
            assert(prefix[a] == entries[a]);
            assert(prefix[b] == entries[b]);
        }
        lemma_distinct_map_len(prefix);
        lemma_entries_map_domain(prefix, entries.last().0);
        if entries_map(prefix).dom().contains(entries.last().0) {
            let i = choose|i: int| 0 <= i < prefix.len() && (#[trigger] prefix[i]).0 == entries.last().0;
            assert(entries[i].0 == entries[entries.len() - 1].0);
        }
    }
}

/// The point count to report for a collection whose information the
/// database returned: its point count, or 0 when the database gives none.
pub fn points_count(count: Option<u64>) -> (res: u64)
    ensures
        res == match count {
            Some(c) => c,
            None => 0,
        },
{
    match count {
        Some(c) => c,
        None => 0,
    }
}

} // verus!
