//! The freshness cache.
//!
//! Maps a file-content identity to the most recent commit timestamp that
//! touched it.  The commit walk is reverse-topological, not monotone in
//! time, so every update takes the maximum of the stored and the offered
//! timestamp; the stored value is therefore independent of the order in
//! which commits are visited.

use vstd::prelude::*;
use crate::diff::{is_rendered_status, DeltaInfo, DeltaStatus};
use crate::oid::ObjId;

verus! {

/// The map described by an association list, later entries winning.
pub open spec fn entries_map(s: Seq<(ObjId, i64)>) -> Map<ObjId, int>
    decreases s.len(),
{
    if s.len() == 0 {
        Map::empty()
    } else {
        entries_map(s.drop_last()).insert(s.last().0, s.last().1 as int)
    }
}

/// One max-update of the cache: the stored timestamp for `id` becomes
/// the larger of the offered one and whatever was stored before.
pub open spec fn merged(m: Map<ObjId, int>, id: ObjId, t: int) -> Map<ObjId, int> {
    m.insert(
        id,
        if m.contains_key(id) && m[id] >= t {
            m[id]
        } else {
            t
        },
    )
}

/// Per content identity, the most recent commit timestamp seen so far.
pub struct FreshnessCache {
    entries: Vec<(ObjId, i64)>,
}

impl View for FreshnessCache {
    type V = Map<ObjId, int>;

    closed spec fn view(&self) -> Map<ObjId, int> {
        entries_map(self.entries@)
    }
}

proof fn lemma_entries_map_found(s: Seq<(ObjId, i64)>, i: int)
    requires
        0 <= i < s.len(),
        forall|a: int, b: int|
            0 <= a < b < s.len() ==> (#[trigger] s[a]).0 != (#[trigger] s[b]).0,
    ensures
        entries_map(s).contains_key(s[i].0),
        entries_map(s)[s[i].0] == s[i].1 as int,
    decreases s.len(),
{
    if i < s.len() - 1 {
        lemma_entries_map_found(s.drop_last(), i);
    }
}

proof fn lemma_entries_map_not_found(s: Seq<(ObjId, i64)>, k: ObjId)
    requires
        forall|i: int| 0 <= i < s.len() ==> (#[trigger] s[i]).0 != k,
    ensures
        !entries_map(s).contains_key(k),
    decreases s.len(),
{
    if s.len() > 0 {
        lemma_entries_map_not_found(s.drop_last(), k);
    }
}

proof fn lemma_entries_map_update(s: Seq<(ObjId, i64)>, i: int, v: i64)
    requires
        0 <= i < s.len(),
        forall|a: int, b: int|
            0 <= a < b < s.len() ==> (#[trigger] s[a]).0 != (#[trigger] s[b]).0,
    ensures
        entries_map(s.update(i, (s[i].0, v))) == entries_map(s).insert(s[i].0, v as int),
    decreases s.len(),
{
    let t = s.update(i, (s[i].0, v));
    if i == s.len() - 1 {
        assert(t.drop_last() =~= s.drop_last());
        assert(entries_map(t) =~= entries_map(s).insert(s[i].0, v as int));
    } else {
        lemma_entries_map_update(s.drop_last(), i, v);
        assert(t.drop_last() =~= s.drop_last().update(i, (s[i].0, v)));
        assert(t.last() == s.last());
        lemma_entries_map_found(s, i);
        assert(entries_map(t) =~= entries_map(s).insert(s[i].0, v as int));
    }
}

impl FreshnessCache {
    /// The entries hold each identity at most once.
    pub closed spec fn wf(&self) -> bool {
        forall|a: int, b: int|
            0 <= a < b < self.entries@.len() ==> (#[trigger] self.entries@[a]).0 != (
            #[trigger] self.entries@[b]).0
    }

    /// An empty cache.
    pub fn new() -> (c: FreshnessCache)
        ensures
            c.wf(),
            c@ == Map::<ObjId, int>::empty(),
    {
        FreshnessCache { entries: Vec::new() }
    }

    /// The stored timestamp for `id`, if any commit has touched it.
    pub fn get(&self, id: ObjId) -> (r: Option<i64>)
        requires
            self.wf(),
        ensures
            match r {
                Some(t) => self@.contains_key(id) && self@[id] == t as int,
                None => !self@.contains_key(id),
            },
    {
        let n = self.entries.len();
        let mut i: usize = 0;
        while i < n
            invariant
                i <= n == self.entries@.len(),
                self.wf(),
                forall|k: int| 0 <= k < i ==> (#[trigger] self.entries@[k]).0 != id,
            decreases n - i,
        {
            let (k, v) = self.entries[i];
            if k == id {
                proof {
                    lemma_entries_map_found(self.entries@, i as int);
                }
                return Some(v);
            }
            i = i + 1;
        }
        proof {
            lemma_entries_map_not_found(self.entries@, id);
        }
        None
    }

    /// Records that a commit with timestamp `t` touched `id`, keeping
    /// the maximum of `t` and any stored timestamp.
    pub fn merge(&mut self, id: ObjId, t: i64)
        requires
            old(self).wf(),
        ensures
            final(self).wf(),
            final(self)@ == merged(old(self)@, id, t as int),
    {
        let n = self.entries.len();
        let mut i: usize = 0;
        while i < n
            invariant
                i <= n == self.entries@.len(),
                *self == *old(self),
                self.wf(),
                forall|k: int| 0 <= k < i ==> (#[trigger] self.entries@[k]).0 != id,
            decreases n - i,
        {
            let (k, v) = self.entries[i];
            if k == id {
                proof {
                    lemma_entries_map_found(self.entries@, i as int);
                }
                if v < t {
                    proof {
                        lemma_entries_map_update(self.entries@, i as int, t);
                    }
                    self.entries.set(i, (id, t));
                } else {
                    proof {
                        assert(entries_map(self.entries@).insert(id, v as int)
                            =~= entries_map(self.entries@));
                    }
                }
                return ;
            }
            i = i + 1;
        }
        proof {
            lemma_entries_map_not_found(self.entries@, id);
        }
        let ghost before = self.entries@;
        self.entries.push((id, t));
        proof {
            assert(self.entries@.drop_last() =~= before);
            assert(self.entries@.last() == (id, t));
            assert(entries_map(self.entries@) =~= merged(entries_map(before), id, t as int));
        }
    }
}

/// The cache after one commit: a max-update for the new content
/// identity of every delta whose status is rendered, left to right.
pub open spec fn merge_deltas_spec(
    m: Map<ObjId, int>,
    s: Seq<DeltaInfo>,
    t: int,
) -> Map<ObjId, int>
    decreases s.len(),
{
    if s.len() == 0 {
        m
    } else {
        let m1 = if is_rendered_status(s.first().status) {
            merged(m, s.first().new_id, t)
        } else {
            m
        };
        merge_deltas_spec(m1, s.drop_first(), t)
    }
}

/// Merges one commit's touched files into the cache: for every delta
/// whose status is rendered, the new content identity is recorded with
/// the commit's timestamp under the max-update rule.  This runs even
/// for commits whose page is skipped.
pub fn update_freshness(
    cache: &mut FreshnessCache,
    deltas: &Vec<DeltaInfo>,
    commit_time: i64,
)
    requires
        old(cache).wf(),
    ensures
        final(cache).wf(),
        final(cache)@ == merge_deltas_spec(old(cache)@, deltas@, commit_time as int),
{
    let n = deltas.len();
    let mut i: usize = 0;
    proof {
        assert(deltas@.subrange(0, n as int) =~= deltas@);
    }
    while i < n
        invariant
            i <= n == deltas@.len(),
            cache.wf(),
            merge_deltas_spec(
                cache@,
                deltas@.subrange(i as int, n as int),
                commit_time as int,
            ) == merge_deltas_spec(old(cache)@, deltas@, commit_time as int),
        decreases n - i,
    {
        proof {
            let tail = deltas@.subrange(i as int, n as int);
            assert(tail.first() == deltas@[i as int]);
            assert(tail.drop_first() =~= deltas@.subrange(i as int + 1, n as int));
        }
        let d = &deltas[i];
        if matches!(
            d.status,
            DeltaStatus::Added
                | DeltaStatus::Copied
                | DeltaStatus::Deleted
                | DeltaStatus::Modified
                | DeltaStatus::Renamed
        ) {
            cache.merge(d.new_id, commit_time);
        }
        i = i + 1;
    }
    proof {
        assert(deltas@.subrange(n as int, n as int) =~= Seq::<DeltaInfo>::empty());
    }
}

/// Feeding two timestamps for the same identity into a cache that has
/// not seen it yet stores the larger one, in either visitation order.
pub proof fn lemma_freshness_max_update(m: Map<ObjId, int>, id: ObjId, t1: int, t2: int)
    requires
        t1 <= t2,
        !m.contains_key(id),
    ensures
        merged(merged(m, id, t1), id, t2)[id] == t2,
        merged(merged(m, id, t2), id, t1)[id] == t2,
{
}

} // verus!
