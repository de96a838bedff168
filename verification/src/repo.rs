//! The repository catalog and per-repository data.
//!
//! A repository is described by plain values: its name, the sidecar
//! owner and description texts, and the earliest and latest author
//! timestamps over the commits reachable from its head.  The catalog
//! orders repositories by descending first-commit time, so the youngest
//! repository comes first.

use vstd::prelude::*;
use crate::time::Time;

verus! {

/// The earliest commit time of a list, folded from a sentinel of the
/// largest representable time.
pub open spec fn first_commit_fold(acc: int, times: Seq<Time>) -> int
    decreases times.len(),
{
    if times.len() == 0 {
        acc
    } else {
        let next = if times.first().seconds < acc {
            times.first().seconds as int
        } else {
            acc
        };
        first_commit_fold(next, times.drop_first())
    }
}

pub open spec fn first_commit_spec(times: Seq<Time>) -> int {
    first_commit_fold(i64::MAX as int, times)
}

/// The latest timestamp of a list, folded left to right from a
/// sentinel of the smallest representable time; on equal seconds the
/// later-visited timestamp wins.
pub open spec fn last_commit_fold(acc: Time, times: Seq<Time>) -> Time
    decreases times.len(),
{
    if times.len() == 0 {
        acc
    } else {
        let next = if acc.seconds <= times.first().seconds {
            times.first()
        } else {
            acc
        };
        last_commit_fold(next, times.drop_first())
    }
}

pub open spec fn last_commit_spec(times: Seq<Time>) -> Time {
    last_commit_fold(Time { seconds: i64::MIN, offset_minutes: 0 }, times)
}

/// One repository of the store.
pub struct RepoInfo {
    pub name: String,
    pub owner: String,
    pub description: Option<String>,
    pub first_commit: i64,
    pub last_commit: Time,
}

/// Why a repository's plain data is unusable.
#[derive(Clone, Copy, Debug, PartialEq, Eq, Structural)]
pub enum RepoError {
    /// The repository has no reachable commits.
    NoCommits,
}

/// Folds the earliest and latest commit times of a repository.
pub fn commit_time_bounds(times: &Vec<Time>) -> (r: (i64, Time))
    ensures
        r.0 == first_commit_spec(times@),
        r.1 == last_commit_spec(times@),
{
    let mut first: i64 = i64::MAX;
    let mut last = Time { seconds: i64::MIN, offset_minutes: 0 };
    let n = times.len();
    let mut i: usize = 0;
    proof {
        assert(times@.subrange(0, n as int) =~= times@);
    }
    while i < n
        invariant
            i <= n == times@.len(),
            first_commit_spec(times@) == first_commit_fold(
                first as int,
                times@.subrange(i as int, n as int),
            ),
            last_commit_spec(times@) == last_commit_fold(
                last,
                times@.subrange(i as int, n as int),
            ),
        decreases n - i,
    {
        let t = times[i];
        proof {
            let tail = times@.subrange(i as int, n as int);
            assert(tail.first() == times@[i as int]);
            assert(tail.drop_first() =~= times@.subrange(i as int + 1, n as int));
        }
        if t.seconds < first {
            first = t.seconds;
        }
        if last.seconds <= t.seconds {
            last = t;
        }
        i = i + 1;
    }
    proof {
        assert(times@.subrange(n as int, n as int) =~= Seq::<Time>::empty());
    }
    (first, last)
}

impl RepoInfo {
    /// Builds a repository record from its sidecar texts and the author
    /// timestamps of every commit reachable from head.  A repository
    /// with no reachable commits is rejected.
    pub fn from_parts(
        name: String,
        owner: String,
        description: Option<String>,
        times: &Vec<Time>,
    ) -> (r: Result<RepoInfo, RepoError>)
        ensures
            match r {
                Ok(info) => {
                    &&& times@.len() > 0
                    &&& info.name == name
                    &&& info.owner == owner
                    &&& info.description == description
                    &&& info.first_commit == first_commit_spec(times@)
                    &&& info.last_commit == last_commit_spec(times@)
                },
                Err(e) => e == RepoError::NoCommits && times@.len() == 0,
            },
    {
        if times.len() == 0 {
            return Err(RepoError::NoCommits);
        }
        let (first, last) = commit_time_bounds(times);
        Ok(RepoInfo { name, owner, description, first_commit: first, last_commit: last })
    }

    /// Orders a catalog: repositories by descending first-commit time,
    /// so the repository whose oldest commit is most recent sorts
    /// first.  The result holds exactly the given repositories.
    pub fn index(repos: Vec<RepoInfo>) -> (out: Vec<RepoInfo>)
        ensures
            out@.len() == repos@.len(),
            out@.to_multiset() == repos@.to_multiset(),
            forall|a: int, b: int|
                0 <= a < b < out@.len() ==> (#[trigger] out@[a]).first_commit >= (
                #[trigger] out@[b]).first_commit,
    {
        broadcast use vstd::seq_lib::group_to_multiset_ensures;
        broadcast use vstd::multiset::group_multiset_axioms;

        let ghost orig = repos@;
        let mut rest = repos;
        let mut out: Vec<RepoInfo> = Vec::new();
        while rest.len() > 0
            invariant
                out@.to_multiset().add(rest@.to_multiset()) =~= orig.to_multiset(),
                out@.len() + rest@.len() == orig.len(),
                forall|a: int, b: int|
                    0 <= a < b < out@.len() ==> (#[trigger] out@[a]).first_commit >= (
                    #[trigger] out@[b]).first_commit,
                forall|a: int, b: int|
                    0 <= a < out@.len() && 0 <= b < rest@.len() ==> (
                    #[trigger] out@[a]).first_commit >= (#[trigger] rest@[b]).first_commit,
            decreases rest@.len(),
        {
            let mut best: usize = 0;
            let mut j: usize = 1;
            while j < rest.len()
                invariant
                    best < j <= rest@.len(),
                    forall|b: int|
                        0 <= b < j ==> rest@[best as int].first_commit >= (
                        #[trigger] rest@[b]).first_commit,
                decreases rest@.len() - j,
            {
                if rest[j].first_commit > rest[best].first_commit {
                    best = j;
                }
                j = j + 1;
            }
            let ghost rest0 = rest@;
            let ghost out0 = out@;
            let picked = rest.remove(best);
            out.push(picked);
            proof {
                vstd::seq_lib::to_multiset_remove::<RepoInfo>(rest0, best as int);
                vstd::seq_lib::to_multiset_build::<RepoInfo>(out0, picked);
                vstd::seq_lib::to_multiset_contains::<RepoInfo>(rest0, picked);
                assert(rest@ == rest0.remove(best as int));
                assert(out@ == out0.push(picked));
                assert(rest0.contains(picked));
                assert(rest0.to_multiset().count(picked) > 0);
                assert(out@.to_multiset().add(rest@.to_multiset()) =~= out0.to_multiset()
                    .add(rest0.to_multiset()));
                assert(forall|b: int|
                    0 <= b < rest@.len() ==> (#[trigger] rest@[b]) == rest0[
                        if b < best as int {
                            b
                        } else {
                            b + 1
                        }
                    ]);
            }
        }
        out
    }
}

} // verus!
