//! Per-commit diffs: one delta per touched file, each with its hunks
//! and classified lines.
//!
//! A line present only on the old side counts as a deletion, one present
//! only on the new side as an addition; lines on both sides are context
//! and uncounted.  Only five delta statuses are rendered as table rows;
//! the overall diffstat is computed over the complete, unfiltered delta
//! list, so statuses that never appear as rows still contribute to it.

use vstd::prelude::*;
use crate::oid::ObjId;

verus! {

/// The status of one file's change between a commit and its parent.
#[derive(Clone, Copy, Debug, PartialEq, Eq, Structural)]
pub enum DeltaStatus {
    Added,
    Copied,
    Deleted,
    Modified,
    Renamed,
    Unmodified,
    Ignored,
    Untracked,
    Typechange,
    Unreadable,
    Conflicted,
}

/// Whether a delta of this status appears in the rendered table.
pub open spec fn is_rendered_status(s: DeltaStatus) -> bool {
    s == DeltaStatus::Added || s == DeltaStatus::Copied || s == DeltaStatus::Deleted || s
        == DeltaStatus::Modified || s == DeltaStatus::Renamed
}

/// Where a diff line comes from.
#[derive(Clone, Copy, Debug, PartialEq, Eq, Structural)]
pub enum LineOrigin {
    Context,
    Addition,
    Deletion,
}

/// One line of a hunk: its origin, its line number on each side where
/// it has one, and its raw content.
pub struct DiffLine {
    pub origin: LineOrigin,
    pub old_lineno: Option<u32>,
    pub new_lineno: Option<u32>,
    pub content: String,
}

/// A line's origin agrees with the sides it has a line number on.
pub open spec fn line_wf(l: DiffLine) -> bool {
    &&& (l.origin == LineOrigin::Addition <==> l.old_lineno is None)
    &&& (l.origin == LineOrigin::Deletion ==> l.old_lineno is Some && l.new_lineno is None)
    &&& (l.origin == LineOrigin::Context ==> l.old_lineno is Some && l.new_lineno is Some)
    &&& (l.origin == LineOrigin::Addition ==> l.new_lineno is Some)
}

/// A contiguous block of changed and context lines.
pub struct Hunk {
    pub header: String,
    pub lines: Vec<DiffLine>,
}

/// One file's change record within a commit's diff.
pub struct DeltaInfo {
    pub status: DeltaStatus,
    pub old_path: String,
    pub new_path: String,
    pub new_id: ObjId,
    pub is_binary: bool,
    pub nfiles: u64,
    pub hunks: Vec<Hunk>,
}

/// A line counted as an addition: present only on the new side.
pub open spec fn is_add_line(l: DiffLine) -> bool {
    l.old_lineno is None
}

/// A line counted as a deletion: present only on the old side.
pub open spec fn is_del_line(l: DiffLine) -> bool {
    l.old_lineno is Some && l.new_lineno is None
}

/// A context line: present on both sides.
pub open spec fn is_context_line(l: DiffLine) -> bool {
    l.old_lineno is Some && l.new_lineno is Some
}

/// How many lines of `s` count as additions.
pub open spec fn count_adds(s: Seq<DiffLine>) -> nat
    decreases s.len(),
{
    if s.len() == 0 {
        0
    } else {
        count_adds(s.drop_last()) + if is_add_line(s.last()) {
            1nat
        } else {
            0nat
        }
    }
}

/// How many lines of `s` count as deletions.
pub open spec fn count_dels(s: Seq<DiffLine>) -> nat
    decreases s.len(),
{
    if s.len() == 0 {
        0
    } else {
        count_dels(s.drop_last()) + if is_del_line(s.last()) {
            1nat
        } else {
            0nat
        }
    }
}

/// How many lines of `s` are context lines.
pub open spec fn count_ctx(s: Seq<DiffLine>) -> nat
    decreases s.len(),
{
    if s.len() == 0 {
        0
    } else {
        count_ctx(s.drop_last()) + if is_context_line(s.last()) {
            1nat
        } else {
            0nat
        }
    }
}

pub proof fn lemma_counts_le(s: Seq<DiffLine>)
    ensures
        count_adds(s) <= s.len(),
        count_dels(s) <= s.len(),
        count_ctx(s) <= s.len(),
    decreases s.len(),
{
    if s.len() > 0 {
        lemma_counts_le(s.drop_last());
    }
}

/// The additions in one hunk.
pub open spec fn hunk_adds_spec(h: Hunk) -> nat {
    count_adds(h.lines@)
}

/// The deletions in one hunk.
pub open spec fn hunk_dels_spec(h: Hunk) -> nat {
    count_dels(h.lines@)
}

/// The additions in a delta, over all its hunks.
pub open spec fn delta_adds_spec(hunks: Seq<Hunk>) -> nat
    decreases hunks.len(),
{
    if hunks.len() == 0 {
        0
    } else {
        delta_adds_spec(hunks.drop_last()) + hunk_adds_spec(hunks.last())
    }
}

/// The deletions in a delta, over all its hunks.
pub open spec fn delta_dels_spec(hunks: Seq<Hunk>) -> nat
    decreases hunks.len(),
{
    if hunks.len() == 0 {
        0
    } else {
        delta_dels_spec(hunks.drop_last()) + hunk_dels_spec(hunks.last())
    }
}

/// Counts the lines of `lines` satisfying additions and deletions, as
/// the visible change counts of a delta do.
fn count_lines(lines: &Vec<DiffLine>) -> (r: (usize, usize))
    ensures
        r.0 == count_adds(lines@),
        r.1 == count_dels(lines@),
{
    let mut adds: usize = 0;
    let mut dels: usize = 0;
    let n = lines.len();
    let mut i: usize = 0;
    while i < n
        invariant
            i <= n == lines@.len(),
            adds == count_adds(lines@.subrange(0, i as int)),
            dels == count_dels(lines@.subrange(0, i as int)),
        decreases n - i,
    {
        proof {
            lemma_counts_le(lines@.subrange(0, i as int));
            assert(lines@.subrange(0, i as int + 1).drop_last() =~= lines@.subrange(
                0,
                i as int,
            ));
        }
        let l = &lines[i];
        if l.old_lineno.is_none() {
            adds = adds + 1;
        } else if l.new_lineno.is_none() {
            dels = dels + 1;
        }
        proof {
            assert(lines@.subrange(0, i as int + 1).last() == lines@[i as int]);
        }
        i = i + 1;
    }
    proof {
        assert(lines@.subrange(0, n as int) =~= lines@);
    }
    (adds, dels)
}

/// Counts a delta's additions and deletions over all its hunks.
pub fn count_delta_changes(hunks: &Vec<Hunk>) -> (r: (usize, usize))
    requires
        delta_adds_spec(hunks@) <= usize::MAX,
        delta_dels_spec(hunks@) <= usize::MAX,
    ensures
        r.0 == delta_adds_spec(hunks@),
        r.1 == delta_dels_spec(hunks@),
{
    let mut adds: usize = 0;
    let mut dels: usize = 0;
    let n = hunks.len();
    let mut i: usize = 0;
    while i < n
        invariant
            i <= n == hunks@.len(),
            adds == delta_adds_spec(hunks@.subrange(0, i as int)),
            dels == delta_dels_spec(hunks@.subrange(0, i as int)),
            delta_adds_spec(hunks@) <= usize::MAX,
            delta_dels_spec(hunks@) <= usize::MAX,
        decreases n - i,
    {
        let (a, d) = count_lines(&hunks[i].lines);
        proof {
            assert(hunks@.subrange(0, i as int + 1).drop_last() =~= hunks@.subrange(
                0,
                i as int,
            ));
            lemma_delta_counts_prefix_le(hunks@, i as int + 1);
        }
        adds = adds + a;
        dels = dels + d;
        i = i + 1;
    }
    proof {
        assert(hunks@.subrange(0, n as int) =~= hunks@);
    }
    (adds, dels)
}

/// How many deltas of `s` count as changed files: every delta except
/// unmodified ones, whether or not its status is ever shown as a row.
pub open spec fn files_changed_spec(s: Seq<DeltaInfo>) -> nat
    decreases s.len(),
{
    if s.len() == 0 {
        0
    } else {
        files_changed_spec(s.drop_last()) + if s.last().status != DeltaStatus::Unmodified {
            1nat
        } else {
            0nat
        }
    }
}

/// The insertions of a whole diff, over every delta.
pub open spec fn total_adds_spec(s: Seq<DeltaInfo>) -> nat
    decreases s.len(),
{
    if s.len() == 0 {
        0
    } else {
        total_adds_spec(s.drop_last()) + delta_adds_spec(s.last().hunks@)
    }
}

/// The deletions of a whole diff, over every delta.
pub open spec fn total_dels_spec(s: Seq<DeltaInfo>) -> nat
    decreases s.len(),
{
    if s.len() == 0 {
        0
    } else {
        total_dels_spec(s.drop_last()) + delta_dels_spec(s.last().hunks@)
    }
}

/// The overall diffstat of a commit: files changed, insertions and
/// deletions, computed over the complete, unfiltered delta list.
pub fn diff_stats(deltas: &Vec<DeltaInfo>) -> (r: (usize, usize, usize))
    requires
        total_adds_spec(deltas@) <= usize::MAX,
        total_dels_spec(deltas@) <= usize::MAX,
    ensures
        r.0 == files_changed_spec(deltas@),
        r.1 == total_adds_spec(deltas@),
        r.2 == total_dels_spec(deltas@),
{
    let mut files: usize = 0;
    let mut adds: usize = 0;
    let mut dels: usize = 0;
    let n = deltas.len();
    let mut i: usize = 0;
    while i < n
        invariant
            i <= n == deltas@.len(),
            files == files_changed_spec(deltas@.subrange(0, i as int)),
            adds == total_adds_spec(deltas@.subrange(0, i as int)),
            dels == total_dels_spec(deltas@.subrange(0, i as int)),
            files <= i,
            total_adds_spec(deltas@) <= usize::MAX,
            total_dels_spec(deltas@) <= usize::MAX,
        decreases n - i,
    {
        proof {
            assert(deltas@.subrange(0, i as int + 1).drop_last() =~= deltas@.subrange(
                0,
                i as int,
            ));
            assert(deltas@.subrange(0, i as int + 1).last() == deltas@[i as int]);
            lemma_totals_prefix_le(deltas@, i as int + 1);
        }
        let d = &deltas[i];
        if !matches!(d.status, DeltaStatus::Unmodified) {
            files = files + 1;
        }
        let (a, dd) = count_delta_changes(&d.hunks);
        adds = adds + a;
        dels = dels + dd;
        i = i + 1;
    }
    proof {
        assert(deltas@.subrange(0, n as int) =~= deltas@);
    }
    (files, adds, dels)
}

proof fn lemma_totals_prefix_le(s: Seq<DeltaInfo>, i: int)
    requires
        0 <= i <= s.len(),
    ensures
        total_adds_spec(s.subrange(0, i)) <= total_adds_spec(s),
        total_dels_spec(s.subrange(0, i)) <= total_dels_spec(s),
    decreases s.len() - i,
{
    if i == s.len() {
        assert(s.subrange(0, i) =~= s);
    } else {
        lemma_totals_prefix_le(s, i + 1);
        assert(s.subrange(0, i + 1).drop_last() =~= s.subrange(0, i));
    }
}

/// The deltas whose status is shown as a table row, each with its
/// position in the whole diff, over the first `k` deltas.
pub open spec fn filtered_upto(s: Seq<DeltaInfo>, k: int) -> Seq<(usize, DeltaInfo)>
    decreases k,
{
    if k <= 0 {
        Seq::empty()
    } else {
        filtered_upto(s, k - 1) + if is_rendered_status(s[k - 1].status) {
            seq![((k - 1) as usize, s[k - 1])]
        } else {
            Seq::empty()
        }
    }
}

/// The deltas whose status is shown as a table row, in diff order,
/// each with its position in the whole diff.
pub open spec fn filtered_deltas_spec(s: Seq<DeltaInfo>) -> Seq<(usize, DeltaInfo)> {
    filtered_upto(s, s.len() as int)
}

/// Every kept delta is one of the given deltas, at its recorded
/// position, and its status is rendered.
pub proof fn lemma_filtered_elements(s: Seq<DeltaInfo>, k: int, j: int)
    requires
        0 <= k <= s.len() <= usize::MAX,
        0 <= j < filtered_upto(s, k).len(),
    ensures
        ({
            let e = filtered_upto(s, k)[j];
            &&& 0 <= e.0 < k
            &&& e.1 == s[e.0 as int]
            &&& is_rendered_status(e.1.status)
        }),
    decreases k,
{
    if j < filtered_upto(s, k - 1).len() {
        lemma_filtered_elements(s, k - 1, j);
    } else {
        if is_rendered_status(s[k - 1].status) {
            assert(filtered_upto(s, k)[j] == ((k - 1) as usize, s[k - 1]));
        } else {
            assert(filtered_upto(s, k) =~= filtered_upto(s, k - 1));
            assert(false);
        }
    }
}

/// Keeps the deltas whose status the table renders, in order, with
/// their positions in the whole diff.
pub fn filter_deltas(deltas: Vec<DeltaInfo>) -> (out: Vec<(usize, DeltaInfo)>)
    ensures
        out@ == filtered_deltas_spec(deltas@),
{
    let ghost orig = deltas@;
    let mut rest = deltas;
    // Reading the length pins the sequence to a machine size.
    let _total = rest.len();
    let mut out: Vec<(usize, DeltaInfo)> = Vec::new();
    let mut k: usize = 0;
    while rest.len() > 0
        invariant
            orig.len() <= usize::MAX,
            k + rest@.len() == orig.len(),
            rest@ =~= orig.subrange(k as int, orig.len() as int),
            out@ == filtered_upto(orig, k as int),
        decreases rest@.len(),
    {
        let d = rest.remove(0);
        let keep = matches!(
            d.status,
            DeltaStatus::Added
                | DeltaStatus::Copied
                | DeltaStatus::Deleted
                | DeltaStatus::Modified
                | DeltaStatus::Renamed
        );
        proof {
            assert(d == orig[k as int]);
        }
        if keep {
            out.push((k, d));
        }
        k = k + 1;
        proof {
            assert(rest@ =~= orig.subrange(k as int, orig.len() as int));
            assert(out@ =~= filtered_upto(orig, k as int));
        }
    }
    out
}

/// Every line of every hunk of every delta is well formed.
pub open spec fn deltas_wf(s: Seq<DeltaInfo>) -> bool {
    forall|i: int, j: int, k: int|
        0 <= i < s.len() && 0 <= j < s[i].hunks@.len() && 0 <= k
            < s[i].hunks@[j].lines@.len() ==> line_wf(#[trigger] s[i].hunks@[j].lines@[k])
}

/// One delta's counts are bounded by the whole diff's totals.
pub proof fn lemma_delta_le_total(s: Seq<DeltaInfo>, i: int)
    requires
        0 <= i < s.len(),
    ensures
        delta_adds_spec(s[i].hunks@) <= total_adds_spec(s),
        delta_dels_spec(s[i].hunks@) <= total_dels_spec(s),
{
    lemma_totals_prefix_le(s, i + 1);
    assert(s.subrange(0, i + 1).drop_last() =~= s.subrange(0, i));
    assert(s.subrange(0, i + 1).last() == s[i]);
    lemma_totals_nonneg(s.subrange(0, i));
}

proof fn lemma_totals_nonneg(s: Seq<DeltaInfo>)
    ensures
        total_adds_spec(s) >= 0,
        total_dels_spec(s) >= 0,
{
}

/// How many lines of `s` have origin `o`.
pub open spec fn count_origin(s: Seq<DiffLine>, o: LineOrigin) -> nat
    decreases s.len(),
{
    if s.len() == 0 {
        0
    } else {
        count_origin(s.drop_last(), o) + if s.last().origin == o {
            1nat
        } else {
            0nat
        }
    }
}

/// Diff classification: in a hunk of well-formed lines, the lines with
/// `N` old-only, `M` new-only and `K` two-sided line numbers are exactly
/// the `N` deletion-origin, `M` addition-origin and `K` context-origin
/// lines, so the rendering, which marks lines by origin, shows exactly
/// `N` deletion-tagged, `M` addition-tagged and `K` unmarked entries.
pub proof fn lemma_hunk_classification(s: Seq<DiffLine>)
    requires
        forall|i: int| 0 <= i < s.len() ==> line_wf(#[trigger] s[i]),
    ensures
        count_origin(s, LineOrigin::Addition) == count_adds(s),
        count_origin(s, LineOrigin::Deletion) == count_dels(s),
        count_origin(s, LineOrigin::Context) == count_ctx(s),
    decreases s.len(),
{
    if s.len() > 0 {
        assert(forall|i: int|
            0 <= i < s.drop_last().len() ==> line_wf(#[trigger] s.drop_last()[i]));
        lemma_hunk_classification(s.drop_last());
        assert(line_wf(s[s.len() - 1]));
    }
}

/// A prefix of the hunks contributes at most the whole count.
proof fn lemma_delta_counts_prefix_le(hunks: Seq<Hunk>, i: int)
    requires
        0 <= i <= hunks.len(),
    ensures
        delta_adds_spec(hunks.subrange(0, i)) <= delta_adds_spec(hunks),
        delta_dels_spec(hunks.subrange(0, i)) <= delta_dels_spec(hunks),
    decreases hunks.len() - i,
{
    if i == hunks.len() {
        assert(hunks.subrange(0, i) =~= hunks);
    } else {
        lemma_delta_counts_prefix_le(hunks, i + 1);
        assert(hunks.subrange(0, i + 1).drop_last() =~= hunks.subrange(0, i));
        assert(delta_adds_spec(hunks.subrange(0, i)) <= delta_adds_spec(
            hunks.subrange(0, i + 1),
        ));
        assert(delta_dels_spec(hunks.subrange(0, i)) <= delta_dels_spec(
            hunks.subrange(0, i + 1),
        ));
    }
}

} // verus!
