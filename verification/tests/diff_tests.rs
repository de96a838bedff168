use yagit::diff::{
    count_delta_changes, diff_stats, filter_deltas, DeltaInfo, DeltaStatus, DiffLine, Hunk,
    LineOrigin,
};
use yagit::oid::ObjId;

fn id() -> ObjId {
    ObjId { hi: 0, mid: 0, lo: 0 }
}

fn context(old: u32, new: u32) -> DiffLine {
    DiffLine {
        origin: LineOrigin::Context,
        old_lineno: Some(old),
        new_lineno: Some(new),
        content: "ctx\n".to_string(),
    }
}

fn addition(new: u32) -> DiffLine {
    DiffLine {
        origin: LineOrigin::Addition,
        old_lineno: None,
        new_lineno: Some(new),
        content: "added\n".to_string(),
    }
}

fn deletion(old: u32) -> DiffLine {
    DiffLine {
        origin: LineOrigin::Deletion,
        old_lineno: Some(old),
        new_lineno: None,
        content: "gone\n".to_string(),
    }
}

fn delta(status: DeltaStatus, lines: Vec<DiffLine>) -> DeltaInfo {
    DeltaInfo {
        status,
        old_path: "f".to_string(),
        new_path: "f".to_string(),
        new_id: id(),
        is_binary: false,
        nfiles: 1,
        hunks: vec![Hunk { header: "@@ -1 +1 @@\n".to_string(), lines }],
    }
}

#[test]
fn classification_counts_old_only_and_new_only() {
    // N = 2 deletions, M = 3 additions, K = 2 context lines.
    let lines = vec![
        context(1, 1),
        deletion(2),
        addition(2),
        addition(3),
        deletion(3),
        addition(4),
        context(4, 5),
    ];
    let d = delta(DeltaStatus::Modified, lines);
    let (adds, dels) = count_delta_changes(&d.hunks);
    assert_eq!(adds, 3);
    assert_eq!(dels, 2);
}

#[test]
fn stats_cover_the_unfiltered_diff() {
    let deltas = vec![
        delta(DeltaStatus::Added, vec![addition(1)]),
        delta(DeltaStatus::Typechange, vec![addition(1), deletion(1)]),
        delta(DeltaStatus::Deleted, vec![deletion(1)]),
    ];
    let (files, adds, dels) = diff_stats(&deltas);
    // The type-change delta never appears as a row but still counts here.
    assert_eq!(files, 3);
    assert_eq!(adds, 2);
    assert_eq!(dels, 2);
}

#[test]
fn filter_keeps_rendered_statuses_with_their_positions() {
    let deltas = vec![
        delta(DeltaStatus::Added, vec![]),
        delta(DeltaStatus::Untracked, vec![]),
        delta(DeltaStatus::Renamed, vec![]),
        delta(DeltaStatus::Unmodified, vec![]),
        delta(DeltaStatus::Copied, vec![]),
    ];
    let kept = filter_deltas(deltas);
    let picks: Vec<(usize, DeltaStatus)> = kept.iter().map(|(i, d)| (*i, d.status)).collect();
    assert_eq!(
        picks,
        vec![
            (0, DeltaStatus::Added),
            (2, DeltaStatus::Renamed),
            (4, DeltaStatus::Copied),
        ]
    );
}
