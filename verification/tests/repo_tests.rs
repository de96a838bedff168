use yagit::freshness::FreshnessCache;
use yagit::oid::ObjId;
use yagit::repo::{commit_time_bounds, RepoError, RepoInfo};
use yagit::time::Time;

fn t(secs: i64) -> Time {
    Time { seconds: secs, offset_minutes: 0 }
}

#[test]
fn commit_bounds_min_and_max() {
    let times = vec![t(50), t(10), t(99), t(40)];
    let (first, last) = commit_time_bounds(&times);
    assert_eq!(first, 10);
    assert_eq!(last.seconds, 99);
}

#[test]
fn from_parts_rejects_empty_history() {
    let r = RepoInfo::from_parts("r".to_string(), "me".to_string(), None, &vec![]);
    assert!(matches!(r, Err(RepoError::NoCommits)));
}

#[test]
fn from_parts_keeps_fields() {
    let times = vec![t(5), t(9)];
    let info = RepoInfo::from_parts(
        "r".to_string(),
        "me".to_string(),
        Some("d".to_string()),
        &times,
    )
    .unwrap();
    assert_eq!(info.name, "r");
    assert_eq!(info.owner, "me");
    assert_eq!(info.description.as_deref(), Some("d"));
    assert_eq!(info.first_commit, 5);
    assert_eq!(info.last_commit.seconds, 9);
}

fn repo(name: &str, first: i64) -> RepoInfo {
    RepoInfo::from_parts(name.to_string(), "me".to_string(), None, &vec![t(first)]).unwrap()
}

#[test]
fn catalog_orders_by_descending_first_commit() {
    let repos = vec![repo("old", 100), repo("newest", 900), repo("mid", 500)];
    let sorted = RepoInfo::index(repos);
    let names: Vec<&str> = sorted.iter().map(|r| r.name.as_str()).collect();
    assert_eq!(names, vec!["newest", "mid", "old"]);
}

#[test]
fn freshness_max_update_in_either_order() {
    let id = ObjId { hi: 1, mid: 2, lo: 3 };
    let mut a = FreshnessCache::new();
    a.merge(id, 100);
    a.merge(id, 200);
    assert_eq!(a.get(id), Some(200));

    let mut b = FreshnessCache::new();
    b.merge(id, 200);
    b.merge(id, 100);
    assert_eq!(b.get(id), Some(200));

    let other = ObjId { hi: 9, mid: 9, lo: 9 };
    assert_eq!(b.get(other), None);
}

#[test]
fn oid_hex_forms() {
    let id = ObjId { hi: 0x0123456789abcdef, mid: 0xfedcba9876543210, lo: 0xdeadbeef };
    assert_eq!(id.to_hex(), "0123456789abcdeffedcba9876543210deadbeef");
    assert_eq!(id.short_hex(), "01234567");
}
