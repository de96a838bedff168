use yagit::diff::{DeltaInfo, DeltaStatus, DiffLine, Hunk, LineOrigin};
use yagit::freshness::FreshnessCache;
use yagit::oid::ObjId;
use yagit::pages::{
    render_index, select_license, select_readme, should_skip_blob, should_skip_commit,
    CommitInfo, HeadEntry, Readme, ReadmeFormat, RepoRenderer,
};
use yagit::markdown::{MdEvent, MdTag, MdTagEnd};
use yagit::repo::RepoInfo;
use yagit::time::Time;

fn renderer() -> RepoRenderer {
    RepoRenderer::new(
        "repo".to_string(),
        Some("a demo".to_string()),
        "main".to_string(),
        None,
        None,
        false,
        String::new(),
        "tree".to_string(),
        "blob".to_string(),
        "commit".to_string(),
    )
}

fn commit() -> CommitInfo {
    CommitInfo {
        id: ObjId { hi: 0x1234567800000000, mid: 0, lo: 0 },
        parent: None,
        author_name: "ada".to_string(),
        author_email: Some("ada@example.com".to_string()),
        author_time: Time { seconds: 0, offset_minutes: 0 },
        commit_time: 0,
        summary: "add a.txt".to_string(),
        message: "add a.txt\n\nfirst file".to_string(),
    }
}

fn added_delta() -> DeltaInfo {
    DeltaInfo {
        status: DeltaStatus::Added,
        old_path: "a.txt".to_string(),
        new_path: "a.txt".to_string(),
        new_id: ObjId { hi: 7, mid: 8, lo: 9 },
        is_binary: false,
        nfiles: 1,
        hunks: vec![Hunk {
            header: "@@ -0,0 +1 @@\n".to_string(),
            lines: vec![DiffLine {
                origin: LineOrigin::Addition,
                old_lineno: None,
                new_lineno: Some(1),
                content: "hi\n".to_string(),
            }],
        }],
    }
}

#[test]
fn commit_page_shows_the_diffstat_and_the_added_row() {
    let page = renderer().render_commit(&commit(), vec![added_delta()]);
    assert!(page.contains("1 files changed, 1 insertions, 0 deletions"));
    assert!(page.contains("<td style=\"width: 4em;\">Added</td>"));
    assert!(page.contains("<a href=\"#d0\">a.txt</a>"));
    assert!(page.contains("diff --git /dev/null b/<a href=\"/repo/tree/a.txt.html\">a.txt</a>"));
    assert!(page.contains("class=\"i\">+hi\n</a>"));
}

#[test]
fn modified_hunk_renders_exactly_the_classified_lines() {
    // 2 old-only lines, 3 new-only lines, 2 shared lines.
    let line = |origin, old, new| DiffLine {
        origin,
        old_lineno: old,
        new_lineno: new,
        content: "x\n".to_string(),
    };
    let delta = DeltaInfo {
        status: DeltaStatus::Modified,
        old_path: "f".to_string(),
        new_path: "f".to_string(),
        new_id: ObjId { hi: 1, mid: 1, lo: 1 },
        is_binary: false,
        nfiles: 1,
        hunks: vec![Hunk {
            header: "@@ -1,4 +1,5 @@\n".to_string(),
            lines: vec![
                line(LineOrigin::Context, Some(1), Some(1)),
                line(LineOrigin::Deletion, Some(2), None),
                line(LineOrigin::Addition, None, Some(2)),
                line(LineOrigin::Addition, None, Some(3)),
                line(LineOrigin::Deletion, Some(3), None),
                line(LineOrigin::Addition, None, Some(4)),
                line(LineOrigin::Context, Some(4), Some(5)),
            ],
        }],
    };
    let page = renderer().render_commit(&commit(), vec![delta]);
    assert_eq!(page.matches("class=\"i\">+").count(), 3);
    assert_eq!(page.matches("class=\"d\">-").count(), 2);
    assert!(page.contains("1 files changed, 3 insertions, 2 deletions"));
}

#[test]
fn binary_delta_block_says_binary_files_differ() {
    let mut d = added_delta();
    d.is_binary = true;
    let page = renderer().render_commit(&commit(), vec![d]);
    assert!(page.contains("Binary files differ"));
    assert!(!page.contains("class=\"i\">+hi"));
}

#[test]
fn rendering_is_deterministic() {
    let a = renderer().render_commit(&commit(), vec![added_delta()]);
    let b = renderer().render_commit(&commit(), vec![added_delta()]);
    assert_eq!(a, b);
    let l1 = renderer().render_log(&vec![commit()]);
    let l2 = renderer().render_log(&vec![commit()]);
    assert_eq!(l1, l2);
    let s1 = renderer().render_summary();
    let s2 = renderer().render_summary();
    assert_eq!(s1, s2);
}

#[test]
fn log_page_has_one_entry_per_commit() {
    let page = renderer().render_log(&vec![commit()]);
    assert_eq!(page.matches("<article>").count(), 1);
    assert!(page.contains("12345678</a> &mdash; ada"));
    assert!(page.contains("add a.txt"));
}

#[test]
fn summary_page_links_the_clone_address_and_branch() {
    let page = renderer().render_summary();
    assert!(page.contains("<li>refs: main</li>"));
    assert!(page.contains("git clone: <a href=\"git://git.pablopie.xyz/repo\">"));
    assert!(page.contains("<h1>repo</h1>"));
    assert!(page.contains("/repo/commit/index.html\">log</a>"));
    assert!(page.contains("a demo"));
}

#[test]
fn summary_page_embeds_a_plain_text_readme() {
    let mut r = renderer();
    r.readme = Some(Readme {
        content: "read <me>".to_string(),
        path: "README".to_string(),
        format: ReadmeFormat::Txt,
        events: vec![],
    });
    let page = r.render_summary();
    assert!(page.contains("<section id=\"readme\">"));
    assert!(page.contains("<pre>read &lt;me&gt;</pre>"));
}

#[test]
fn summary_page_renders_a_markdown_readme() {
    let mut r = renderer();
    r.readme = Some(Readme {
        content: "# hi".to_string(),
        path: "README.md".to_string(),
        format: ReadmeFormat::Md,
        events: vec![
            MdEvent::Start(MdTag::Heading(1)),
            MdEvent::Text("hi\n".to_string()),
            MdEvent::End(MdTagEnd::Heading(1)),
        ],
    });
    let page = r.render_summary();
    assert!(page.contains("<section id=\"readme\">\n<h1>hi\n</h1>\n</section>"));
}

#[test]
fn license_page_escapes_the_text() {
    let page = renderer().render_license("MIT <no warranty>");
    assert!(page.contains("<section id=\"license\">"));
    assert!(page.contains("<pre>MIT &lt;no warranty&gt;</pre>"));
}

#[test]
fn license_nav_item_only_with_a_license() {
    let without = renderer().render_summary();
    assert!(!without.contains("license.html"));
    let mut r = renderer();
    r.license = Some("MIT".to_string());
    let with = r.render_summary();
    assert!(with.contains("/repo/license.html\">license</a>"));
}

#[test]
fn commit_page_already_present_is_skipped_without_force() {
    assert!(should_skip_commit(false, true));
    assert!(!should_skip_commit(true, true));
    assert!(!should_skip_commit(false, false));
}

#[test]
fn blob_skip_policy_follows_the_freshness_cache() {
    assert!(should_skip_blob(false, Some(100), Some(50)));
    assert!(should_skip_blob(false, Some(100), Some(100)));
    assert!(!should_skip_blob(false, Some(49), Some(50)));
    assert!(!should_skip_blob(false, None, Some(50)));
    assert!(!should_skip_blob(false, Some(100), None));
    assert!(!should_skip_blob(true, Some(100), Some(50)));
}

#[test]
fn freshness_feeds_the_blob_skip_decision() {
    let id = ObjId { hi: 7, mid: 8, lo: 9 };
    let mut cache = FreshnessCache::new();
    yagit::freshness::update_freshness(&mut cache, &vec![added_delta()], 500);
    assert_eq!(cache.get(id), Some(500));
    assert!(should_skip_blob(false, Some(600), cache.get(id)));
    assert!(!should_skip_blob(false, Some(400), cache.get(id)));
}

#[test]
fn catalog_lists_repositories_in_the_given_order() {
    let new = RepoInfo::from_parts(
        "younger".to_string(),
        "me".to_string(),
        None,
        &vec![Time { seconds: 900, offset_minutes: 0 }],
    )
    .unwrap();
    let old = RepoInfo::from_parts(
        "older".to_string(),
        "me".to_string(),
        Some("desc".to_string()),
        &vec![Time { seconds: 100, offset_minutes: 0 }],
    )
    .unwrap();
    let sorted = RepoInfo::index(vec![old, new]);
    let page = render_index(&sorted, "");
    let younger_at = page.find("younger/index.html").unwrap();
    let older_at = page.find("older/index.html").unwrap();
    assert!(younger_at < older_at);
    assert!(page.contains("<span>me</span>"));
}

#[test]
fn readme_selection_takes_the_first_usable_match() {
    let entries = vec![
        HeadEntry { name: "README.md".to_string(), is_binary: true },
        HeadEntry { name: "LICENSE".to_string(), is_binary: false },
        HeadEntry { name: "README".to_string(), is_binary: false },
        HeadEntry { name: "README.txt".to_string(), is_binary: false },
    ];
    assert_eq!(select_readme(&entries), Some(2));
    assert_eq!(select_license(&entries), Some(1));
    let none: Vec<HeadEntry> = vec![HeadEntry { name: "x".to_string(), is_binary: false }];
    assert_eq!(select_readme(&none), None);
    assert_eq!(select_license(&none), None);
}
