use yagit::oid::ObjId;
use yagit::pages::RepoRenderer;
use yagit::tree::{join_path, split_lines, EntryKind, TreeEntry, TreeNode};

fn renderer() -> RepoRenderer {
    RepoRenderer::new(
        "repo".to_string(),
        None,
        "main".to_string(),
        None,
        None,
        false,
        String::new(),
        "tree".to_string(),
        "blob".to_string(),
        "commit".to_string(),
    )
}

fn blob_entry(name: &str, lo: u32) -> TreeEntry {
    TreeEntry {
        name: name.to_string(),
        kind: EntryKind::Blob { id: ObjId { hi: 0, mid: 0, lo }, mode: 0o100644 },
    }
}

#[test]
fn paths_join_with_slashes() {
    assert_eq!(join_path("", "a.txt"), "a.txt");
    assert_eq!(join_path("dir", "a.txt"), "dir/a.txt");
    assert_eq!(join_path("a/b", "c"), "a/b/c");
}

#[test]
fn walker_renders_one_page_per_directory_and_schedules_blobs() {
    let arena = vec![
        TreeNode {
            entries: vec![
                blob_entry("a.txt", 1),
                TreeEntry {
                    name: "src".to_string(),
                    kind: EntryKind::Subtree { node: 1 },
                },
            ],
        },
        TreeNode { entries: vec![blob_entry("lib.rs", 2)] },
    ];
    let (pages, blobs) = renderer().render_tree(&arena);
    assert_eq!(pages.len(), 2);
    assert_eq!(pages[0].0, "");
    assert_eq!(pages[1].0, "src");
    assert!(pages[0].1.contains("<tr><td><a href=\"/repo/tree/a.txt.html\">a.txt</a></td></tr>"));
    assert!(pages[0].1.contains("/repo/tree/src/index.html\" class=\"subtree\">src/</a>"));
    // The root page has no parent link; the subdirectory page has one.
    assert!(!pages[0].1.contains("<a href=\"..\""));
    assert!(pages[1].1.contains("<a href=\"..\" class=\"subtree\">..</a>"));

    let paths: Vec<&str> = blobs.iter().map(|b| b.path.as_str()).collect();
    assert_eq!(paths, vec!["a.txt", "src/lib.rs"]);
}

#[test]
fn blob_named_index_is_listed_but_never_scheduled() {
    let arena = vec![TreeNode {
        entries: vec![blob_entry("index", 1), blob_entry("other", 2)],
    }];
    let (pages, blobs) = renderer().render_tree(&arena);
    assert!(pages[0].1.contains(">index</a>"));
    let paths: Vec<&str> = blobs.iter().map(|b| b.path.as_str()).collect();
    assert_eq!(paths, vec!["other"]);
}

#[test]
fn submodules_link_only_when_their_address_is_known() {
    let arena = vec![TreeNode {
        entries: vec![
            TreeEntry {
                name: "dep".to_string(),
                kind: EntryKind::Submodule { url: Some("https://example.com/dep".to_string()) },
            },
            TreeEntry {
                name: "bare".to_string(),
                kind: EntryKind::Submodule { url: None },
            },
        ],
    }];
    let (pages, blobs) = renderer().render_tree(&arena);
    assert!(blobs.is_empty());
    assert!(pages[0].1.contains("<a href=\"https://example.com/dep\" class=\"subtree\">dep@</a>"));
    assert!(pages[0].1.contains("<span class=\"subtree\">bare@</span>"));
}

#[test]
fn blob_page_has_a_line_view_for_text() {
    let page = renderer().render_blob(&"a.txt".to_string(), "hi\n", 3, 0o100644, false);
    assert!(page.contains("<td><a href=\"/repo/blob/a.txt\">a.txt</a></td>"));
    assert!(page.contains("3 bytes"));
    assert!(page.contains("-rw-r--r--"));
    assert!(page.contains("<pre id=\"line-numbers\">"));
    assert!(page.contains("<a href=\"#l1\">1</a>"));
    assert!(page.contains("<span id=\"l1\">hi</span>"));
}

#[test]
fn binary_blob_page_has_no_line_view() {
    let page = renderer().render_blob(&"img.png".to_string(), "", 1024, 0o100644, true);
    assert!(!page.contains("line-numbers"));
    assert!(!page.contains("<span id=\"l1\">"));
    assert!(page.contains("1K"));
}

#[test]
fn empty_blob_page_has_no_line_view() {
    let page = renderer().render_blob(&"empty".to_string(), "", 0, 0o100644, false);
    assert!(!page.contains("line-numbers"));
}

#[test]
fn line_splitting_matches_the_standard_rules() {
    let lines = split_lines("a\nb\r\nc");
    assert_eq!(lines, vec!["a", "b", "c"]);
    let lines = split_lines("a\n");
    assert_eq!(lines, vec!["a"]);
    let lines = split_lines("");
    assert!(lines.is_empty());
    let lines = split_lines("\n\n");
    assert_eq!(lines, vec!["", ""]);
}

#[test]
fn escaped_blob_lines() {
    let page = renderer().render_blob(&"x".to_string(), "a < b\n", 6, 0o100644, false);
    assert!(page.contains("<span id=\"l1\">a &lt; b</span>"));
}
