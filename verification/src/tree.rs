//! The file tree: directory index pages, the blob schedule, and file
//! view pages.
//!
//! The head tree is held as an arena of nodes keyed by index, so a
//! node can be queued and processed independently of the call frame
//! that discovered it.  The walker renders one index page per
//! directory and schedules one job per blob; file views themselves are
//! rendered one job at a time, after the freshness cache has decided
//! which may be skipped.

use vstd::prelude::*;
use crate::escape::{escape, escape_spec};
use crate::oid::ObjId;
use crate::pages::{page_end_spec, render_page_end, PageTitle, RepoRenderer};
use crate::textfmt::{
    dec_spec,
    file_size_spec,
    log_floor,
    mode_spec,
    num_digits,
    u64_to_dec_padded,
    usize_to_dec,
    zero_pad_spec,
    FileSize,
    Mode,
};

verus! {

/// What a tree entry points at.
pub enum EntryKind {
    /// A file, with its content identity and POSIX mode.
    Blob { id: ObjId, mode: i32 },
    /// A subdirectory, by its arena index.
    Subtree { node: usize },
    /// A submodule commit, with its configured address when the
    /// repository's working-tree index could resolve one.
    Submodule { url: Option<String> },
}

/// One entry of a directory, in storage order.
pub struct TreeEntry {
    pub name: String,
    pub kind: EntryKind,
}

/// One directory of the head tree.
pub struct TreeNode {
    pub entries: Vec<TreeEntry>,
}

/// A scheduled file view: the blob's identity, mode and path.
pub struct BlobJob {
    pub id: ObjId,
    pub mode: i32,
    pub path: String,
}

/// A child's path under its parent: slash-joined, except at the root.
pub open spec fn join_path_spec(parent: Seq<char>, name: Seq<char>) -> Seq<char> {
    if parent.len() == 0 {
        name
    } else {
        parent + "/"@ + name
    }
}

/// Joins a directory path and an entry name.
pub fn join_path(parent: &str, name: &str) -> (out: String)
    ensures
        out@ == join_path_spec(parent@, name@),
{
    if parent.unicode_len() == 0 {
        name.to_owned()
    } else {
        let mut out = parent.to_owned();
        out.append("/");
        out.append(name);
        proof {
            assert(out@ =~= join_path_spec(parent@, name@));
        }
        out
    }
}

impl RepoRenderer {
    /// One row of a directory listing: a file links to its view page,
    /// a subdirectory to its index page, and a submodule to its
    /// configured address when one is known, else it is plain text.
    pub open spec fn tree_row_spec(&self, parent: Seq<char>, e: TreeEntry) -> Seq<char> {
        let path = join_path_spec(parent, e.name@);
        match e.kind {
            EntryKind::Blob { .. } => "<tr><td><a href=\""@ + self.repo_root_spec()
                + "/"@ + self.tree_subdir@ + "/"@ + escape_spec(path) + ".html\">"@
                + escape_spec(path) + "</a></td></tr>\n"@,
            EntryKind::Subtree { .. } => "<tr><td><a href=\""@ + self.repo_root_spec()
                + "/"@ + self.tree_subdir@ + "/"@ + escape_spec(path)
                + "/index.html\" class=\"subtree\">"@ + escape_spec(path)
                + "/</a></td></tr>\n"@,
            EntryKind::Submodule { url: Some(url) } => "<tr><td><a href=\""@
                + escape_spec(url@) + "\" class=\"subtree\">"@ + escape_spec(path)
                + "@</a></td></tr>\n"@,
            EntryKind::Submodule { url: None } => "<tr><td><span class=\"subtree\">"@
                + escape_spec(path) + "@</span></td></tr>\n"@,
        }
    }

    /// The rows of a directory listing from entry `i` on.
    pub open spec fn tree_rows_from(
        &self,
        parent: Seq<char>,
        entries: Seq<TreeEntry>,
        i: int,
    ) -> Seq<char>
        decreases entries.len() - i,
    {
        if i < 0 || i >= entries.len() {
            Seq::<char>::empty()
        } else {
            self.tree_row_spec(parent, entries[i]) + self.tree_rows_from(
                parent,
                entries,
                i + 1,
            )
        }
    }

    /// A directory index page: one row per entry in storage order,
    /// with a parent link everywhere but at the root.
    pub open spec fn tree_index_page_spec(
        &self,
        parent: String,
        root: bool,
        entries: Seq<TreeEntry>,
    ) -> Seq<char> {
        self.repo_header_spec(
            PageTitle::TreeEntry { repo_name: self.name, path: parent },
        )
            + "<div class=\"table-container\">\n<table>\n<thead><tr><td>Name</td><tr></thead>\n<tbody>\n"@
            + (if !root {
            "<tr><td><a href=\"..\" class=\"subtree\">..</a></td></tr>\n"@
        } else {
            Seq::<char>::empty()
        }) + self.tree_rows_from(parent@, entries, 0) + "</tbody>\n</table>\n</div>\n"@
            + page_end_spec()
    }

    /// Writes one row of a directory listing.
    #[verifier::rlimit(100)]
    #[verifier::spinoff_prover]
    fn append_tree_row(&self, out: &mut String, parent: &str, e: &TreeEntry)
        ensures
            final(out)@ == old(out)@ + self.tree_row_spec(parent@, *e),
    {
        let ghost out0 = out@;
        let path = join_path(parent, e.name.as_str());
        match &e.kind {
            EntryKind::Blob { .. } => {
                out.append("<tr><td><a href=\"");
                self.append_repo_root(out);
                out.append("/");
                out.append(self.tree_subdir.as_str());
                out.append("/");
                out.append(escape(path.as_str()).as_str());
                out.append(".html\">");
                out.append(escape(path.as_str()).as_str());
                out.append("</a></td></tr>\n");
            },
            EntryKind::Subtree { .. } => {
                out.append("<tr><td><a href=\"");
                self.append_repo_root(out);
                out.append("/");
                out.append(self.tree_subdir.as_str());
                out.append("/");
                out.append(escape(path.as_str()).as_str());
                out.append("/index.html\" class=\"subtree\">");
                out.append(escape(path.as_str()).as_str());
                out.append("/</a></td></tr>\n");
            },
            EntryKind::Submodule { url: Some(url) } => {
                out.append("<tr><td><a href=\"");
                out.append(escape(url.as_str()).as_str());
                out.append("\" class=\"subtree\">");
                out.append(escape(path.as_str()).as_str());
                out.append("@</a></td></tr>\n");
            },
            EntryKind::Submodule { url: None } => {
                out.append("<tr><td><span class=\"subtree\">");
                out.append(escape(path.as_str()).as_str());
                out.append("@</span></td></tr>\n");
            },
        }
        proof {
            assert(out@ =~= out0 + self.tree_row_spec(parent@, *e));
        }
    }

    /// Renders one directory's index page.
    pub fn render_subtree(
        &self,
        entries: &Vec<TreeEntry>,
        parent: &String,
        root: bool,
    ) -> (out: String)
        ensures
            out@ == self.tree_index_page_spec(*parent, root, entries@),
    {
        let mut out = String::new();
        let title = PageTitle::TreeEntry {
            repo_name: self.name.clone(),
            path: parent.clone(),
        };
        self.render_repo_header(&mut out, &title);
        out.append(
            "<div class=\"table-container\">\n<table>\n<thead><tr><td>Name</td><tr></thead>\n<tbody>\n",
        );
        if !root {
            out.append("<tr><td><a href=\"..\" class=\"subtree\">..</a></td></tr>\n");
        }
        let ghost base = out@;
        let n = entries.len();
        let mut i: usize = 0;
        while i < n
            invariant
                i <= n == entries@.len(),
                base + self.tree_rows_from(parent@, entries@, 0) == out@
                    + self.tree_rows_from(parent@, entries@, i as int),
            decreases n - i,
        {
            let ghost prev = out@;
            self.append_tree_row(&mut out, parent.as_str(), &entries[i]);
            proof {
                assert(prev + self.tree_rows_from(parent@, entries@, i as int) =~= out@
                    + self.tree_rows_from(parent@, entries@, i as int + 1));
            }
            i = i + 1;
        }
        proof {
            assert(out@ + self.tree_rows_from(parent@, entries@, n as int) =~= out@);
        }
        out.append("</tbody>\n</table>\n</div>\n");
        render_page_end(&mut out);
        proof {
            assert(out@ =~= self.tree_index_page_spec(*parent, root, entries@));
        }
        out
    }
}

/// The plain view of a scheduled file view.
pub open spec fn job_view(b: BlobJob) -> (ObjId, i32, Seq<char>) {
    (b.id, b.mode, b.path@)
}

pub open spec fn blobs_view(s: Seq<BlobJob>) -> Seq<(ObjId, i32, Seq<char>)> {
    Seq::new(s.len(), |j: int| job_view(s[j]))
}

/// The walker's path array after one node's entries from position `e`
/// on have been applied: each subdirectory entry pointing forward in
/// the arena gets its slash-joined path.
pub open spec fn apply_entries(
    ps: Seq<Seq<char>>,
    i: int,
    entries: Seq<TreeEntry>,
    e: int,
) -> Seq<Seq<char>>
    decreases entries.len() - e,
{
    if e < 0 || e >= entries.len() {
        ps
    } else {
        let ps2 = match entries[e].kind {
            EntryKind::Subtree { node } => if i < node < ps.len() {
                ps.update(node as int, join_path_spec(ps[i], entries[e].name@))
            } else {
                ps
            },
            _ => ps,
        };
        apply_entries(ps2, i, entries, e + 1)
    }
}

/// The walker's path array after the first `k` nodes: the root path is
/// empty, and every processed node has handed its subdirectories their
/// paths.
pub open spec fn paths_after(arena: Seq<TreeNode>, k: int) -> Seq<Seq<char>>
    decreases k,
{
    if k <= 0 {
        Seq::new(arena.len(), |j: int| Seq::<char>::empty())
    } else {
        apply_entries(paths_after(arena, k - 1), k - 1, arena[k - 1].entries@, 0)
    }
}

/// The file views one node schedules, from entry `e` on: one job per
/// blob, except a blob literally named `index`, whose view page would
/// collide with the directory's own index page.
pub open spec fn jobs_of_entries(
    parent: Seq<char>,
    entries: Seq<TreeEntry>,
    e: int,
) -> Seq<(ObjId, i32, Seq<char>)>
    decreases entries.len() - e,
{
    if e < 0 || e >= entries.len() {
        Seq::empty()
    } else {
        (match entries[e].kind {
            EntryKind::Blob { id, mode } => if entries[e].name@ != "index"@ {
                seq![(id, mode, join_path_spec(parent, entries[e].name@))]
            } else {
                Seq::empty()
            },
            _ => Seq::empty(),
        }) + jobs_of_entries(parent, entries, e + 1)
    }
}

/// The whole blob schedule after the first `k` nodes.
pub open spec fn schedule_after(arena: Seq<TreeNode>, k: int) -> Seq<
    (ObjId, i32, Seq<char>),
>
    decreases k,
{
    if k <= 0 {
        Seq::empty()
    } else {
        schedule_after(arena, k - 1) + jobs_of_entries(
            paths_after(arena, k - 1)[k - 1],
            arena[k - 1].entries@,
            0,
        )
    }
}

proof fn lemma_apply_entries_len(
    ps: Seq<Seq<char>>,
    i: int,
    entries: Seq<TreeEntry>,
    e: int,
)
    ensures
        apply_entries(ps, i, entries, e).len() == ps.len(),
    decreases entries.len() - e,
{
    if 0 <= e < entries.len() {
        match entries[e].kind {
            EntryKind::Subtree { node } => {
                if i < node < ps.len() {
                    lemma_apply_entries_len(
                        ps.update(node as int, join_path_spec(ps[i], entries[e].name@)),
                        i,
                        entries,
                        e + 1,
                    );
                } else {
                    lemma_apply_entries_len(ps, i, entries, e + 1);
                }
            },
            _ => {
                lemma_apply_entries_len(ps, i, entries, e + 1);
            },
        }
    }
}

proof fn lemma_paths_after_len(arena: Seq<TreeNode>, k: int)
    requires
        k >= 0,
    ensures
        paths_after(arena, k).len() == arena.len(),
    decreases k,
{
    if k > 0 {
        lemma_paths_after_len(arena, k - 1);
        lemma_apply_entries_len(paths_after(arena, k - 1), k - 1, arena[k - 1].entries@, 0);
    }
}

impl RepoRenderer {
    /// Walks the head tree over its arena with an explicit work list:
    /// renders one index page per directory (node 0 is the root) and
    /// schedules one file-view job per blob.  Paths flow from a node
    /// to the subdirectories it references later in the arena; a node
    /// nothing references keeps the empty path.
    #[verifier::rlimit(100)]
    #[verifier::spinoff_prover]
    pub fn render_tree(&self, arena: &Vec<TreeNode>) -> (r: (
        Vec<(String, String)>,
        Vec<BlobJob>,
    ))
        ensures
            r.0@.len() == arena@.len(),
            forall|i: int|
                0 <= i < arena@.len() ==> (#[trigger] r.0@[i]).0@ == paths_after(
                    arena@,
                    i,
                )[i] && r.0@[i].1@ == self.tree_index_page_spec(
                    r.0@[i].0,
                    i == 0,
                    arena@[i].entries@,
                ),
            blobs_view(r.1@) == schedule_after(arena@, arena@.len() as int),
    {
        let n = arena.len();
        let mut paths: Vec<String> = Vec::new();
        let mut k: usize = 0;
        while k < n
            invariant
                k <= n,
                paths@.len() == k,
                forall|j: int| 0 <= j < k ==> (#[trigger] paths@[j])@ == Seq::<char>::empty(),
            decreases n - k,
        {
            paths.push(String::new());
            k = k + 1;
        }

        let mut pages: Vec<(String, String)> = Vec::new();
        let mut blobs: Vec<BlobJob> = Vec::new();
        let mut i: usize = 0;
        proof {
            assert(forall|j: int|
                0 <= j < n ==> (#[trigger] paths@[j])@ == paths_after(arena@, 0)[j]);
            assert(blobs_view(blobs@) =~= schedule_after(arena@, 0));
        }
        while i < n
            invariant
                i <= n == arena@.len(),
                paths@.len() == n,
                forall|j: int|
                    0 <= j < n ==> (#[trigger] paths@[j])@ == paths_after(
                        arena@,
                        i as int,
                    )[j],
                pages@.len() == i,
                forall|j: int|
                    0 <= j < i ==> (#[trigger] pages@[j]).0@ == paths_after(arena@, j)[j]
                        && pages@[j].1@ == self.tree_index_page_spec(
                        pages@[j].0,
                        j == 0,
                        arena@[j].entries@,
                    ),
                blobs_view(blobs@) == schedule_after(arena@, i as int),
            decreases n - i,
        {
            proof {
                lemma_paths_after_len(arena@, i as int);
                lemma_paths_after_len(arena@, i as int + 1);
            }
            let parent: String = paths[i].clone();
            let page = self.render_subtree(&arena[i].entries, &parent, i == 0);
            let entries = &arena[i].entries;
            let ne = entries.len();
            let mut e: usize = 0;
            proof {
                assert(Seq::new(paths@.len() as nat, |j: int| paths@[j]@)
                    =~= paths_after(arena@, i as int));
            }
            while e < ne
                invariant
                    e <= ne == entries@.len(),
                    entries@ == arena@[i as int].entries@,
                    i < n == arena@.len(),
                    paths@.len() == n,
                    parent@ == paths_after(arena@, i as int)[i as int],
                    paths@[i as int]@ == parent@,
                    apply_entries(
                        Seq::new(paths@.len() as nat, |j: int| paths@[j]@),
                        i as int,
                        entries@,
                        e as int,
                    ) == apply_entries(
                        paths_after(arena@, i as int),
                        i as int,
                        entries@,
                        0,
                    ),
                    blobs_view(blobs@) + jobs_of_entries(parent@, entries@, e as int)
                        == schedule_after(arena@, i as int) + jobs_of_entries(
                        parent@,
                        entries@,
                        0,
                    ),
                decreases ne - e,
            {
                let ghost pv0 = Seq::new(paths@.len() as nat, |j: int| paths@[j]@);
                let ghost bv0 = blobs_view(blobs@);
                let ghost jobs_here = jobs_of_entries(parent@, entries@, e as int);
                let ghost jobs_next = jobs_of_entries(parent@, entries@, e as int + 1);
                match &entries[e].kind {
                    EntryKind::Blob { id, mode } => {
                        if !crate::textfmt::str_eq(entries[e].name.as_str(), "index") {
                            let job = BlobJob {
                                id: *id,
                                mode: *mode,
                                path: join_path(
                                    parent.as_str(),
                                    entries[e].name.as_str(),
                                ),
                            };
                            let ghost jv = job_view(job);
                            blobs.push(job);
                            proof {
                                assert(blobs_view(blobs@) =~~= bv0 + seq![jv]);
                                assert(jobs_here =~~= seq![jv] + jobs_next);
                                assert((bv0 + seq![jv]) + jobs_next =~~= bv0 + jobs_here);
                            }
                        } else {
                            proof {
                                assert(jobs_here =~~= Seq::<
                                    (ObjId, i32, Seq<char>),
                                >::empty() + jobs_next);
                                assert(jobs_here =~~= jobs_next);
                            }
                        }
                        proof {
                            assert(Seq::new(paths@.len() as nat, |j: int| paths@[j]@)
                                =~~= pv0);
                        }
                    },
                    EntryKind::Subtree { node } => {
                        let node = *node;
                        if i < node && node < n {
                            let p = join_path(parent.as_str(), entries[e].name.as_str());
                            paths.set(node, p);
                        }
                        proof {
                            let pv1 = Seq::new(paths@.len() as nat, |j: int| paths@[j]@);
                            assert(pv1 =~~= (if i < node && (node as int) < pv0.len() {
                                pv0.update(
                                    node as int,
                                    join_path_spec(pv0[i as int], entries@[e as int].name@),
                                )
                            } else {
                                pv0
                            }));
                            assert(jobs_here =~~= Seq::<
                                (ObjId, i32, Seq<char>),
                            >::empty() + jobs_next);
                            assert(jobs_here =~~= jobs_next);
                        }
                    },
                    EntryKind::Submodule { .. } => {
                        proof {
                            assert(Seq::new(paths@.len() as nat, |j: int| paths@[j]@)
                                =~~= pv0);
                            assert(jobs_here =~~= Seq::<
                                (ObjId, i32, Seq<char>),
                            >::empty() + jobs_next);
                            assert(jobs_here =~~= jobs_next);
                        }
                    },
                }
                e = e + 1;
            }
            proof {
                assert(jobs_of_entries(parent@, entries@, ne as int)
                    =~= Seq::<(ObjId, i32, Seq<char>)>::empty());
                assert(apply_entries(
                    Seq::new(paths@.len() as nat, |j: int| paths@[j]@),
                    i as int,
                    entries@,
                    ne as int,
                ) == Seq::new(paths@.len() as nat, |j: int| paths@[j]@));
                assert(forall|j: int|
                    0 <= j < n ==> (#[trigger] paths@[j])@ == paths_after(
                        arena@,
                        i as int + 1,
                    )[j]);
                assert(blobs_view(blobs@) =~= schedule_after(arena@, i as int + 1));
            }
            pages.push((parent, page));
            i = i + 1;
        }
        (pages, blobs)
    }
}

/// The number of line feeds in a text.
pub open spec fn count_nl(s: Seq<char>) -> nat
    decreases s.len(),
{
    if s.len() == 0 {
        0
    } else {
        count_nl(s.drop_last()) + if s.last() == '\n' {
            1nat
        } else {
            0nat
        }
    }
}

proof fn lemma_count_nl_le(s: Seq<char>)
    ensures
        count_nl(s) <= s.len(),
    decreases s.len(),
{
    if s.len() > 0 {
        lemma_count_nl_le(s.drop_last());
    }
}

/// A line with a carriage return before its line feed loses it.
pub open spec fn chomp_cr(t: Seq<char>) -> Seq<char> {
    if t.len() > 0 && t.last() == '\r' {
        t.drop_last()
    } else {
        t
    }
}

/// The lines of a text, split at line feeds, an optional carriage
/// return stripped before each, and no final empty line.
pub open spec fn split_lines_from(s: Seq<char>, start: int, i: int) -> Seq<Seq<char>>
    decreases s.len() - i,
{
    if !(0 <= start <= i) || i >= s.len() {
        if start >= s.len() {
            Seq::empty()
        } else {
            seq![s.subrange(start, s.len() as int)]
        }
    } else if s[i] == '\n' {
        seq![chomp_cr(s.subrange(start, i))] + split_lines_from(s, i + 1, i + 1)
    } else {
        split_lines_from(s, start, i + 1)
    }
}

pub open spec fn lines_view(v: Seq<String>) -> Seq<Seq<char>> {
    Seq::new(v.len(), |j: int| v[j]@)
}

/// Splits a text into its lines.
pub fn split_lines(s: &str) -> (out: Vec<String>)
    ensures
        lines_view(out@) == split_lines_from(s@, 0, 0),
{
    let n = s.unicode_len();
    let mut out: Vec<String> = Vec::new();
    let mut start: usize = 0;
    let mut i: usize = 0;
    while i < n
        invariant
            0 <= start <= i <= n == s@.len(),
            lines_view(out@) + split_lines_from(s@, start as int, i as int)
                =~~= split_lines_from(s@, 0, 0),
        decreases n - i,
    {
        let ghost lv0 = lines_view(out@);
        if s.get_char(i) == '\n' {
            let end = if i > start && s.get_char(i - 1) == '\r' {
                i - 1
            } else {
                i
            };
            out.push(s.substring_char(start, end).to_owned());
            proof {
                assert(s@.subrange(start as int, end as int) =~= chomp_cr(
                    s@.subrange(start as int, i as int),
                ));
                assert(lines_view(out@) =~~= lv0 + seq![
                    chomp_cr(s@.subrange(start as int, i as int)),
                ]);
                assert((lv0 + seq![chomp_cr(s@.subrange(start as int, i as int))])
                    + split_lines_from(s@, i as int + 1, i as int + 1) =~~= lv0
                    + split_lines_from(s@, start as int, i as int));
            }
            i = i + 1;
            start = i;
        } else {
            i = i + 1;
        }
    }
    if start < n {
        let ghost lv0 = lines_view(out@);
        out.push(s.substring_char(start, n).to_owned());
        proof {
            assert(lines_view(out@) =~~= lv0 + seq![
                s@.subrange(start as int, s@.len() as int),
            ]);
            assert(lines_view(out@) =~~= split_lines_from(s@, 0, 0));
        }
    } else {
        proof {
            assert(lines_view(out@) + Seq::<Seq<char>>::empty() =~~= lines_view(out@));
        }
    }
    out
}

/// The line-number gutter entries from line `k` up to (excluding) the
/// line count, each zero-padded to the digit width of the count.
pub open spec fn gutter_from(k: int, nlines: int, width: int) -> Seq<char>
    decreases nlines - k,
{
    if k < 1 || k >= nlines {
        Seq::<char>::empty()
    } else {
        "<a href=\"#l"@ + dec_spec(k) + "\">"@ + zero_pad_spec(dec_spec(k), width)
            + "</a>\n"@ + gutter_from(k + 1, nlines, width)
    }
}

/// The per-line spans from line `i` on, each anchored by its line
/// number and holding the escaped line.
pub open spec fn spans_from(lines: Seq<Seq<char>>, i: int) -> Seq<char>
    decreases lines.len() - i,
{
    if i < 0 || i >= lines.len() {
        Seq::<char>::empty()
    } else {
        "<span id=\"l"@ + dec_spec(i + 1) + "\">"@ + escape_spec(lines[i])
            + "</span>\n"@ + spans_from(lines, i + 1)
    }
}

/// The two-column text view of a blob: a line-number gutter, padded to
/// the digit width of the line count, and the lines themselves, each
/// escaped and individually anchored.
pub open spec fn line_view_spec(content: Seq<char>) -> Seq<char> {
    let nlines = count_nl(content) + 1;
    "<div class=\"code-block blob\">\n<pre id=\"line-numbers\">\n"@ + gutter_from(
        1,
        nlines as int,
        num_digits(nlines as int) as int,
    ) + "</pre>\n<pre id=\"blob\">\n"@ + spans_from(split_lines_from(content, 0, 0), 0)
        + "</pre>\n</div>\n"@
}

impl RepoRenderer {
    /// A blob's file-view page: a small metadata table (name linking
    /// to the raw content, size, mode), and, unless the blob is binary
    /// or empty, the line-numbered text view.
    pub open spec fn blob_page_spec(
        &self,
        path: String,
        content: Seq<char>,
        size: int,
        mode: i32,
        is_binary: bool,
    ) -> Seq<char> {
        self.repo_header_spec(
            PageTitle::TreeEntry { repo_name: self.name, path: path },
        )
            + "<div class=\"table-container\">\n<table>\n<colgroup>\n<col />\n<col />\n<col style=\"width: 7em;\"/>\n</colgroup>\n<thead>\n<tr><td>Name</td><td align=\"right\">Size</td><td align=\"right\">Mode</td></tr>\n</thead>\n<tbody>\n<tr>\n<td><a href=\"./\" class=\"subtree\">..</a></td>\n<td align=\"right\"></td>\n<td align=\"right\"></td>\n</tr>\n<tr>\n"@
            + "<td><a href=\""@ + self.repo_root_spec() + "/"@ + self.blob_subdir@ + "/"@
            + escape_spec(path@) + "\">"@ + escape_spec(path@) + "</a></td>\n"@
            + "<td align=\"right\">"@ + file_size_spec(size) + "</td>\n"@
            + "<td align=\"right\">"@ + mode_spec(mode) + "</td>\n"@
            + "</tr>\n</tbody>\n</table>\n</div>\n"@ + (if !is_binary && size > 0 {
            line_view_spec(content)
        } else {
            Seq::<char>::empty()
        }) + page_end_spec()
    }

    /// Writes the line-numbered text view.
    #[verifier::rlimit(100)]
    #[verifier::spinoff_prover]
    fn append_line_view(&self, out: &mut String, content: &str)
        requires
            content@.len() < usize::MAX,
        ensures
            final(out)@ == old(out)@ + line_view_spec(content@),
    {
        let ghost out0 = out@;
        let n = content.unicode_len();
        let mut nl: usize = 0;
        let mut i: usize = 0;
        proof {
            assert(content@.subrange(0, 0) =~= Seq::<char>::empty());
        }
        while i < n
            invariant
                i <= n == content@.len(),
                n < usize::MAX,
                nl == count_nl(content@.subrange(0, i as int)),
            decreases n - i,
        {
            proof {
                lemma_count_nl_le(content@.subrange(0, i as int));
                assert(content@.subrange(0, i as int + 1).drop_last() =~= content@.subrange(
                    0,
                    i as int,
                ));
            }
            if content.get_char(i) == '\n' {
                nl = nl + 1;
            }
            i = i + 1;
        }
        proof {
            assert(content@.subrange(0, n as int) =~= content@);
            lemma_count_nl_le(content@);
        }
        let nlines = nl + 1;
        let width = log_floor(nlines);
        proof {
            reveal_with_fuel(crate::textfmt::pow10, 21);
            assert((usize::MAX as int) < crate::textfmt::pow10(20));
            crate::textfmt::lemma_num_digits_le(nlines as int, 20);
        }

        out.append("<div class=\"code-block blob\">\n<pre id=\"line-numbers\">\n");
        let ghost base = out@;
        let mut k: usize = 1;
        while k < nlines
            invariant
                1 <= k <= nlines,
                width == num_digits(nlines as int),
                width <= 20,
                base + gutter_from(1, nlines as int, width as int) == out@ + gutter_from(
                    k as int,
                    nlines as int,
                    width as int,
                ),
            decreases nlines - k,
        {
            let ghost prev = out@;
            out.append("<a href=\"#l");
            out.append(usize_to_dec(k).as_str());
            out.append("\">");
            out.append(u64_to_dec_padded(k as u64, width).as_str());
            out.append("</a>\n");
            proof {
                assert(out@ =~= prev + ("<a href=\"#l"@ + dec_spec(k as int) + "\">"@
                    + zero_pad_spec(dec_spec(k as int), width as int) + "</a>\n"@));
                assert(prev + gutter_from(k as int, nlines as int, width as int) =~= out@
                    + gutter_from(k as int + 1, nlines as int, width as int));
            }
            k = k + 1;
        }
        proof {
            assert(out@ + gutter_from(nlines as int, nlines as int, width as int)
                =~= out@);
        }
        out.append("</pre>\n<pre id=\"blob\">\n");

        let lines = split_lines(content);
        let ghost ls = split_lines_from(content@, 0, 0);
        let ghost base2 = out@;
        let m = lines.len();
        let mut j: usize = 0;
        while j < m
            invariant
                j <= m == lines@.len(),
                lines_view(lines@) == ls,
                base2 + spans_from(ls, 0) == out@ + spans_from(ls, j as int),
            decreases m - j,
        {
            let ghost prev = out@;
            out.append("<span id=\"l");
            out.append(usize_to_dec(j + 1).as_str());
            out.append("\">");
            out.append(escape(lines[j].as_str()).as_str());
            out.append("</span>\n");
            proof {
                assert(lines@[j as int]@ == ls[j as int]);
                assert(out@ =~= prev + ("<span id=\"l"@ + dec_spec(j as int + 1) + "\">"@
                    + escape_spec(ls[j as int]) + "</span>\n"@));
                assert(prev + spans_from(ls, j as int) =~= out@ + spans_from(
                    ls,
                    j as int + 1,
                ));
            }
            j = j + 1;
        }
        proof {
            assert(out@ + spans_from(ls, m as int) =~= out@);
        }
        out.append("</pre>\n</div>\n");
        proof {
            assert(out@ =~= out0 + line_view_spec(content@));
        }
    }

    /// Renders a blob's file-view page.
    #[verifier::rlimit(100)]
    #[verifier::spinoff_prover]
    pub fn render_blob(
        &self,
        path: &String,
        content: &str,
        size: usize,
        mode: i32,
        is_binary: bool,
    ) -> (out: String)
        requires
            content@.len() < usize::MAX,
        ensures
            out@ == self.blob_page_spec(*path, content@, size as int, mode, is_binary),
    {
        let mut out = String::new();
        let title = PageTitle::TreeEntry {
            repo_name: self.name.clone(),
            path: path.clone(),
        };
        self.render_repo_header(&mut out, &title);
        out.append(
            "<div class=\"table-container\">\n<table>\n<colgroup>\n<col />\n<col />\n<col style=\"width: 7em;\"/>\n</colgroup>\n<thead>\n<tr><td>Name</td><td align=\"right\">Size</td><td align=\"right\">Mode</td></tr>\n</thead>\n<tbody>\n<tr>\n<td><a href=\"./\" class=\"subtree\">..</a></td>\n<td align=\"right\"></td>\n<td align=\"right\"></td>\n</tr>\n<tr>\n",
        );
        out.append("<td><a href=\"");
        self.append_repo_root(&mut out);
        out.append("/");
        out.append(self.blob_subdir.as_str());
        out.append("/");
        out.append(escape(path.as_str()).as_str());
        out.append("\">");
        out.append(escape(path.as_str()).as_str());
        out.append("</a></td>\n");
        out.append("<td align=\"right\">");
        out.append(FileSize(size).render().as_str());
        out.append("</td>\n");
        out.append("<td align=\"right\">");
        out.append(Mode(mode).render().as_str());
        out.append("</td>\n");
        out.append("</tr>\n</tbody>\n</table>\n</div>\n");
        if !is_binary && size > 0 {
            self.append_line_view(&mut out, content);
        }
        render_page_end(&mut out);
        proof {
            assert(out@ =~= self.blob_page_spec(
                *path,
                content@,
                size as int,
                mode,
                is_binary,
            ));
        }
        out
    }
}

} // verus!
