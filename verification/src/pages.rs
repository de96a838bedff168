//! HTML pages.
//!
//! Every page shares a common head, site header and footer; each
//! repository page adds the repository's own heading and a navigation
//! bar whose active item reflects the page kind.  All free text is
//! escaped on its way in; link targets are built from the configured
//! output root and the repository name.

use vstd::prelude::*;
use crate::diff::{
    count_delta_changes,
    delta_adds_spec,
    delta_dels_spec,
    deltas_wf,
    diff_stats,
    filter_deltas,
    filtered_deltas_spec,
    files_changed_spec,
    lemma_delta_le_total,
    lemma_filtered_elements,
    line_wf,
    total_adds_spec,
    total_dels_spec,
    DeltaInfo,
    DeltaStatus,
    DiffLine,
    Hunk,
    LineOrigin,
};
use crate::escape::{escape, escape_spec};
use crate::markdown::{md_html_spec, render_html, MdEvent};
use crate::oid::{oid_hex_spec, oid_short_hex_spec, ObjId};
use crate::repo::RepoInfo;
use crate::textfmt::{
    dec_spec,
    paragraphs_spec,
    render_paragraphs,
    str_trim,
    trim_spec,
    u64_to_dec,
    usize_to_dec,
};
use crate::time::{date_spec, date_time_spec, full_date_spec, Date, DateTime, FullDate, Time};

verus! {

/// One commit of the history walk, as plain values.
pub struct CommitInfo {
    pub id: ObjId,
    pub parent: Option<ObjId>,
    pub author_name: String,
    pub author_email: Option<String>,
    pub author_time: Time,
    pub commit_time: i64,
    pub summary: String,
    pub message: String,
}

/// A commit page may be skipped exactly when no full rebuild was asked
/// for and the page already exists; its freshness bookkeeping happens
/// regardless.
pub fn should_skip_commit(full_build: bool, page_exists: bool) -> (r: bool)
    ensures
        r == (!full_build && page_exists),
{
    !full_build && page_exists
}

/// A blob page may be skipped exactly when no full rebuild was asked
/// for, the page already exists with a known modification time, the
/// freshness cache has an entry for the blob's content, and the page
/// is not older than that entry.  A missing cache entry always
/// renders.
pub fn should_skip_blob(
    full_build: bool,
    page_mtime: Option<i64>,
    freshness: Option<i64>,
) -> (r: bool)
    ensures
        r == (!full_build && page_mtime is Some && freshness is Some
            && page_mtime->0 >= freshness->0),
{
    if full_build {
        return false;
    }
    match (page_mtime, freshness) {
        (Some(m), Some(f)) => m >= f,
        _ => false,
    }
}

/// Which page is being rendered, for the title and the navigation bar.
pub enum PageTitle {
    Index,
    Summary { repo_name: String },
    Log { repo_name: String },
    TreeEntry { repo_name: String, path: String },
    Commit { repo_name: String, summary: String },
    License { repo_name: String },
}

/// The title element of a page.
pub open spec fn title_line_spec(title: PageTitle) -> Seq<char> {
    match title {
        PageTitle::Index => "<title>personal projects</title>\n"@,
        PageTitle::Summary { repo_name } => "<title>"@ + escape_spec(repo_name@)
            + "</title>\n"@,
        PageTitle::TreeEntry { repo_name, path } => "<title>/"@ + escape_spec(path@)
            + " at "@ + escape_spec(repo_name@) + "</title>\n"@,
        PageTitle::Log { repo_name } => "<title>"@ + escape_spec(repo_name@)
            + " log</title>\n"@,
        PageTitle::Commit { repo_name, summary } => "<title>"@ + escape_spec(repo_name@)
            + ": "@ + escape_spec(trim_spec(summary@)) + "</title>\n"@,
        PageTitle::License { repo_name } => "<title>"@ + escape_spec(repo_name@)
            + " license</title>\n"@,
    }
}

/// The HTML preamble shared by every page: document head, site header
/// and navigation.
pub open spec fn page_header_spec(title: PageTitle) -> Seq<char> {
    "<!DOCTYPE html>\n<html>\n<head>\n"@
        + "<meta http-equiv=\"Content-Type\" content=\"text/html; charset=UTF-8\"/>\n"@
        + "<meta name=\"viewport\" content=\"width=device-width, initial-scale=1\"/>\n"@
        + title_line_spec(title)
        + "<link rel=\"icon\" type=\"image/svg\" href=\"/favicon.svg\" />\n"@
        + "<link rel=\"stylesheet\" type=\"text/css\" href=\"/styles.css\" />\n"@
        + "</head>\n<body>\n<header>\n<nav>\n"@
        + "<img aria-hidden=\"true\" alt=\"Website logo\" src=\"/favicon.svg\">\n"@
        + "<ul>\n<li><strong><a href=\"https://pablopie.xyz\">pablo</a></strong></li>\n"@
        + "<li><a href=\"/\">projects</a></li>\n</ul>\n</nav>\n</header>\n"@
}

/// Writes the shared page preamble.
#[verifier::rlimit(100)]
#[verifier::spinoff_prover]
pub fn render_header(out: &mut String, title: &PageTitle)
    ensures
        final(out)@ == old(out)@ + page_header_spec(*title),
{
    let ghost out0 = out@;
    out.append("<!DOCTYPE html>\n<html>\n<head>\n");
    out.append("<meta http-equiv=\"Content-Type\" content=\"text/html; charset=UTF-8\"/>\n");
    out.append("<meta name=\"viewport\" content=\"width=device-width, initial-scale=1\"/>\n");
    match title {
        PageTitle::Index => {
            out.append("<title>personal projects</title>\n");
        },
        PageTitle::Summary { repo_name } => {
            out.append("<title>");
            out.append(escape(repo_name.as_str()).as_str());
            out.append("</title>\n");
        },
        PageTitle::TreeEntry { repo_name, path } => {
            out.append("<title>/");
            out.append(escape(path.as_str()).as_str());
            out.append(" at ");
            out.append(escape(repo_name.as_str()).as_str());
            out.append("</title>\n");
        },
        PageTitle::Log { repo_name } => {
            out.append("<title>");
            out.append(escape(repo_name.as_str()).as_str());
            out.append(" log</title>\n");
        },
        PageTitle::Commit { repo_name, summary } => {
            out.append("<title>");
            out.append(escape(repo_name.as_str()).as_str());
            out.append(": ");
            out.append(escape(str_trim(summary.as_str())).as_str());
            out.append("</title>\n");
        },
        PageTitle::License { repo_name } => {
            out.append("<title>");
            out.append(escape(repo_name.as_str()).as_str());
            out.append(" license</title>\n");
        },
    }
    out.append("<link rel=\"icon\" type=\"image/svg\" href=\"/favicon.svg\" />\n");
    out.append("<link rel=\"stylesheet\" type=\"text/css\" href=\"/styles.css\" />\n");
    out.append("</head>\n<body>\n<header>\n<nav>\n");
    out.append("<img aria-hidden=\"true\" alt=\"Website logo\" src=\"/favicon.svg\">\n");
    out.append("<ul>\n<li><strong><a href=\"https://pablopie.xyz\">pablo</a></strong></li>\n");
    out.append("<li><a href=\"/\">projects</a></li>\n</ul>\n</nav>\n</header>\n");
    proof {
        assert(out@ =~= out0 + page_header_spec(*title));
    }
}

/// The shared page footer.
pub open spec fn page_footer_spec() -> Seq<char> {
    "<footer>\nmade with \u{2764}\u{fe0f} by <a rel=\"author\" href=\"https://pablopie.xyz/\">@pablo</a>\n</footer>\n"@
}

/// Writes the shared page footer.
pub fn render_footer(out: &mut String)
    ensures
        final(out)@ == old(out)@ + page_footer_spec(),
{
    out.append(
        "<footer>\nmade with \u{2764}\u{fe0f} by <a rel=\"author\" href=\"https://pablopie.xyz/\">@pablo</a>\n</footer>\n",
    );
}

/// The closing of every page: main element ended, footer, body and
/// document ended.
pub open spec fn page_end_spec() -> Seq<char> {
    "</main>\n"@ + page_footer_spec() + "</body>\n</html>\n"@
}

/// Writes the closing of a page.
pub fn render_page_end(out: &mut String)
    ensures
        final(out)@ == old(out)@ + page_end_spec(),
{
    let ghost out0 = out@;
    out.append("</main>\n");
    render_footer(out);
    out.append("</body>\n</html>\n");
    proof {
        assert(out@ =~= out0 + page_end_spec());
    }
}

/// How a README is rendered: preformatted text, or markdown.
#[derive(Clone, Copy, Debug, PartialEq, Eq, Structural)]
pub enum ReadmeFormat {
    Txt,
    Md,
}

/// A repository's README: its raw text, its blob name, its format, and
/// for markdown the parse events of the text.
pub struct Readme {
    pub content: String,
    pub path: String,
    pub format: ReadmeFormat,
    pub events: Vec<MdEvent>,
}

/// Everything needed to render one repository's pages.
pub struct RepoRenderer {
    pub name: String,
    pub description: Option<String>,
    pub branch: String,
    pub readme: Option<Readme>,
    pub license: Option<String>,
    pub full_build: bool,
    pub output_root: String,
    pub tree_subdir: String,
    pub blob_subdir: String,
    pub commit_subdir: String,
}

/// Writes one navigation item.
fn append_nav_item(out: &mut String, selected: bool, href: &str, label: &str)
    ensures
        final(out)@ == old(out)@ + nav_item_spec(selected, href@, label@),
{
    let ghost out0 = out@;
    out.append("<li");
    if selected {
        out.append(" class=\"nav-selected\"");
    }
    out.append("><a href=\"");
    out.append(href);
    out.append("\">");
    out.append(label);
    out.append("</a></li>\n");
    proof {
        assert(out@ =~= out0 + nav_item_spec(selected, href@, label@));
    }
}

/// A navigation item: its label, target and whether it is selected.
pub open spec fn nav_item_spec(
    selected: bool,
    href: Seq<char>,
    label: Seq<char>,
) -> Seq<char> {
    "<li"@ + (if selected {
        " class=\"nav-selected\""@
    } else {
        Seq::<char>::empty()
    }) + "><a href=\""@ + href + "\">"@ + label + "</a></li>\n"@
}

impl RepoRenderer {
    /// The root of this repository's pages: `/` + output root + name.
    pub open spec fn repo_root_spec(&self) -> Seq<char> {
        "/"@ + self.output_root@ + escape_spec(self.name@)
    }

    /// The heading of a repository page: shared header, the repository
    /// name, and its description when there is one.
    pub open spec fn repo_heading_spec(&self, title: PageTitle) -> Seq<char> {
        page_header_spec(title) + "<main>\n"@ + "<h1>"@ + escape_spec(self.name@)
            + "</h1>\n"@ + (match self.description {
            Some(d) => "<p>\n"@ + escape_spec(trim_spec(d@)) + "\n</p>\n"@,
            None => Seq::<char>::empty(),
        })
    }

    /// The navigation bar of a repository page, with the active item
    /// for this page kind; a license item only when the repository has
    /// a license.
    pub open spec fn repo_nav_spec(&self, title: PageTitle) -> Seq<char> {
        "<nav>\n<ul>\n"@ + nav_item_spec(
            title is Summary,
            self.repo_root_spec() + "/index.html"@,
            "summary"@,
        ) + nav_item_spec(
            title is Log || title is Commit,
            self.repo_root_spec() + "/"@ + self.commit_subdir@ + "/index.html"@,
            "log"@,
        ) + nav_item_spec(
            title is TreeEntry,
            self.repo_root_spec() + "/"@ + self.tree_subdir@ + "/index.html"@,
            "tree"@,
        ) + (if self.license is Some {
            nav_item_spec(
                title is License,
                self.repo_root_spec() + "/license.html"@,
                "license"@,
            )
        } else {
            Seq::<char>::empty()
        }) + "</ul>\n</nav>\n"@
    }

    /// The per-repository page preamble: heading then navigation.
    pub open spec fn repo_header_spec(&self, title: PageTitle) -> Seq<char> {
        self.repo_heading_spec(title) + self.repo_nav_spec(title)
    }

    /// Writes `/` + output root + escaped repository name.
    pub(crate) fn append_repo_root(&self, out: &mut String)
        ensures
            final(out)@ == old(out)@ + self.repo_root_spec(),
    {
        let ghost out0 = out@;
        out.append("/");
        out.append(self.output_root.as_str());
        out.append(escape(self.name.as_str()).as_str());
        proof {
            assert(out@ =~= out0 + self.repo_root_spec());
        }
    }

    /// Writes the heading of a repository page.
    #[verifier::spinoff_prover]
    fn append_repo_heading(&self, out: &mut String, title: &PageTitle)
        ensures
            final(out)@ == old(out)@ + self.repo_heading_spec(*title),
    {
        let ghost out0 = out@;
        render_header(out, title);
        out.append("<main>\n");
        out.append("<h1>");
        out.append(escape(self.name.as_str()).as_str());
        out.append("</h1>\n");
        match &self.description {
            Some(d) => {
                out.append("<p>\n");
                out.append(escape(str_trim(d.as_str())).as_str());
                out.append("\n</p>\n");
            },
            None => {},
        }
        proof {
            assert(out@ =~= out0 + self.repo_heading_spec(*title));
        }
    }

    /// Writes the per-repository page preamble.
    #[verifier::rlimit(100)]
    #[verifier::spinoff_prover]
    pub fn render_repo_header(&self, out: &mut String, title: &PageTitle)
        ensures
            final(out)@ == old(out)@ + self.repo_header_spec(*title),
    {
        let ghost out0 = out@;
        self.append_repo_heading(out, title);
        let ghost mid = out@;
        out.append("<nav>\n<ul>\n");
        let ghost nav0 = out@;

        let mut href = String::new();
        self.append_repo_root(&mut href);
        href.append("/index.html");
        append_nav_item(
            out,
            matches!(title, PageTitle::Summary { .. }),
            href.as_str(),
            "summary",
        );
        proof {
            assert(href@ =~= self.repo_root_spec() + "/index.html"@);
            assert(out@ =~= nav0 + nav_item_spec(
                *title is Summary,
                self.repo_root_spec() + "/index.html"@,
                "summary"@,
            ));
        }
        let ghost nav1 = out@;

        let mut href = String::new();
        self.append_repo_root(&mut href);
        href.append("/");
        href.append(self.commit_subdir.as_str());
        href.append("/index.html");
        append_nav_item(
            out,
            matches!(title, PageTitle::Log { .. } | PageTitle::Commit { .. }),
            href.as_str(),
            "log",
        );
        proof {
            assert(href@ =~= self.repo_root_spec() + "/"@ + self.commit_subdir@
                + "/index.html"@);
            assert(out@ =~= nav1 + nav_item_spec(
                *title is Log || *title is Commit,
                self.repo_root_spec() + "/"@ + self.commit_subdir@ + "/index.html"@,
                "log"@,
            ));
        }
        let ghost nav2 = out@;

        let mut href = String::new();
        self.append_repo_root(&mut href);
        href.append("/");
        href.append(self.tree_subdir.as_str());
        href.append("/index.html");
        append_nav_item(
            out,
            matches!(title, PageTitle::TreeEntry { .. }),
            href.as_str(),
            "tree",
        );
        proof {
            assert(href@ =~= self.repo_root_spec() + "/"@ + self.tree_subdir@
                + "/index.html"@);
            assert(out@ =~= nav2 + nav_item_spec(
                *title is TreeEntry,
                self.repo_root_spec() + "/"@ + self.tree_subdir@ + "/index.html"@,
                "tree"@,
            ));
        }
        let ghost nav3 = out@;

        if self.license.is_some() {
            let mut href = String::new();
            self.append_repo_root(&mut href);
            href.append("/license.html");
            append_nav_item(
                out,
                matches!(title, PageTitle::License { .. }),
                href.as_str(),
                "license",
            );
            proof {
                assert(href@ =~= self.repo_root_spec() + "/license.html"@);
                assert(out@ =~= nav3 + nav_item_spec(
                    *title is License,
                    self.repo_root_spec() + "/license.html"@,
                    "license"@,
                ));
            }
        }

        out.append("</ul>\n</nav>\n");
        proof {
            assert(out@ =~= mid + self.repo_nav_spec(*title));
            assert(out@ =~= out0 + self.repo_header_spec(*title));
        }
    }

    /// The summary page: refs, clone address, and the README rendered
    /// by its format.
    pub open spec fn summary_page_spec(&self) -> Seq<char> {
        self.repo_header_spec(PageTitle::Summary { repo_name: self.name }) + "<ul>\n"@
            + "<li>refs: "@ + escape_spec(self.branch@) + "</li>\n"@
            + "<li>git clone: <a href=\"git://git.pablopie.xyz/"@ + escape_spec(
            self.name@,
        ) + "\">git://git.pablopie.xyz/"@ + escape_spec(self.name@) + "</a></li>\n"@
            + "</ul>\n"@ + (match self.readme {
            Some(readme) => "<section id=\"readme\">\n"@ + (if readme.format
                == ReadmeFormat::Md {
                md_html_spec(readme.events@, self.blob_subdir@)
            } else {
                "<pre>"@ + escape_spec(readme.content@) + "</pre>\n"@
            }) + "</section>\n"@,
            None => Seq::<char>::empty(),
        }) + page_end_spec()
    }

    /// Renders the summary page.
    pub fn render_summary(&self) -> (out: String)
        ensures
            out@ == self.summary_page_spec(),
    {
        let mut out = String::new();
        let title = PageTitle::Summary { repo_name: self.name.clone() };
        self.render_repo_header(&mut out, &title);
        out.append("<ul>\n");
        out.append("<li>refs: ");
        out.append(escape(self.branch.as_str()).as_str());
        out.append("</li>\n");
        out.append("<li>git clone: <a href=\"git://git.pablopie.xyz/");
        out.append(escape(self.name.as_str()).as_str());
        out.append("\">git://git.pablopie.xyz/");
        out.append(escape(self.name.as_str()).as_str());
        out.append("</a></li>\n");
        out.append("</ul>\n");
        match &self.readme {
            Some(readme) => {
                out.append("<section id=\"readme\">\n");
                if matches!(readme.format, ReadmeFormat::Md) {
                    out.append(
                        render_html(&readme.events, self.blob_subdir.as_str()).as_str(),
                    );
                } else {
                    out.append("<pre>");
                    out.append(escape(readme.content.as_str()).as_str());
                    out.append("</pre>\n");
                }
                out.append("</section>\n");
            },
            None => {},
        }
        render_page_end(&mut out);
        proof {
            assert(out@ =~= self.summary_page_spec());
        }
        out
    }

    /// The license page: the license text, escaped, preformatted.
    pub open spec fn license_page_spec(&self, license: Seq<char>) -> Seq<char> {
        self.repo_header_spec(PageTitle::License { repo_name: self.name })
            + "<section id=\"license\">\n"@ + "<pre>"@ + escape_spec(license)
            + "</pre>\n"@ + "</section>\n"@ + page_end_spec()
    }

    /// Renders the license page.
    pub fn render_license(&self, license: &str) -> (out: String)
        ensures
            out@ == self.license_page_spec(license@),
    {
        let mut out = String::new();
        let title = PageTitle::License { repo_name: self.name.clone() };
        self.render_repo_header(&mut out, &title);
        out.append("<section id=\"license\">\n");
        out.append("<pre>");
        out.append(escape(license).as_str());
        out.append("</pre>\n");
        out.append("</section>\n");
        render_page_end(&mut out);
        proof {
            assert(out@ =~= self.license_page_spec(license@));
        }
        out
    }
}

impl RepoRenderer {
    /// One entry of the log index: short id linking to the commit
    /// page, the author, the date, and the summary line.
    pub open spec fn log_entry_spec(&self, c: CommitInfo) -> Seq<char> {
        "<article>\n<div>\n"@ + "<span class=\"commit-heading\"><a href=\""@
            + self.repo_root_spec() + "/"@ + self.commit_subdir@ + "/"@ + oid_hex_spec(
            c.id,
        ) + ".html\">"@ + oid_short_hex_spec(c.id) + "</a> &mdash; "@ + escape_spec(
            c.author_name@,
        ) + "</span>\n"@ + "<time datetime=\""@ + date_time_spec(c.author_time) + "\">"@
            + date_spec(c.author_time) + "</time>\n"@ + "</div>\n<p>\n"@ + escape_spec(
            c.summary@,
        ) + "\n</p>\n</article>\n"@
    }

    /// The log entries from position `i` on.
    pub open spec fn log_entries_from(&self, commits: Seq<CommitInfo>, i: int) -> Seq<
        char,
    >
        decreases commits.len() - i,
    {
        if i < 0 || i >= commits.len() {
            Seq::<char>::empty()
        } else {
            self.log_entry_spec(commits[i]) + self.log_entries_from(commits, i + 1)
        }
    }

    /// The log index page: one entry per commit, in walk order.
    pub open spec fn log_page_spec(&self, commits: Seq<CommitInfo>) -> Seq<char> {
        self.repo_header_spec(PageTitle::Log { repo_name: self.name })
            + "<div class=\"article-list\">\n"@ + self.log_entries_from(commits, 0)
            + "</div>\n"@ + page_end_spec()
    }

    /// Writes one log entry.
    #[verifier::spinoff_prover]
    fn append_log_entry(&self, out: &mut String, c: &CommitInfo)
        ensures
            final(out)@ == old(out)@ + self.log_entry_spec(*c),
    {
        let ghost out0 = out@;
        out.append("<article>\n<div>\n");
        out.append("<span class=\"commit-heading\"><a href=\"");
        self.append_repo_root(out);
        out.append("/");
        out.append(self.commit_subdir.as_str());
        out.append("/");
        out.append(c.id.to_hex().as_str());
        out.append(".html\">");
        out.append(c.id.short_hex().as_str());
        out.append("</a> &mdash; ");
        out.append(escape(c.author_name.as_str()).as_str());
        out.append("</span>\n");
        out.append("<time datetime=\"");
        out.append(DateTime(c.author_time).render().as_str());
        out.append("\">");
        out.append(Date(c.author_time).render().as_str());
        out.append("</time>\n");
        out.append("</div>\n<p>\n");
        out.append(escape(c.summary.as_str()).as_str());
        out.append("\n</p>\n</article>\n");
        proof {
            assert(out@ =~= out0 + self.log_entry_spec(*c));
        }
    }

    /// Renders the log index page.
    pub fn render_log(&self, commits: &Vec<CommitInfo>) -> (out: String)
        ensures
            out@ == self.log_page_spec(commits@),
    {
        let mut out = String::new();
        let title = PageTitle::Log { repo_name: self.name.clone() };
        self.render_repo_header(&mut out, &title);
        out.append("<div class=\"article-list\">\n");
        let ghost base = out@;
        let n = commits.len();
        let mut i: usize = 0;
        while i < n
            invariant
                i <= n == commits@.len(),
                base + self.log_entries_from(commits@, 0) == out@
                    + self.log_entries_from(commits@, i as int),
            decreases n - i,
        {
            let ghost prev = out@;
            self.append_log_entry(&mut out, &commits[i]);
            proof {
                assert(prev + self.log_entries_from(commits@, i as int) =~= out@
                    + self.log_entries_from(commits@, i as int + 1));
            }
            i = i + 1;
        }
        proof {
            assert(out@ + self.log_entries_from(commits@, n as int) =~= out@);
        }
        out.append("</div>\n");
        render_page_end(&mut out);
        proof {
            assert(out@ =~= self.log_page_spec(commits@));
        }
        out
    }
}

/// The status label shown in the delta table; statuses that are never
/// rendered contribute nothing.
pub open spec fn status_label_spec(s: DeltaStatus) -> Seq<char> {
    match s {
        DeltaStatus::Added => "Added"@,
        DeltaStatus::Copied => "Copied"@,
        DeltaStatus::Deleted => "Deleted"@,
        DeltaStatus::Modified => "Modified"@,
        DeltaStatus::Renamed => "Renamed"@,
        _ => Seq::<char>::empty(),
    }
}

fn append_status_label(out: &mut String, s: DeltaStatus)
    ensures
        final(out)@ == old(out)@ + status_label_spec(s),
{
    match s {
        DeltaStatus::Added => out.append("Added"),
        DeltaStatus::Copied => out.append("Copied"),
        DeltaStatus::Deleted => out.append("Deleted"),
        DeltaStatus::Modified => out.append("Modified"),
        DeltaStatus::Renamed => out.append("Renamed"),
        _ => {},
    }
}

/// A per-line anchor of a diff block: addressable by delta, hunk and
/// line number, classed by origin, holding the escaped line.
pub open spec fn line_anchor_spec(
    idx: int,
    h: int,
    ln: int,
    class: Seq<char>,
    origin: Seq<char>,
    content: Seq<char>,
) -> Seq<char> {
    "<a href=\"#d"@ + dec_spec(idx) + "-"@ + dec_spec(h) + "-"@ + dec_spec(ln)
        + "\" id=\"d"@ + dec_spec(idx) + "-"@ + dec_spec(h) + "-"@ + dec_spec(ln)
        + "\" class=\""@ + class + "\">"@ + origin + escape_spec(content) + "</a>"@
}

#[verifier::spinoff_prover]
fn append_line_anchor(
    out: &mut String,
    idx: usize,
    h: usize,
    ln: u64,
    class: &str,
    origin: &str,
    content: &str,
)
    ensures
        final(out)@ == old(out)@ + line_anchor_spec(
            idx as int,
            h as int,
            ln as int,
            class@,
            origin@,
            content@,
        ),
{
    let ghost out0 = out@;
    out.append("<a href=\"#d");
    out.append(usize_to_dec(idx).as_str());
    out.append("-");
    out.append(usize_to_dec(h).as_str());
    out.append("-");
    out.append(u64_to_dec(ln).as_str());
    out.append("\" id=\"d");
    out.append(usize_to_dec(idx).as_str());
    out.append("-");
    out.append(usize_to_dec(h).as_str());
    out.append("-");
    out.append(u64_to_dec(ln).as_str());
    out.append("\" class=\"");
    out.append(class);
    out.append("\">");
    out.append(origin);
    out.append(escape(content).as_str());
    out.append("</a>");
    proof {
        assert(out@ =~= out0 + line_anchor_spec(
            idx as int,
            h as int,
            ln as int,
            class@,
            origin@,
            content@,
        ));
    }
}

/// What one hunk line renders as, by the delta's status: in a modified
/// delta, changed lines get classed anchors at their own line numbers
/// and context lines only their escaped text; in an added or deleted
/// delta every line is an anchor numbered by its place in the hunk;
/// other statuses render no lines.
pub open spec fn line_spec(idx: int, h: int, l: int, status: DeltaStatus, line: DiffLine) -> Seq<
    char,
> {
    match status {
        DeltaStatus::Modified => match line.origin {
            LineOrigin::Addition => line_anchor_spec(
                idx,
                h,
                line.new_lineno->0 as int,
                "i"@,
                "+"@,
                line.content@,
            ),
            LineOrigin::Deletion => line_anchor_spec(
                idx,
                h,
                line.old_lineno->0 as int,
                "d"@,
                "-"@,
                line.content@,
            ),
            LineOrigin::Context => " "@ + escape_spec(line.content@),
        },
        DeltaStatus::Added => line_anchor_spec(idx, h, l + 1, "i"@, "+"@, line.content@),
        DeltaStatus::Deleted => line_anchor_spec(idx, h, l + 1, "d"@, "-"@, line.content@),
        _ => Seq::<char>::empty(),
    }
}

/// The lines of a hunk from position `l` on.
pub open spec fn lines_from(
    idx: int,
    h: int,
    status: DeltaStatus,
    lines: Seq<DiffLine>,
    l: int,
) -> Seq<char>
    decreases lines.len() - l,
{
    if l < 0 || l >= lines.len() {
        Seq::<char>::empty()
    } else {
        line_spec(idx, h, l, status, lines[l]) + lines_from(idx, h, status, lines, l + 1)
    }
}

/// One hunk: its header anchor (the raw header text) and its lines.
pub open spec fn hunk_spec(idx: int, h: int, status: DeltaStatus, hunk: Hunk) -> Seq<char> {
    "<a href=\"#d"@ + dec_spec(idx) + "-"@ + dec_spec(h) + "\" id=\"d"@ + dec_spec(idx)
        + "-"@ + dec_spec(h) + "\" class=\"h\">"@ + hunk.header@ + "</a>"@ + lines_from(
        idx,
        h,
        status,
        hunk.lines@,
        0,
    )
}

/// The hunks of a delta from position `h` on.
pub open spec fn hunks_from(idx: int, status: DeltaStatus, hunks: Seq<Hunk>, h: int) -> Seq<
    char,
>
    decreases hunks.len() - h,
{
    if h < 0 || h >= hunks.len() {
        Seq::<char>::empty()
    } else {
        hunk_spec(idx, h, status, hunks[h]) + hunks_from(idx, status, hunks, h + 1)
    }
}

#[verifier::spinoff_prover]
fn append_diff_line(
    out: &mut String,
    idx: usize,
    h: usize,
    l: usize,
    status: DeltaStatus,
    line: &DiffLine,
)
    requires
        line_wf(*line),
        l < usize::MAX,
    ensures
        final(out)@ == old(out)@ + line_spec(idx as int, h as int, l as int, status, *line),
{
    let ghost out0 = out@;
    match status {
        DeltaStatus::Modified => match line.origin {
            LineOrigin::Addition => {
                let ln: u64 = match line.new_lineno {
                    Some(n) => n as u64,
                    None => {
                        proof {
                            assert(false);
                        }
                        0
                    },
                };
                append_line_anchor(out, idx, h, ln, "i", "+", line.content.as_str());
            },
            LineOrigin::Deletion => {
                let ln: u64 = match line.old_lineno {
                    Some(n) => n as u64,
                    None => {
                        proof {
                            assert(false);
                        }
                        0
                    },
                };
                append_line_anchor(out, idx, h, ln, "d", "-", line.content.as_str());
            },
            LineOrigin::Context => {
                out.append(" ");
                out.append(escape(line.content.as_str()).as_str());
            },
        },
        DeltaStatus::Added => {
            append_line_anchor(out, idx, h, (l + 1) as u64, "i", "+", line.content.as_str());
        },
        DeltaStatus::Deleted => {
            append_line_anchor(out, idx, h, (l + 1) as u64, "d", "-", line.content.as_str());
        },
        _ => {},
    }
    proof {
        assert(out@ =~= out0 + line_spec(idx as int, h as int, l as int, status, *line));
    }
}

#[verifier::spinoff_prover]
fn append_hunk(out: &mut String, idx: usize, h: usize, status: DeltaStatus, hunk: &Hunk)
    requires
        forall|k: int| 0 <= k < hunk.lines@.len() ==> line_wf(#[trigger] hunk.lines@[k]),
    ensures
        final(out)@ == old(out)@ + hunk_spec(idx as int, h as int, status, *hunk),
{
    let ghost out0 = out@;
    out.append("<a href=\"#d");
    out.append(usize_to_dec(idx).as_str());
    out.append("-");
    out.append(usize_to_dec(h).as_str());
    out.append("\" id=\"d");
    out.append(usize_to_dec(idx).as_str());
    out.append("-");
    out.append(usize_to_dec(h).as_str());
    out.append("\" class=\"h\">");
    out.append(hunk.header.as_str());
    out.append("</a>");
    let ghost base = out@;
    let n = hunk.lines.len();
    let mut l: usize = 0;
    while l < n
        invariant
            l <= n == hunk.lines@.len(),
            n <= usize::MAX,
            forall|k: int| 0 <= k < hunk.lines@.len() ==> line_wf(#[trigger] hunk.lines@[k]),
            base + lines_from(idx as int, h as int, status, hunk.lines@, 0) == out@
                + lines_from(idx as int, h as int, status, hunk.lines@, l as int),
        decreases n - l,
    {
        let ghost prev = out@;
        append_diff_line(out, idx, h, l, status, &hunk.lines[l]);
        proof {
            assert(prev + lines_from(idx as int, h as int, status, hunk.lines@, l as int)
                =~= out@ + lines_from(
                idx as int,
                h as int,
                status,
                hunk.lines@,
                l as int + 1,
            ));
        }
        l = l + 1;
    }
    proof {
        assert(out@ + lines_from(idx as int, h as int, status, hunk.lines@, n as int)
            =~= out@);
        assert(out@ =~= out0 + hunk_spec(idx as int, h as int, status, *hunk));
    }
}

impl RepoRenderer {
    /// The heading line of a diff block: the changed file, linking to
    /// the new file's view page where one exists.
    pub open spec fn diff_git_line_spec(&self, idx: int, d: DeltaInfo) -> Seq<char> {
        match d.status {
            DeltaStatus::Added => "<pre><b>diff --git /dev/null b/<a href=\""@
                + self.repo_root_spec() + "/"@ + self.tree_subdir@ + "/"@ + escape_spec(
                d.new_path@,
            ) + ".html\">"@ + escape_spec(d.new_path@) + "</a></b>\n"@,
            DeltaStatus::Deleted => "<pre><b>diff --git a/"@ + escape_spec(d.old_path@)
                + " /dev/null</b>\n"@,
            _ => "<pre><b>diff --git a/<a id=\"d#"@ + dec_spec(idx) + "\" href=\""@
                + self.repo_root_spec() + "/"@ + self.tree_subdir@ + "/"@ + escape_spec(
                d.new_path@,
            ) + ".html\">"@ + escape_spec(d.old_path@) + "</a> b/<a href=\""@
                + self.repo_root_spec() + "/"@ + self.tree_subdir@ + "/"@ + escape_spec(
                d.new_path@,
            ) + ".html\">"@ + escape_spec(d.new_path@) + "</a></b>\n"@,
        }
    }

    /// One diff block: the heading line, then `Binary files differ`
    /// for binary deltas and the hunks otherwise.
    pub open spec fn delta_block_spec(&self, e: (usize, DeltaInfo)) -> Seq<char> {
        "<div class=\"code-block\" id=\"d"@ + dec_spec(e.0 as int) + "\">\n"@
            + self.diff_git_line_spec(e.0 as int, e.1) + (if e.1.is_binary {
            "Binary files differ\n"@
        } else {
            hunks_from(e.0 as int, e.1.status, e.1.hunks@, 0)
        }) + "</pre>\n</div>\n"@
    }

    /// One row of the delta table: status, the path (old and new when
    /// they differ) linking to the delta's block, the file count, and
    /// the insertion and deletion counts.
    pub open spec fn delta_row_spec(&self, e: (usize, DeltaInfo)) -> Seq<char> {
        "<tr>\n"@ + "<td style=\"width: 4em;\">"@ + status_label_spec(e.1.status)
            + "</td>\n"@ + (if e.1.old_path@ == e.1.new_path@ {
            "<td><a href=\"#d"@ + dec_spec(e.0 as int) + "\">"@ + escape_spec(
                e.1.old_path@,
            ) + "</a></td>\n"@
        } else {
            "<td><a href=\"#d"@ + dec_spec(e.0 as int) + "\">"@ + escape_spec(
                e.1.old_path@,
            ) + " &rarr; "@ + escape_spec(e.1.new_path@) + "</a></td>\n"@
        }) + (if e.1.nfiles == 1 {
            "<td align=\"right\">1 file changed</td>\n"@
        } else {
            "<td align=\"right\">"@ + dec_spec(e.1.nfiles as int) + " files changed</td>\n"@
        }) + "<td align=\"right\" style=\"width: 4em;\">"@ + dec_spec(
            delta_adds_spec(e.1.hunks@) as int,
        ) + "</td>\n"@ + "<td align=\"right\" style=\"width: 4em;\">"@ + dec_spec(
            delta_dels_spec(e.1.hunks@) as int,
        ) + "</td>\n"@ + "</tr>\n"@
    }

    /// The delta table rows from position `j` of the filtered list on.
    pub open spec fn delta_rows_from(
        &self,
        filtered: Seq<(usize, DeltaInfo)>,
        j: int,
    ) -> Seq<char>
        decreases filtered.len() - j,
    {
        if j < 0 || j >= filtered.len() {
            Seq::<char>::empty()
        } else {
            self.delta_row_spec(filtered[j]) + self.delta_rows_from(filtered, j + 1)
        }
    }

    /// The diff blocks from position `j` of the filtered list on.
    pub open spec fn delta_blocks_from(
        &self,
        filtered: Seq<(usize, DeltaInfo)>,
        j: int,
    ) -> Seq<char>
        decreases filtered.len() - j,
    {
        if j < 0 || j >= filtered.len() {
            Seq::<char>::empty()
        } else {
            self.delta_block_spec(filtered[j]) + self.delta_blocks_from(filtered, j + 1)
        }
    }

    /// The commit and parent ids of a commit page's description list.
    pub open spec fn commit_ids_spec(&self, c: CommitInfo) -> Seq<char> {
        "<article class=\"commit\">\n<dl>\n"@ + "<dt>Commit</dt>\n"@ + "<dd><a href=\""@
            + self.repo_root_spec() + "/"@ + self.commit_subdir@ + "/"@ + oid_hex_spec(
            c.id,
        ) + ".html\">"@ + oid_hex_spec(c.id) + "<a/><dd>\n"@ + (match c.parent {
            Some(p) => "<dt>Parent</dt>\n"@ + "<dd><a href=\""@ + self.repo_root_spec()
                + "/"@ + self.commit_subdir@ + "/"@ + oid_hex_spec(p) + ".html\">"@
                + oid_hex_spec(p) + "<a/><dd>\n"@,
            None => Seq::<char>::empty(),
        })
    }

    /// The author and date of a commit page's description list.
    pub open spec fn commit_meta_spec(&self, c: CommitInfo) -> Seq<char> {
        "<dt>Author</dt>\n"@ + "<dd>"@ + escape_spec(c.author_name@) + (
        match c.author_email {
            Some(e) => " &lt;<a href=\"mailto:"@ + escape_spec(e@) + "\">"@ + escape_spec(
                e@,
            ) + "</a>&gt;"@,
            None => Seq::<char>::empty(),
        }) + "</dd>\n"@ + "<dt>Date</dt>\n"@ + "<dd><time datetime=\""@ + date_time_spec(
            c.author_time,
        ) + "\">"@ + full_date_spec(c.author_time) + "</time></dd>\n"@ + "</dl>\n"@
    }

    /// The description list of a commit page: the commit and its
    /// parent, the author with a mail link, the date, and the commit
    /// message as paragraphs.
    pub open spec fn commit_article_spec(&self, c: CommitInfo) -> Seq<char> {
        self.commit_ids_spec(c) + self.commit_meta_spec(c) + paragraphs_spec(c.message@)
            + "</article>\n"@
    }

    /// The head of the delta table.
    pub open spec fn delta_table_head_spec(&self) -> Seq<char> {
        "<div class=\"table-container\">\n<table>\n<thead>\n<tr>\n<td>Status</td>\n<td>Name</td>\n<td align=\"right\">Changes</td>\n<td align=\"right\">Insertions</td>\n<td align=\"right\">Deletions</td>\n<tr>\n</thead>\n<tbody>\n"@
    }

    /// The whole commit page: heading, commit article, overall
    /// diffstat (over the unfiltered deltas), the filtered delta
    /// table, and one diff block per filtered delta.
    pub open spec fn commit_page_spec(&self, c: CommitInfo, deltas: Seq<DeltaInfo>) -> Seq<
        char,
    > {
        self.repo_header_spec(
            PageTitle::Commit { repo_name: self.name, summary: c.summary },
        ) + self.commit_article_spec(c) + "<h2>Diffstats</h2>\n"@ + "<p>"@ + dec_spec(
            files_changed_spec(deltas) as int,
        ) + " files changed, "@ + dec_spec(total_adds_spec(deltas) as int)
            + " insertions, "@ + dec_spec(total_dels_spec(deltas) as int)
            + " deletions</p>\n"@ + self.delta_table_head_spec() + self.delta_rows_from(
            filtered_deltas_spec(deltas),
            0,
        ) + "</tbody>\n</table>\n</div>\n"@ + self.delta_blocks_from(
            filtered_deltas_spec(deltas),
            0,
        ) + page_end_spec()
    }
}

impl RepoRenderer {
    /// Writes the commit and parent ids of the commit article.
    #[verifier::rlimit(100)]
    #[verifier::spinoff_prover]
    fn append_commit_ids(&self, out: &mut String, c: &CommitInfo)
        ensures
            final(out)@ == old(out)@ + self.commit_ids_spec(*c),
    {
        let ghost out0 = out@;
        out.append("<article class=\"commit\">\n<dl>\n");
        out.append("<dt>Commit</dt>\n");
        out.append("<dd><a href=\"");
        self.append_repo_root(out);
        out.append("/");
        out.append(self.commit_subdir.as_str());
        out.append("/");
        out.append(c.id.to_hex().as_str());
        out.append(".html\">");
        out.append(c.id.to_hex().as_str());
        out.append("<a/><dd>\n");
        match &c.parent {
            Some(p) => {
                out.append("<dt>Parent</dt>\n");
                out.append("<dd><a href=\"");
                self.append_repo_root(out);
                out.append("/");
                out.append(self.commit_subdir.as_str());
                out.append("/");
                out.append(p.to_hex().as_str());
                out.append(".html\">");
                out.append(p.to_hex().as_str());
                out.append("<a/><dd>\n");
            },
            None => {},
        }
        proof {
            assert(out@ =~= out0 + self.commit_ids_spec(*c));
        }
    }

    /// Writes the author and date of the commit article.
    #[verifier::rlimit(100)]
    #[verifier::spinoff_prover]
    fn append_commit_meta(&self, out: &mut String, c: &CommitInfo)
        ensures
            final(out)@ == old(out)@ + self.commit_meta_spec(*c),
    {
        let ghost out0 = out@;
        out.append("<dt>Author</dt>\n");
        out.append("<dd>");
        out.append(escape(c.author_name.as_str()).as_str());
        match &c.author_email {
            Some(e) => {
                out.append(" &lt;<a href=\"mailto:");
                out.append(escape(e.as_str()).as_str());
                out.append("\">");
                out.append(escape(e.as_str()).as_str());
                out.append("</a>&gt;");
            },
            None => {},
        }
        out.append("</dd>\n");
        out.append("<dt>Date</dt>\n");
        out.append("<dd><time datetime=\"");
        out.append(DateTime(c.author_time).render().as_str());
        out.append("\">");
        out.append(FullDate(c.author_time).render().as_str());
        out.append("</time></dd>\n");
        out.append("</dl>\n");
        proof {
            assert(out@ =~= out0 + self.commit_meta_spec(*c));
        }
    }

    /// Writes the commit article.
    fn append_commit_article(&self, out: &mut String, c: &CommitInfo)
        ensures
            final(out)@ == old(out)@ + self.commit_article_spec(*c),
    {
        let ghost out0 = out@;
        self.append_commit_ids(out, c);
        self.append_commit_meta(out, c);
        render_paragraphs(out, c.message.as_str());
        out.append("</article>\n");
        proof {
            assert(out@ =~= out0 + self.commit_article_spec(*c));
        }
    }

    /// Writes one row of the delta table.
    #[verifier::rlimit(100)]
    #[verifier::spinoff_prover]
    fn append_delta_row(&self, out: &mut String, idx: usize, d: &DeltaInfo)
        requires
            delta_adds_spec(d.hunks@) <= usize::MAX,
            delta_dels_spec(d.hunks@) <= usize::MAX,
        ensures
            final(out)@ == old(out)@ + self.delta_row_spec((idx, *d)),
    {
        let ghost out0 = out@;
        out.append("<tr>\n");
        out.append("<td style=\"width: 4em;\">");
        append_status_label(out, d.status);
        out.append("</td>\n");
        if crate::textfmt::str_eq(d.old_path.as_str(), d.new_path.as_str()) {
            out.append("<td><a href=\"#d");
            out.append(usize_to_dec(idx).as_str());
            out.append("\">");
            out.append(escape(d.old_path.as_str()).as_str());
            out.append("</a></td>\n");
        } else {
            out.append("<td><a href=\"#d");
            out.append(usize_to_dec(idx).as_str());
            out.append("\">");
            out.append(escape(d.old_path.as_str()).as_str());
            out.append(" &rarr; ");
            out.append(escape(d.new_path.as_str()).as_str());
            out.append("</a></td>\n");
        }
        if d.nfiles == 1 {
            out.append("<td align=\"right\">1 file changed</td>\n");
        } else {
            out.append("<td align=\"right\">");
            out.append(u64_to_dec(d.nfiles).as_str());
            out.append(" files changed</td>\n");
        }
        let (adds, dels) = count_delta_changes(&d.hunks);
        out.append("<td align=\"right\" style=\"width: 4em;\">");
        out.append(usize_to_dec(adds).as_str());
        out.append("</td>\n");
        out.append("<td align=\"right\" style=\"width: 4em;\">");
        out.append(usize_to_dec(dels).as_str());
        out.append("</td>\n");
        out.append("</tr>\n");
        proof {
            assert(out@ =~= out0 + self.delta_row_spec((idx, *d)));
        }
    }

    /// Writes the heading line of a diff block.
    #[verifier::rlimit(100)]
    #[verifier::spinoff_prover]
    fn append_diff_git_line(&self, out: &mut String, idx: usize, d: &DeltaInfo)
        ensures
            final(out)@ == old(out)@ + self.diff_git_line_spec(idx as int, *d),
    {
        let ghost out0 = out@;
        match d.status {
            DeltaStatus::Added => {
                out.append("<pre><b>diff --git /dev/null b/<a href=\"");
                self.append_repo_root(out);
                out.append("/");
                out.append(self.tree_subdir.as_str());
                out.append("/");
                out.append(escape(d.new_path.as_str()).as_str());
                out.append(".html\">");
                out.append(escape(d.new_path.as_str()).as_str());
                out.append("</a></b>\n");
            },
            DeltaStatus::Deleted => {
                out.append("<pre><b>diff --git a/");
                out.append(escape(d.old_path.as_str()).as_str());
                out.append(" /dev/null</b>\n");
            },
            _ => {
                out.append("<pre><b>diff --git a/<a id=\"d#");
                out.append(usize_to_dec(idx).as_str());
                out.append("\" href=\"");
                self.append_repo_root(out);
                out.append("/");
                out.append(self.tree_subdir.as_str());
                out.append("/");
                out.append(escape(d.new_path.as_str()).as_str());
                out.append(".html\">");
                out.append(escape(d.old_path.as_str()).as_str());
                out.append("</a> b/<a href=\"");
                self.append_repo_root(out);
                out.append("/");
                out.append(self.tree_subdir.as_str());
                out.append("/");
                out.append(escape(d.new_path.as_str()).as_str());
                out.append(".html\">");
                out.append(escape(d.new_path.as_str()).as_str());
                out.append("</a></b>\n");
            },
        }
        proof {
            assert(out@ =~= out0 + self.diff_git_line_spec(idx as int, *d));
        }
    }

    /// Writes one diff block.
    #[verifier::rlimit(100)]
    #[verifier::spinoff_prover]
    fn append_delta_block(&self, out: &mut String, idx: usize, d: &DeltaInfo)
        requires
            forall|j: int, k: int|
                0 <= j < d.hunks@.len() && 0 <= k < d.hunks@[j].lines@.len()
                    ==> line_wf(#[trigger] d.hunks@[j].lines@[k]),
        ensures
            final(out)@ == old(out)@ + self.delta_block_spec((idx, *d)),
    {
        let ghost out0 = out@;
        out.append("<div class=\"code-block\" id=\"d");
        out.append(usize_to_dec(idx).as_str());
        out.append("\">\n");
        self.append_diff_git_line(out, idx, d);
        let ghost mid = out@;
        if d.is_binary {
            out.append("Binary files differ\n");
        } else {
            let ghost base = out@;
            let n = d.hunks.len();
            let mut h: usize = 0;
            while h < n
                invariant
                    h <= n == d.hunks@.len(),
                    forall|j: int, k: int|
                        0 <= j < d.hunks@.len() && 0 <= k < d.hunks@[j].lines@.len()
                            ==> line_wf(#[trigger] d.hunks@[j].lines@[k]),
                    base + hunks_from(idx as int, d.status, d.hunks@, 0) == out@
                        + hunks_from(idx as int, d.status, d.hunks@, h as int),
                decreases n - h,
            {
                let ghost prev = out@;
                append_hunk(out, idx, h, d.status, &d.hunks[h]);
                proof {
                    assert(prev + hunks_from(idx as int, d.status, d.hunks@, h as int)
                        =~= out@ + hunks_from(
                        idx as int,
                        d.status,
                        d.hunks@,
                        h as int + 1,
                    ));
                }
                h = h + 1;
            }
            proof {
                assert(out@ + hunks_from(idx as int, d.status, d.hunks@, n as int)
                    =~= out@);
            }
        }
        out.append("</pre>\n</div>\n");
        proof {
            assert(out@ =~= out0 + self.delta_block_spec((idx, *d)));
        }
    }

    /// Renders a commit's page: the commit itself, the overall
    /// diffstat over the whole diff, and the filtered deltas as table
    /// rows and diff blocks.
    #[verifier::rlimit(100)]
    #[verifier::spinoff_prover]
    pub fn render_commit(&self, c: &CommitInfo, deltas: Vec<DeltaInfo>) -> (out: String)
        requires
            deltas_wf(deltas@),
            total_adds_spec(deltas@) <= usize::MAX,
            total_dels_spec(deltas@) <= usize::MAX,
        ensures
            out@ == self.commit_page_spec(*c, deltas@),
    {
        let ghost orig = deltas@;
        // Reading the length pins the delta list to a machine size.
        let _n_deltas = deltas.len();
        let mut out = String::new();
        let title = PageTitle::Commit {
            repo_name: self.name.clone(),
            summary: c.summary.clone(),
        };
        self.render_repo_header(&mut out, &title);
        self.append_commit_article(&mut out, c);
        out.append("<h2>Diffstats</h2>\n");
        let (files, adds, dels) = diff_stats(&deltas);
        out.append("<p>");
        out.append(usize_to_dec(files).as_str());
        out.append(" files changed, ");
        out.append(usize_to_dec(adds).as_str());
        out.append(" insertions, ");
        out.append(usize_to_dec(dels).as_str());
        out.append(" deletions</p>\n");
        out.append(
            "<div class=\"table-container\">\n<table>\n<thead>\n<tr>\n<td>Status</td>\n<td>Name</td>\n<td align=\"right\">Changes</td>\n<td align=\"right\">Insertions</td>\n<td align=\"right\">Deletions</td>\n<tr>\n</thead>\n<tbody>\n",
        );
        let ghost head_done = out@;

        let filtered = filter_deltas(deltas);
        let m = filtered.len();

        let ghost base = out@;
        let mut j: usize = 0;
        while j < m
            invariant
                j <= m == filtered@.len(),
                filtered@ == filtered_deltas_spec(orig),
                orig.len() <= usize::MAX,
                total_adds_spec(orig) <= usize::MAX,
                total_dels_spec(orig) <= usize::MAX,
                base + self.delta_rows_from(filtered@, 0) == out@ + self.delta_rows_from(
                    filtered@,
                    j as int,
                ),
            decreases m - j,
        {
            proof {
                lemma_filtered_elements(orig, orig.len() as int, j as int);
                lemma_delta_le_total(orig, filtered@[j as int].0 as int);
            }
            let ghost prev = out@;
            let (idx, d) = &filtered[j];
            self.append_delta_row(&mut out, *idx, d);
            proof {
                assert((*idx, *d) == filtered@[j as int]);
                assert(prev + self.delta_rows_from(filtered@, j as int) =~= out@
                    + self.delta_rows_from(filtered@, j as int + 1));
            }
            j = j + 1;
        }
        proof {
            assert(out@ + self.delta_rows_from(filtered@, m as int) =~= out@);
        }
        out.append("</tbody>\n</table>\n</div>\n");

        let ghost base2 = out@;
        let mut j: usize = 0;
        while j < m
            invariant
                j <= m == filtered@.len(),
                filtered@ == filtered_deltas_spec(orig),
                orig.len() <= usize::MAX,
                deltas_wf(orig),
                base2 + self.delta_blocks_from(filtered@, 0) == out@
                    + self.delta_blocks_from(filtered@, j as int),
            decreases m - j,
        {
            proof {
                lemma_filtered_elements(orig, orig.len() as int, j as int);
            }
            let ghost prev = out@;
            let (idx, d) = &filtered[j];
            proof {
                assert(forall|a: int, b: int|
                    0 <= a < d.hunks@.len() && 0 <= b < d.hunks@[a].lines@.len()
                        ==> line_wf(#[trigger] d.hunks@[a].lines@[b])) by {
                    assert(*d == orig[filtered@[j as int].0 as int]);
                }
            }
            self.append_delta_block(&mut out, *idx, d);
            proof {
                assert((*idx, *d) == filtered@[j as int]);
                assert(prev + self.delta_blocks_from(filtered@, j as int) =~= out@
                    + self.delta_blocks_from(filtered@, j as int + 1));
            }
            j = j + 1;
        }
        proof {
            assert(out@ + self.delta_blocks_from(filtered@, m as int) =~= out@);
        }
        render_page_end(&mut out);
        proof {
            assert(out@ =~= self.commit_page_spec(*c, orig));
        }
        out
    }
}

/// A blob entry of the head tree, as the README and LICENSE scan sees
/// it: its name and whether its content is binary.
pub struct HeadEntry {
    pub name: String,
    pub is_binary: bool,
}

/// A recognized README blob name.
pub open spec fn is_readme_name(n: Seq<char>) -> bool {
    n == "README"@ || n == "README.txt"@ || n == "README.md"@
}

/// A blob that can be honored as the README: a recognized name and
/// non-binary content.
pub open spec fn is_readme_pick(s: Seq<HeadEntry>, j: int) -> bool {
    is_readme_name(s[j].name@) && !s[j].is_binary
}

/// A blob that can be honored as the license.
pub open spec fn is_license_pick(s: Seq<HeadEntry>, j: int) -> bool {
    s[j].name@ == "LICENSE"@ && !s[j].is_binary
}

/// Picks the README: the first non-binary blob with a recognized
/// name; later matches are ignored and binary ones never picked.
pub fn select_readme(entries: &Vec<HeadEntry>) -> (r: Option<usize>)
    ensures
        match r {
            Some(i) => i < entries@.len() && is_readme_pick(entries@, i as int) && (forall|
                j: int,
            |
                0 <= j < i ==> !is_readme_pick(entries@, j)),
            None => forall|j: int|
                0 <= j < entries@.len() ==> !is_readme_pick(entries@, j),
        },
{
    let n = entries.len();
    let mut i: usize = 0;
    while i < n
        invariant
            i <= n == entries@.len(),
            forall|j: int| 0 <= j < i ==> !is_readme_pick(entries@, j),
        decreases n - i,
    {
        proof {
            reveal_strlit("README");
            reveal_strlit("README.txt");
            reveal_strlit("README.md");
        }
        let e = &entries[i];
        let named = crate::textfmt::str_eq(e.name.as_str(), "README")
            || crate::textfmt::str_eq(e.name.as_str(), "README.txt")
            || crate::textfmt::str_eq(e.name.as_str(), "README.md");
        if named && !e.is_binary {
            return Some(i);
        }
        i = i + 1;
    }
    None
}

/// Picks the license: the last non-binary blob named `LICENSE`.
pub fn select_license(entries: &Vec<HeadEntry>) -> (r: Option<usize>)
    ensures
        match r {
            Some(i) => i < entries@.len() && is_license_pick(entries@, i as int) && (
            forall|j: int|
                i < j < entries@.len() ==> !is_license_pick(entries@, j)),
            None => forall|j: int|
                0 <= j < entries@.len() ==> !is_license_pick(entries@, j),
        },
{
    let n = entries.len();
    let mut i: usize = n;
    while i > 0
        invariant
            i <= n == entries@.len(),
            forall|j: int| i <= j < n ==> !is_license_pick(entries@, j),
        decreases i,
    {
        let e = &entries[i - 1];
        if crate::textfmt::str_eq(e.name.as_str(), "LICENSE") && !e.is_binary {
            return Some(i - 1);
        }
        i = i - 1;
    }
    None
}

/// The format a README name announces: markdown only for
/// `README.md`.
pub fn readme_format(name: &str) -> (r: ReadmeFormat)
    ensures
        r == (if name@ == "README.md"@ {
            ReadmeFormat::Md
        } else {
            ReadmeFormat::Txt
        }),
{
    if crate::textfmt::str_eq(name, "README.md") {
        ReadmeFormat::Md
    } else {
        ReadmeFormat::Txt
    }
}

impl RepoRenderer {
    /// Assembles a repository renderer from its parts.
    pub fn new(
        name: String,
        description: Option<String>,
        branch: String,
        readme: Option<Readme>,
        license: Option<String>,
        full_build: bool,
        output_root: String,
        tree_subdir: String,
        blob_subdir: String,
        commit_subdir: String,
    ) -> (r: RepoRenderer)
        ensures
            r == (RepoRenderer {
                name,
                description,
                branch,
                readme,
                license,
                full_build,
                output_root,
                tree_subdir,
                blob_subdir,
                commit_subdir,
            }),
    {
        RepoRenderer {
            name,
            description,
            branch,
            readme,
            license,
            full_build,
            output_root,
            tree_subdir,
            blob_subdir,
            commit_subdir,
        }
    }
}

/// One catalog entry: the repository, its owner, its last commit date
/// and its description.
pub open spec fn index_article_spec(r: RepoInfo, root: Seq<char>) -> Seq<char> {
    "<article>\n"@ + "<h4>\n"@ + "<a href=\"/"@ + root + escape_spec(r.name@)
        + "/index.html\">"@ + escape_spec(r.name@) + "</a>\n"@ + "</h4>\n"@ + "<div>\n"@
        + "<span>"@ + escape_spec(r.owner@) + "</span>\n"@ + "<time datetime=\""@
        + date_time_spec(r.last_commit) + "\">"@ + date_spec(r.last_commit)
        + "</time>\n"@ + "</div>\n"@ + (match r.description {
        Some(d) => paragraphs_spec(d@),
        None => Seq::<char>::empty(),
    }) + "</article>\n"@
}

/// The catalog entries from position `i` on.
pub open spec fn index_articles_from(repos: Seq<RepoInfo>, root: Seq<char>, i: int) -> Seq<
    char,
>
    decreases repos.len() - i,
{
    if i < 0 || i >= repos.len() {
        Seq::<char>::empty()
    } else {
        index_article_spec(repos[i], root) + index_articles_from(repos, root, i + 1)
    }
}

/// The catalog page: one article per repository, in catalog order.
pub open spec fn index_page_spec(repos: Seq<RepoInfo>, root: Seq<char>) -> Seq<char> {
    page_header_spec(PageTitle::Index) + "<main>\n<div class=\"article-list\">\n"@
        + index_articles_from(repos, root, 0) + "</div>\n"@ + page_end_spec()
}

/// Writes one catalog entry.
#[verifier::rlimit(100)]
#[verifier::spinoff_prover]
fn append_index_article(out: &mut String, r: &RepoInfo, root: &str)
    ensures
        final(out)@ == old(out)@ + index_article_spec(*r, root@),
{
    let ghost out0 = out@;
    out.append("<article>\n");
    out.append("<h4>\n");
    out.append("<a href=\"/");
    out.append(root);
    out.append(escape(r.name.as_str()).as_str());
    out.append("/index.html\">");
    out.append(escape(r.name.as_str()).as_str());
    out.append("</a>\n");
    out.append("</h4>\n");
    out.append("<div>\n");
    out.append("<span>");
    out.append(escape(r.owner.as_str()).as_str());
    out.append("</span>\n");
    out.append("<time datetime=\"");
    out.append(DateTime(r.last_commit).render().as_str());
    out.append("\">");
    out.append(Date(r.last_commit).render().as_str());
    out.append("</time>\n");
    out.append("</div>\n");
    match &r.description {
        Some(d) => {
            render_paragraphs(out, d.as_str());
        },
        None => {},
    }
    out.append("</article>\n");
    proof {
        assert(out@ =~= out0 + index_article_spec(*r, root@));
    }
}

/// Renders the catalog page: one article per repository, in the given
/// order.
pub fn render_index(repos: &Vec<RepoInfo>, output_root: &str) -> (out: String)
    ensures
        out@ == index_page_spec(repos@, output_root@),
{
    let mut out = String::new();
    render_header(&mut out, &PageTitle::Index);
    out.append("<main>\n<div class=\"article-list\">\n");
    let ghost base = out@;
    let n = repos.len();
    let mut i: usize = 0;
    while i < n
        invariant
            i <= n == repos@.len(),
            base + index_articles_from(repos@, output_root@, 0) == out@
                + index_articles_from(repos@, output_root@, i as int),
        decreases n - i,
    {
        let ghost prev = out@;
        append_index_article(&mut out, &repos[i], output_root);
        proof {
            assert(prev + index_articles_from(repos@, output_root@, i as int) =~= out@
                + index_articles_from(repos@, output_root@, i as int + 1));
        }
        i = i + 1;
    }
    proof {
        assert(out@ + index_articles_from(repos@, output_root@, n as int) =~= out@);
    }
    out.append("</div>\n");
    render_page_end(&mut out);
    proof {
        assert(out@ =~= index_page_spec(repos@, output_root@));
    }
    out
}

} // verus!
