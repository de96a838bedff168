//! Markdown rendering.
//!
//! The renderer works on a stream of plain parse events and writes the
//! restricted HTML the site uses: no raw HTML ever passes through (safe
//! mode suppresses it), every text fragment is escaped, and relative
//! image addresses are rewritten under the raw-blob path prefix.

use vstd::prelude::*;
use crate::escape::{escape, escape_spec};
use crate::textfmt::{dec_spec, ends_with_newline, str_starts_with, u64_to_dec};

verus! {

/// A block or inline construct being opened.
pub enum MdTag {
    Paragraph,
    /// Heading level, 1 to 6.
    Heading(u8),
    BlockQuote,
    CodeBlock,
    /// An ordered list with its start index, or an unordered list.
    List(Option<u64>),
    Item,
    DefinitionList,
    DefinitionListTitle,
    DefinitionListDefinition,
    Emphasis,
    Strong,
    Strikethrough,
    Subscript,
    Superscript,
    Table,
    TableHead,
    TableRow,
    TableCell,
    /// A link; `email` marks a mailto destination.
    Link { email: bool, dest_url: String },
    /// An image with its destination and optional title.
    Image { dest_url: String, title: String },
    HtmlBlock,
}

/// A construct being closed.
#[derive(Clone, Copy, Debug, PartialEq, Eq, Structural)]
pub enum MdTagEnd {
    Paragraph,
    Heading(u8),
    BlockQuote,
    CodeBlock,
    /// `true` closes an ordered list.
    List(bool),
    Item,
    DefinitionList,
    DefinitionListTitle,
    DefinitionListDefinition,
    Emphasis,
    Strong,
    Strikethrough,
    Subscript,
    Superscript,
    Table,
    TableHead,
    TableRow,
    TableCell,
    Link,
    Image,
    HtmlBlock,
}

/// One parse event of the markdown source.
pub enum MdEvent {
    Start(MdTag),
    End(MdTagEnd),
    Text(String),
    Code(String),
    SoftBreak,
    HardBreak,
    Rule,
    TaskListMarker(bool),
    /// Raw HTML, suppressed by safe mode.
    Html(String),
    /// Raw inline HTML, suppressed by safe mode.
    InlineHtml(String),
}

/// The renderer's running state: inside a suppressed raw-HTML block,
/// and inside a table's header row.
#[derive(Clone, Copy, Debug, PartialEq, Eq, Structural)]
pub struct MdState {
    pub in_non_writing_block: bool,
    pub in_table_head: bool,
}

/// What opening `tag` at position `i` writes: the text, the state
/// after it, and the next event position (an image consumes the event
/// after it, using it as alt text when it is a text event).
pub open spec fn start_tag_spec(
    events: Seq<MdEvent>,
    i: int,
    st: MdState,
    blob_subdir: Seq<char>,
) -> (Seq<char>, MdState, int)
    recommends
        0 <= i < events.len(),
        events[i] is Start,
{
    let tag = events[i]->Start_0;
    match tag {
        MdTag::HtmlBlock => (
            Seq::<char>::empty(),
            MdState { in_non_writing_block: true, ..st },
            i + 1,
        ),
        MdTag::Paragraph => ("<p>\n"@, st, i + 1),
        MdTag::Heading(level) => ("<h"@ + dec_spec(level as int) + ">"@, st, i + 1),
        MdTag::Subscript => ("<sub>"@, st, i + 1),
        MdTag::Superscript => ("<sup>"@, st, i + 1),
        MdTag::Table => ("<table>"@, st, i + 1),
        MdTag::TableHead => ("<thead><tr>"@, MdState { in_table_head: true, ..st }, i + 1),
        MdTag::TableRow => ("<tr>"@, st, i + 1),
        MdTag::TableCell => (
            if st.in_table_head {
                "<th>"@
            } else {
                "<td>"@
            },
            st,
            i + 1,
        ),
        MdTag::CodeBlock => ("<div class=\"code-block\">\n<pre>"@, st, i + 1),
        MdTag::BlockQuote => ("<blockquote>\n"@, st, i + 1),
        MdTag::List(Some(start)) => (
            if start == 1 {
                "<ol>\n"@
            } else {
                "<ol start=\""@ + dec_spec(start as int) + "\">\n"@
            },
            st,
            i + 1,
        ),
        MdTag::List(None) => ("<ul>\n"@, st, i + 1),
        MdTag::Item => ("<li>\n"@, st, i + 1),
        MdTag::DefinitionList => ("<dl>\n"@, st, i + 1),
        MdTag::DefinitionListTitle => ("<dt>"@, st, i + 1),
        MdTag::DefinitionListDefinition => ("<dd>"@, st, i + 1),
        MdTag::Emphasis => ("<em>"@, st, i + 1),
        MdTag::Strong => ("<strong>"@, st, i + 1),
        MdTag::Strikethrough => ("<del>"@, st, i + 1),
        MdTag::Link { email, dest_url } => (
            if email {
                "<a href=\"mailto:"@ + escape_spec(dest_url@) + "\">"@
            } else {
                "<a href=\""@ + escape_spec(dest_url@) + "\">"@
            },
            st,
            i + 1,
        ),
        MdTag::Image { dest_url, title } => (
            image_spec(events, i, dest_url@, title@, blob_subdir),
            st,
            if i + 1 < events.len() {
                i + 2
            } else {
                i + 1
            },
        ),
    }
}

/// Whether an image address is absolute; anything else is treated as
/// relative and rewritten under the raw-blob path prefix.
pub open spec fn is_absolute_url(url: Seq<char>) -> bool {
    ||| url.len() >= "https://"@.len() && url.subrange(0, "https://"@.len() as int)
        == "https://"@
    ||| url.len() >= "http://"@.len() && url.subrange(0, "http://"@.len() as int)
        == "http://"@
}

/// The image element: source, alt text taken from the immediately
/// following text event, and a title only when non-empty.
pub open spec fn image_spec(
    events: Seq<MdEvent>,
    i: int,
    dest_url: Seq<char>,
    title: Seq<char>,
    blob_subdir: Seq<char>,
) -> Seq<char> {
    let src = if is_absolute_url(dest_url) {
        "<img src=\""@ + escape_spec(dest_url) + "\" "@
    } else {
        "<img src=\"/"@ + blob_subdir + "/"@ + escape_spec(dest_url) + "\" "@
    };
    let alt = if i + 1 < events.len() && events[i + 1] is Text {
        "alt=\""@ + escape_spec(events[i + 1]->Text_0@) + "\" "@
    } else {
        Seq::<char>::empty()
    };
    let titled = if title.len() > 0 {
        "title=\""@ + escape_spec(title) + "\" "@
    } else {
        Seq::<char>::empty()
    };
    src + alt + titled + "/>\n"@
}

/// What closing `te` writes, and the state after it.
pub open spec fn end_tag_spec(te: MdTagEnd, st: MdState) -> (Seq<char>, MdState) {
    match te {
        MdTagEnd::HtmlBlock => (
            Seq::<char>::empty(),
            MdState { in_non_writing_block: false, ..st },
        ),
        MdTagEnd::Paragraph => ("</p>\n"@, st),
        MdTagEnd::Heading(level) => ("</h"@ + dec_spec(level as int) + ">\n"@, st),
        MdTagEnd::Subscript => ("</sub>"@, st),
        MdTagEnd::Superscript => ("</sup>"@, st),
        MdTagEnd::Table => ("</tbody>\n</table>\n"@, st),
        MdTagEnd::TableHead => (
            "</tr>\n</thead>\n<tbody>\n"@,
            MdState { in_table_head: false, ..st },
        ),
        MdTagEnd::TableRow => ("</tr>\n"@, st),
        MdTagEnd::TableCell => (
            if st.in_table_head {
                "</th>"@
            } else {
                "</td>"@
            },
            st,
        ),
        MdTagEnd::CodeBlock => ("</pre>\n</div>\n"@, st),
        MdTagEnd::BlockQuote => ("</blockquote>\n"@, st),
        MdTagEnd::List(true) => ("</ol>\n"@, st),
        MdTagEnd::List(false) => ("</ul>\n"@, st),
        MdTagEnd::Item => ("</li>\n"@, st),
        MdTagEnd::DefinitionList => ("</dl>\n"@, st),
        MdTagEnd::DefinitionListTitle => ("</dt>\n"@, st),
        MdTagEnd::DefinitionListDefinition => ("</dd>\n"@, st),
        MdTagEnd::Emphasis => ("</em>"@, st),
        MdTagEnd::Strong => ("</strong>"@, st),
        MdTagEnd::Strikethrough => ("</del>"@, st),
        MdTagEnd::Link => ("</a>"@, st),
        MdTagEnd::Image => (Seq::<char>::empty(), st),
    }
}

/// A text event: escaped, with a line feed added unless the raw text
/// already ends in one; suppressed inside a raw-HTML block.
pub open spec fn text_event_spec(text: Seq<char>, st: MdState) -> Seq<char> {
    if st.in_non_writing_block {
        Seq::<char>::empty()
    } else if text.len() > 0 && text.last() == '\n' {
        escape_spec(text)
    } else {
        escape_spec(text) + "\n"@
    }
}

/// The HTML written from event `i` on, with state `st`.
pub open spec fn md_render_from(
    events: Seq<MdEvent>,
    i: int,
    st: MdState,
    blob_subdir: Seq<char>,
) -> Seq<char>
    decreases events.len() - i,
{
    if i < 0 || i >= events.len() {
        Seq::<char>::empty()
    } else {
        match events[i] {
            MdEvent::Start(_) => {
                let (piece, st2, j) = start_tag_spec(events, i, st, blob_subdir);
                if j <= i {
                    Seq::<char>::empty()
                } else {
                    piece + md_render_from(events, j, st2, blob_subdir)
                }
            },
            MdEvent::End(te) => {
                let (piece, st2) = end_tag_spec(te, st);
                piece + md_render_from(events, i + 1, st2, blob_subdir)
            },
            MdEvent::Text(text) => text_event_spec(text@, st) + md_render_from(
                events,
                i + 1,
                st,
                blob_subdir,
            ),
            MdEvent::Code(text) => "<code>"@ + escape_spec(text@) + "</code>"@
                + md_render_from(events, i + 1, st, blob_subdir),
            MdEvent::SoftBreak => "\n"@ + md_render_from(events, i + 1, st, blob_subdir),
            MdEvent::HardBreak => "<br />\n"@ + md_render_from(
                events,
                i + 1,
                st,
                blob_subdir,
            ),
            MdEvent::Rule => "<hr />\n"@ + md_render_from(events, i + 1, st, blob_subdir),
            MdEvent::TaskListMarker(checked) => (
            if checked {
                "<input disabled=\"\" type=\"checkbox\" checked=\"\"/>\n"@
            } else {
                "<input disabled=\"\" type=\"checkbox\"/>\n"@
            }) + md_render_from(events, i + 1, st, blob_subdir),
            MdEvent::Html(_) => md_render_from(events, i + 1, st, blob_subdir),
            MdEvent::InlineHtml(_) => md_render_from(events, i + 1, st, blob_subdir),
        }
    }
}

/// The whole rendering: safe mode off, header state as a table's first
/// row expects it.
pub open spec fn md_html_spec(events: Seq<MdEvent>, blob_subdir: Seq<char>) -> Seq<char> {
    md_render_from(
        events,
        0,
        MdState { in_non_writing_block: false, in_table_head: true },
        blob_subdir,
    )
}

/// Writes the opening of the tag at `i` and returns the next event
/// position.
#[verifier::rlimit(100)]
#[verifier::spinoff_prover]
fn start_tag(
    out: &mut String,
    events: &Vec<MdEvent>,
    i: usize,
    st: &mut MdState,
    blob_subdir: &str,
) -> (next: usize)
    requires
        i < events@.len(),
        events@[i as int] is Start,
    ensures
        ({
            let (piece, st2, j) = start_tag_spec(
                events@,
                i as int,
                *old(st),
                blob_subdir@,
            );
            &&& final(out)@ == old(out)@ + piece
            &&& *final(st) == st2
            &&& next == j
            &&& i < j <= events@.len()
        }),
{
    let ghost out0 = out@;
    // Reading the length pins the event list to a machine size.
    let _n = events.len();
    let next: usize = match &events[i] {
        MdEvent::Start(tag) => match tag {
            MdTag::HtmlBlock => {
                st.in_non_writing_block = true;
                i + 1
            },
            MdTag::Paragraph => {
                out.append("<p>\n");
                i + 1
            },
            MdTag::Heading(level) => {
                out.append("<h");
                out.append(u64_to_dec(*level as u64).as_str());
                out.append(">");
                i + 1
            },
            MdTag::Subscript => {
                out.append("<sub>");
                i + 1
            },
            MdTag::Superscript => {
                out.append("<sup>");
                i + 1
            },
            MdTag::Table => {
                out.append("<table>");
                i + 1
            },
            MdTag::TableHead => {
                st.in_table_head = true;
                out.append("<thead><tr>");
                i + 1
            },
            MdTag::TableRow => {
                out.append("<tr>");
                i + 1
            },
            MdTag::TableCell => {
                if st.in_table_head {
                    out.append("<th>");
                } else {
                    out.append("<td>");
                }
                i + 1
            },
            MdTag::CodeBlock => {
                out.append("<div class=\"code-block\">\n<pre>");
                i + 1
            },
            MdTag::BlockQuote => {
                out.append("<blockquote>\n");
                i + 1
            },
            MdTag::List(Some(start)) => {
                if *start == 1 {
                    out.append("<ol>\n");
                } else {
                    out.append("<ol start=\"");
                    out.append(u64_to_dec(*start).as_str());
                    out.append("\">\n");
                }
                i + 1
            },
            MdTag::List(None) => {
                out.append("<ul>\n");
                i + 1
            },
            MdTag::Item => {
                out.append("<li>\n");
                i + 1
            },
            MdTag::DefinitionList => {
                out.append("<dl>\n");
                i + 1
            },
            MdTag::DefinitionListTitle => {
                out.append("<dt>");
                i + 1
            },
            MdTag::DefinitionListDefinition => {
                out.append("<dd>");
                i + 1
            },
            MdTag::Emphasis => {
                out.append("<em>");
                i + 1
            },
            MdTag::Strong => {
                out.append("<strong>");
                i + 1
            },
            MdTag::Strikethrough => {
                out.append("<del>");
                i + 1
            },
            MdTag::Link { email, dest_url } => {
                if *email {
                    out.append("<a href=\"mailto:");
                } else {
                    out.append("<a href=\"");
                }
                out.append(escape(dest_url.as_str()).as_str());
                out.append("\">");
                i + 1
            },
            MdTag::Image { dest_url, title } => {
                if str_starts_with(dest_url.as_str(), "https://") || str_starts_with(
                    dest_url.as_str(),
                    "http://",
                ) {
                    out.append("<img src=\"");
                    out.append(escape(dest_url.as_str()).as_str());
                    out.append("\" ");
                } else {
                    out.append("<img src=\"/");
                    out.append(blob_subdir);
                    out.append("/");
                    out.append(escape(dest_url.as_str()).as_str());
                    out.append("\" ");
                }
                let mut next = i + 1;
                if i + 1 < events.len() {
                    if let MdEvent::Text(alt) = &events[i + 1] {
                        out.append("alt=\"");
                        out.append(escape(alt.as_str()).as_str());
                        out.append("\" ");
                    }
                    next = i + 2;
                }
                if title.as_str().unicode_len() > 0 {
                    out.append("title=\"");
                    out.append(escape(title.as_str()).as_str());
                    out.append("\" ");
                }
                out.append("/>\n");
                next
            },
        },
        _ => {
            proof {
                assert(false);
            }
            i + 1
        },
    };
    proof {
        let (piece, st2, j) = start_tag_spec(events@, i as int, *old(st), blob_subdir@);
        assert(out@ =~= out0 + piece);
    }
    next
}

/// Writes the closing of a tag.
fn end_tag(out: &mut String, te: MdTagEnd, st: &mut MdState)
    ensures
        ({
            let (piece, st2) = end_tag_spec(te, *old(st));
            &&& final(out)@ == old(out)@ + piece
            &&& *final(st) == st2
        }),
{
    let ghost out0 = out@;
    match te {
        MdTagEnd::HtmlBlock => {
            st.in_non_writing_block = false;
        },
        MdTagEnd::Paragraph => out.append("</p>\n"),
        MdTagEnd::Heading(level) => {
            out.append("</h");
            out.append(u64_to_dec(level as u64).as_str());
            out.append(">\n");
        },
        MdTagEnd::Subscript => out.append("</sub>"),
        MdTagEnd::Superscript => out.append("</sup>"),
        MdTagEnd::Table => out.append("</tbody>\n</table>\n"),
        MdTagEnd::TableHead => {
            out.append("</tr>\n</thead>\n<tbody>\n");
            st.in_table_head = false;
        },
        MdTagEnd::TableRow => out.append("</tr>\n"),
        MdTagEnd::TableCell => {
            if st.in_table_head {
                out.append("</th>");
            } else {
                out.append("</td>");
            }
        },
        MdTagEnd::CodeBlock => out.append("</pre>\n</div>\n"),
        MdTagEnd::BlockQuote => out.append("</blockquote>\n"),
        MdTagEnd::List(true) => out.append("</ol>\n"),
        MdTagEnd::List(false) => out.append("</ul>\n"),
        MdTagEnd::Item => out.append("</li>\n"),
        MdTagEnd::DefinitionList => out.append("</dl>\n"),
        MdTagEnd::DefinitionListTitle => out.append("</dt>\n"),
        MdTagEnd::DefinitionListDefinition => out.append("</dd>\n"),
        MdTagEnd::Emphasis => out.append("</em>"),
        MdTagEnd::Strong => out.append("</strong>"),
        MdTagEnd::Strikethrough => out.append("</del>"),
        MdTagEnd::Link => out.append("</a>"),
        MdTagEnd::Image => {},
    }
    proof {
        let (piece, st2) = end_tag_spec(te, *old(st));
        assert(out@ =~= out0 + piece);
    }
}

/// Renders a stream of markdown events to restricted HTML; relative
/// image addresses are rewritten under `blob_subdir`.
pub fn render_html(events: &Vec<MdEvent>, blob_subdir: &str) -> (out: String)
    ensures
        out@ == md_html_spec(events@, blob_subdir@),
{
    let mut out = String::new();
    let mut st = MdState { in_non_writing_block: false, in_table_head: true };
    let mut i: usize = 0;
    let n = events.len();
    while i < n
        invariant
            i <= n == events@.len(),
            md_html_spec(events@, blob_subdir@) == out@ + md_render_from(
                events@,
                i as int,
                st,
                blob_subdir@,
            ),
        decreases n - i,
    {
        let ghost i0 = i as int;
        let ghost st0 = st;
        let ghost prev = out@;
        match &events[i] {
            MdEvent::Start(_) => {
                i = start_tag(&mut out, events, i, &mut st, blob_subdir);
            },
            MdEvent::End(te) => {
                end_tag(&mut out, *te, &mut st);
                i = i + 1;
            },
            MdEvent::Text(text) => {
                if !st.in_non_writing_block {
                    out.append(escape(text.as_str()).as_str());
                    if !ends_with_newline(text.as_str()) {
                        out.append("\n");
                    }
                }
                i = i + 1;
            },
            MdEvent::Code(text) => {
                out.append("<code>");
                out.append(escape(text.as_str()).as_str());
                out.append("</code>");
                i = i + 1;
            },
            MdEvent::SoftBreak => {
                out.append("\n");
                i = i + 1;
            },
            MdEvent::HardBreak => {
                out.append("<br />\n");
                i = i + 1;
            },
            MdEvent::Rule => {
                out.append("<hr />\n");
                i = i + 1;
            },
            MdEvent::TaskListMarker(checked) => {
                if *checked {
                    out.append("<input disabled=\"\" type=\"checkbox\" checked=\"\"/>\n");
                } else {
                    out.append("<input disabled=\"\" type=\"checkbox\"/>\n");
                }
                i = i + 1;
            },
            MdEvent::Html(_) => {
                i = i + 1;
            },
            MdEvent::InlineHtml(_) => {
                i = i + 1;
            },
        }
        proof {
            assert(prev + md_render_from(events@, i0, st0, blob_subdir@) =~= out@
                + md_render_from(events@, i as int, st, blob_subdir@));
        }
    }
    proof {
        assert(out@ + md_render_from(events@, n as int, st, blob_subdir@) =~= out@);
    }
    out
}

} // verus!
