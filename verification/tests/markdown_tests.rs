use yagit::markdown::{render_html, MdEvent, MdTag, MdTagEnd};

#[test]
fn paragraph_text_is_escaped() {
    let events = vec![
        MdEvent::Start(MdTag::Paragraph),
        MdEvent::Text("hello & <world>".to_string()),
        MdEvent::End(MdTagEnd::Paragraph),
    ];
    assert_eq!(render_html(&events, "blob"), "<p>\nhello &amp; &lt;world&gt;\n</p>\n");
}

#[test]
fn heading_levels() {
    let events = vec![
        MdEvent::Start(MdTag::Heading(2)),
        MdEvent::Text("title\n".to_string()),
        MdEvent::End(MdTagEnd::Heading(2)),
    ];
    assert_eq!(render_html(&events, "blob"), "<h2>title\n</h2>\n");
}

#[test]
fn inline_code() {
    let events = vec![MdEvent::Code("a < b".to_string())];
    assert_eq!(render_html(&events, "blob"), "<code>a &lt; b</code>");
}

#[test]
fn raw_html_is_suppressed() {
    let events = vec![
        MdEvent::Start(MdTag::HtmlBlock),
        MdEvent::Html("<script>evil()</script>".to_string()),
        MdEvent::Text("also hidden".to_string()),
        MdEvent::End(MdTagEnd::HtmlBlock),
        MdEvent::InlineHtml("<b>".to_string()),
    ];
    assert_eq!(render_html(&events, "blob"), "");
}

#[test]
fn relative_image_is_rewritten_under_the_blob_prefix() {
    let events = vec![
        MdEvent::Start(MdTag::Image {
            dest_url: "img.png".to_string(),
            title: String::new(),
        }),
        MdEvent::Text("alt text".to_string()),
        MdEvent::End(MdTagEnd::Image),
    ];
    assert_eq!(
        render_html(&events, "blob"),
        "<img src=\"/blob/img.png\" alt=\"alt text\" />\n"
    );
}

#[test]
fn absolute_image_passes_through() {
    let events = vec![
        MdEvent::Start(MdTag::Image {
            dest_url: "https://example.com/x.png".to_string(),
            title: "a title".to_string(),
        }),
        MdEvent::End(MdTagEnd::Image),
    ];
    assert_eq!(
        render_html(&events, "blob"),
        "<img src=\"https://example.com/x.png\" title=\"a title\" />\n"
    );
}

#[test]
fn mailto_link() {
    let events = vec![
        MdEvent::Start(MdTag::Link {
            email: true,
            dest_url: "me@example.com".to_string(),
        }),
        MdEvent::Text("mail\n".to_string()),
        MdEvent::End(MdTagEnd::Link),
    ];
    assert_eq!(
        render_html(&events, "blob"),
        "<a href=\"mailto:me@example.com\">mail\n</a>"
    );
}

#[test]
fn task_lists_and_ordered_lists() {
    let events = vec![
        MdEvent::Start(MdTag::List(Some(3))),
        MdEvent::Start(MdTag::Item),
        MdEvent::TaskListMarker(true),
        MdEvent::Text("done\n".to_string()),
        MdEvent::End(MdTagEnd::Item),
        MdEvent::End(MdTagEnd::List(true)),
    ];
    assert_eq!(
        render_html(&events, "blob"),
        "<ol start=\"3\">\n<li>\n<input disabled=\"\" type=\"checkbox\" checked=\"\"/>\ndone\n</li>\n</ol>\n"
    );
}

#[test]
fn table_head_and_body_cells() {
    let events = vec![
        MdEvent::Start(MdTag::Table),
        MdEvent::Start(MdTag::TableHead),
        MdEvent::Start(MdTag::TableCell),
        MdEvent::Text("h\n".to_string()),
        MdEvent::End(MdTagEnd::TableCell),
        MdEvent::End(MdTagEnd::TableHead),
        MdEvent::Start(MdTag::TableRow),
        MdEvent::Start(MdTag::TableCell),
        MdEvent::Text("c\n".to_string()),
        MdEvent::End(MdTagEnd::TableCell),
        MdEvent::End(MdTagEnd::TableRow),
        MdEvent::End(MdTagEnd::Table),
    ];
    assert_eq!(
        render_html(&events, "blob"),
        "<table><thead><tr><th>h\n</th></tr>\n</thead>\n<tbody>\n<tr><td>c\n</td></tr>\n</tbody>\n</table>\n"
    );
}
