use yagit::escape::{escape, fmt_escaped_html, fmt_escaped_html_scalar, Escaped};

#[test]
fn escape_reserved_characters() {
    assert_eq!(escape("<"), "&lt;");
    assert_eq!(escape(">"), "&gt;");
    assert_eq!(escape("&"), "&amp;");
    assert_eq!(escape("\""), "&quot;");
    assert_eq!(escape("'"), "&apos;");
    assert_eq!(escape("<script>\"x\"&'y'</script>"), "&lt;script&gt;&quot;x&quot;&amp;&apos;y&apos;&lt;/script&gt;");
}

#[test]
fn escape_identity_on_clean_text() {
    assert_eq!(escape(""), "");
    assert_eq!(escape("plain text, nothing special."), "plain text, nothing special.");
    assert_eq!(escape("unicode: \u{e9}\u{1f600} ok"), "unicode: \u{e9}\u{1f600} ok");
}

#[test]
fn escape_never_leaves_bare_reserved() {
    let out = escape("a<b>c&d\"e'f");
    for (i, c) in out.chars().enumerate() {
        assert!(c != '<' && c != '>' && c != '"' && c != '\'');
        if c == '&' {
            let rest: String = out.chars().skip(i).collect();
            assert!(
                rest.starts_with("&lt;")
                    || rest.starts_with("&gt;")
                    || rest.starts_with("&amp;")
                    || rest.starts_with("&quot;")
                    || rest.starts_with("&apos;")
            );
        }
    }
}

#[test]
fn scalar_and_windowed_paths_agree() {
    let samples = [
        "",
        "short",
        "<",
        "exactly sixteen!",
        "a longer text with <tags> & \"quotes\" spread over more than one window 'yes'",
        "&&&&&&&&&&&&&&&&&&&&&&&&&&&&&&&&&&&",
        "tail<",
        "0123456789abcdef<0123456789abcdef>",
    ];
    for s in samples {
        assert_eq!(fmt_escaped_html(s), fmt_escaped_html_scalar(s));
    }
}

#[test]
fn escaped_wrapper_matches_free_function() {
    let s = "a<b & c";
    assert_eq!(Escaped(s).to_html(), escape(s));
}
