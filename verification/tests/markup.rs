use ltengine::markup::{fit_paragraph, html_to_markdown, markdown_to_html, or_unchanged};

#[test]
fn inline_formatting_round_trips() {
    let md = html_to_markdown("Das ist <strong>wichtig</strong> und <em>schön</em>!");
    assert_eq!(md, "Das ist **wichtig** und *schön*!");
    assert_eq!(
        markdown_to_html(
            "This is **important** and _nice_!",
            "Das ist <strong>wichtig</strong>"
        ),
        "This is <strong>important</strong> and <em>nice</em>!"
    );
}

#[test]
fn links_code_and_lists_survive() {
    let html = r#"Siehe <a href="https://example.org">Doku</a> und <code>cargo build</code><ul><li>eins</li><li>zwei</li></ul>"#;
    let md = html_to_markdown(html);
    assert!(md.contains("[Doku](https://example.org)"), "{md}");
    assert!(md.contains("`cargo build`"), "{md}");
    let back = markdown_to_html(&md, html);
    assert!(
        back.contains(r#"<a href="https://example.org">Doku</a>"#),
        "{back}"
    );
    assert!(back.contains("<li>eins</li>"), "{back}");
}

#[test]
fn paragraph_wrapper_follows_original() {
    assert_eq!(markdown_to_html("Hallo", "<p>Hi</p>"), "<p>Hallo</p>");
    assert_eq!(markdown_to_html("Hallo", "<b>Hi</b>"), "Hallo");
}

#[test]
fn tables_and_strikethrough_are_rendered() {
    assert_eq!(markdown_to_html("~~alt~~", "x"), "<del>alt</del>");
    assert!(markdown_to_html("|a|b|\n|-|-|\n|1|2|", "x").contains("<table>"));
}

#[test]
fn several_paragraphs_keep_their_wrappers() {
    assert_eq!(fit_paragraph("<p>a</p>\n<p>b</p>\n", "x"), "<p>a</p>\n<p>b</p>");
    assert_eq!(fit_paragraph("<p>a</p>\n", "x"), "a");
    assert_eq!(fit_paragraph("<p>a</p>\n", "<p class=\"y\">x</p>"), "<p>a</p>");
    assert_eq!(fit_paragraph("<ul></ul>\n", "x"), "<ul></ul>");
}

#[test]
fn what_cannot_be_converted_stays() {
    assert_eq!(or_unchanged("<b>", None), "<b>");
    assert_eq!(or_unchanged("<b>", Some("**".to_owned())), "**");
}
