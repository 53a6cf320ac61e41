//! HTML and Markdown conversion for models that keep Markdown formatting but not HTML tags.
//! TranslateGemma rewrites `<b>x</b>` as `**x**`, so HTML requests are translated as Markdown and
//! converted back.

use vstd::prelude::*;
use vstd::string::*;

use crate::text;
use crate::text::{has_part, right_trimmed};

verus! {

/// Markdown extensions that translations may use, as bits of the options of pulldown-cmark:
/// tables (bit 1) and strikethrough (bit 3).
pub const MARKDOWN_EXTENSIONS: u32 = 0b1010;

/// The Markdown that htmd makes of an HTML text, if it can convert it.
pub uninterp spec fn htmd_conversion(html: Seq<char>) -> Option<Seq<char>>;

/// The HTML that pulldown-cmark makes of a Markdown text with the given options.
pub uninterp spec fn cmark_html(markdown: Seq<char>, options: u32) -> Seq<char>;

/// `htmd::convert` converts HTML to Markdown; whether it can, and to what, depends on the text
/// alone. It descends once for each nested element, as far as the stack goes.
#[verifier::external_body]
fn convert_html(html: &str) -> (r: Option<String>)
    ensures
        text::opt_view(r) == htmd_conversion(html@),
{
    htmd::convert(html).ok()
}

/// `pulldown_cmark::html::push_html` writes the HTML for the events of a
/// `pulldown_cmark::Parser`, which depends on the text and the options alone. Bits that stand
/// for no option are ignored.
#[verifier::external_body]
fn render_markdown(markdown: &str, options: u32) -> (r: String)
    ensures
        r@ == cmark_html(markdown@, options),
{
    let options = pulldown_cmark::Options::from_bits_truncate(options);
    let mut html = String::new();
    pulldown_cmark::html::push_html(&mut html, pulldown_cmark::Parser::new_ext(markdown, options));
    html
}

/// What a converted text is: the conversion where there is one, else the text as it was.
pub open spec fn converted_or_same(html: Seq<char>, conversion: Option<Seq<char>>) -> Seq<char> {
    match conversion {
        Some(markdown) => markdown,
        None => html,
    }
}

/// The Markdown for an HTML text.
pub open spec fn as_markdown(html: Seq<char>) -> Seq<char> {
    converted_or_same(html, htmd_conversion(html))
}

/// What stands in the single paragraph that `html` is.
pub open spec fn single_paragraph(html: Seq<char>) -> Option<Seq<char>> {
    if "<p>"@.is_prefix_of(html) && "</p>"@.is_suffix_of(html.skip("<p>"@.len() as int)) {
        let rest = html.skip("<p>"@.len() as int);
        let inner = rest.take(rest.len() - "</p>"@.len());
        if has_part(inner, "<p>"@) {
            None
        } else {
            Some(inner)
        }
    } else {
        None
    }
}

/// Rendered HTML without the paragraph around it, where it is a single paragraph and the
/// original HTML had none.
pub open spec fn fitted(rendered: Seq<char>, original: Seq<char>) -> Seq<char> {
    let html = right_trimmed(rendered);
    if has_part(original, "<p"@) {
        html
    } else {
        match single_paragraph(html) {
            Some(inner) => inner,
            None => html,
        }
    }
}

/// The HTML for a translated Markdown text.
pub open spec fn as_html(markdown: Seq<char>, original: Seq<char>) -> Seq<char> {
    fitted(cmark_html(markdown, MARKDOWN_EXTENSIONS), original)
}

/// The conversion where there is one, else the text as it was.
pub fn or_unchanged(html: &str, conversion: Option<String>) -> (r: String)
    ensures
        r@ == converted_or_same(html@, text::opt_view(conversion)),
{
    match conversion {
        Some(markdown) => markdown,
        None => html.to_owned(),
    }
}

/// Convert (Matrix-style) HTML to Markdown.
pub fn html_to_markdown(html: &str) -> (r: String)
    ensures
        r@ == as_markdown(html@),
{
    or_unchanged(html, convert_html(html))
}

/// Fit rendered HTML to the original: a single paragraph is returned without a `<p>` wrapper
/// unless the original HTML had one, matching how Matrix clients format one-line messages.
pub fn fit_paragraph(rendered: &str, original_html: &str) -> (r: String)
    ensures
        r@ == fitted(rendered@, original_html@),
{
    let html = text::trim_end(rendered);
    if !text::contains(original_html, "<p") {
        if let Some(rest) = text::strip_prefix(html, "<p>") {
            if let Some(inner) = text::strip_suffix(rest, "</p>") {
                if !text::contains(inner, "<p>") {
                    return inner.to_owned();
                }
            }
        }
    }
    html.to_owned()
}

/// Convert translated Markdown back to HTML.
pub fn markdown_to_html(markdown: &str, original_html: &str) -> (r: String)
    ensures
        r@ == as_html(markdown@, original_html@),
{
    let rendered = render_markdown(markdown, MARKDOWN_EXTENSIONS);
    fit_paragraph(rendered.as_str(), original_html)
}

/// Law: where the original had a paragraph, rendered HTML keeps every one of its own.
pub proof fn law_paragraphs_of_the_original_are_kept(rendered: Seq<char>, original: Seq<char>)
    requires
        has_part(original, "<p"@),
    ensures
        fitted(rendered, original) == right_trimmed(rendered),
{
}

/// Law: fitting trims the end, and takes at most one paragraph off: one that is all the text, with
/// no other in it, where the original had none.
pub proof fn law_fitting_changes_nothing_else(rendered: Seq<char>, original: Seq<char>)
    ensures
        fitted(rendered, original) == right_trimmed(rendered) || (right_trimmed(rendered)
            == "<p>"@ + fitted(rendered, original) + "</p>"@ && !has_part(original, "<p"@)
            && !has_part(fitted(rendered, original), "<p>"@)),
{
    reveal_strlit("<p>");
    reveal_strlit("</p>");
    let html = right_trimmed(rendered);
    if let Some(inner) = single_paragraph(html) {
        let rest = html.skip(3);
        assert("</p>"@ =~= rest.subrange(rest.len() - 4, rest.len() as int));
        assert(rest =~= inner + "</p>"@);
        assert(html =~= html.subrange(0, 3) + rest);
        assert(html =~= "<p>"@ + inner + "</p>"@);
    }
}

/// Law: several paragraphs stay several paragraphs.
pub proof fn law_several_paragraphs_are_kept(inner: Seq<char>, original: Seq<char>)
    requires
        has_part(inner, "<p>"@),
    ensures
        fitted("<p>"@ + inner + "</p>"@, original) == "<p>"@ + inner + "</p>"@,
{
    reveal_strlit("<p>");
    reveal_strlit("</p>");
    let html = "<p>"@ + inner + "</p>"@;
    assert(html.last() == '>');
    assert(right_trimmed(html) == html);
    let rest = html.skip(3);
    assert(rest =~= inner + "</p>"@);
    assert(rest.take(rest.len() - 4) =~= inner);
}

/// Law: a request in HTML is translated as the Markdown that it was converted to, or as it is where
/// it cannot be converted; and what comes back is rendered with tables and strikethrough, then
/// fitted to the original.
pub proof fn law_html_goes_through_markdown(
    html: Seq<char>,
    markdown: Seq<char>,
    inner: Seq<char>,
)
    ensures
        htmd_conversion(html) == Some(markdown) ==> as_markdown(html) == markdown,
        htmd_conversion(html) is None ==> as_markdown(html) == html,
        cmark_html(markdown, 10) == "<p>"@ + inner + "</p>"@ + "\n"@ && !has_part(html, "<p"@)
            && !has_part(inner, "<p>"@) ==> as_html(markdown, html) == inner,
        has_part(html, "<p"@) ==> as_html(markdown, html) == right_trimmed(
            cmark_html(markdown, 10),
        ),
{
    if !has_part(html, "<p"@) && !has_part(inner, "<p>"@) {
        law_single_paragraph_is_unwrapped(inner, html);
    }
}

/// Law: where the original had no paragraph, a single paragraph around one line is taken off and
/// nothing else.
pub proof fn law_single_paragraph_is_unwrapped(inner: Seq<char>, original: Seq<char>)
    requires
        !has_part(original, "<p"@),
        !has_part(inner, "<p>"@),
    ensures
        fitted("<p>"@ + inner + "</p>"@ + "\n"@, original) == inner,
{
    reveal_strlit("<p>");
    reveal_strlit("</p>");
    reveal_strlit("\n");
    let html = "<p>"@ + inner + "</p>"@;
    let rendered = html + "\n"@;
    assert(rendered.drop_last() =~= html);
    assert(rendered.last() == '\n');
    assert(html.last() == '>');
    assert(right_trimmed(html) == html);
    assert(right_trimmed(rendered) == right_trimmed(rendered.drop_last()));
    let rest = html.skip(3);
    assert(rest =~= inner + "</p>"@);
    assert("<p>"@.is_prefix_of(html));
    assert("</p>"@.is_suffix_of(rest));
    assert(rest.take(rest.len() - 4) =~= inner);
}

} // verus!
