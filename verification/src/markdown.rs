//! Markdown to HTML, as a workload for instances.
use vstd::prelude::*;

verus! {

/// The HTML that the renderer gives for a markdown document.
pub uninterp spec fn rendered_html(markdown: Seq<char>) -> Seq<char>;

/// Calls `pulldown_cmark::Parser::new` on the text and
/// `pulldown_cmark::html::push_html` on the parser, with an empty buffer.
/// The contract claims only that the buffer then holds the renderer's HTML
/// for that text, which depends on the text alone.
#[verifier::external_body]
fn push_rendered(markdown: &str) -> (html: String)
    ensures
        html@ == rendered_html(markdown@),
{
    let parser = pulldown_cmark::Parser::new(markdown);
    let mut html = String::new();
    pulldown_cmark::html::push_html(&mut html, parser);
    html
}

/// Renders a markdown document as HTML.
pub fn markdown_to_html(markdown: &str) -> (html: String)
    ensures
        html@ == rendered_html(markdown@),
{
    push_rendered(markdown)
}

} // verus!
