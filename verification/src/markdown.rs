//! The content transformer: markdown text to an HTML fragment.
//!
//! The HTML is inserted into pages without sanitization: authors of course
//! documents are trusted. The rendering itself is done by an outside library;
//! the library's contracts speak of it through [`html_of_markdown`].

use vstd::prelude::*;

verus! {

/// The HTML fragment rendered for a markdown text; a function of the text
/// alone.
pub uninterp spec fn html_of_markdown(md: Seq<char>) -> Seq<char>;

/// Relies on pulldown_cmark's `Parser::new` and `html::push_html`: the HTML
/// rendered for a markdown text, with the default options, depends on that
/// text alone.
#[verifier::external_body]
pub(crate) fn render_markdown(md: &str) -> (r: String)
    ensures
        r@ == html_of_markdown(md@),
{
    let parser = pulldown_cmark::Parser::new(md);
    let mut html = String::new();
    pulldown_cmark::html::push_html(&mut html, parser);
    html
}

} // verus!
