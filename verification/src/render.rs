//! Markdown rendering. Converting a markup body to an HTML fragment is done
//! by the markdown converter; here it is a named, deterministic function of
//! the text, so everything downstream can speak about the rendered body
//! exactly.

use vstd::prelude::*;

verus! {

/// The HTML fragment the markdown converter produces for the given markup
/// text. The result depends on the text alone; its exact shape is the
/// converter's business and is not spelled out here.
pub uninterp spec fn html_of(s: Seq<char>) -> Seq<char>;

/// Relies on `pulldown_cmark::Parser::new` and
/// `pulldown_cmark::html::push_html`: converting markdown to an HTML
/// fragment is deterministic and total, a function of the text alone.
#[verifier::external_body]
fn markdown_to_html(text: &str) -> (r: String)
    ensures
        r@ == html_of(text@),
{
    let parser = pulldown_cmark::Parser::new(text);
    let mut html = String::new();
    pulldown_cmark::html::push_html(&mut html, parser);
    html
}

/// Render a markdown body to the HTML fragment shown for it.
pub fn render(text: &str) -> (r: String)
    ensures
        r@ == html_of(text@),
{
    markdown_to_html(text)
}

} // verus!
