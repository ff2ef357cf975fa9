//! HTML parsing, done by the scraper crate.
use vstd::prelude::*;

verus! {

/// The text nodes of `html` parsed as a fragment, in document order, as
/// scraper's `Html::parse_fragment(html).root_element().text()` yields them.
pub uninterp spec fn fragment_text_nodes(html: Seq<char>) -> Seq<Seq<char>>;

/// Calls `scraper::Html::parse_fragment` and collects the text nodes of the
/// root element.  Trusted: the result is `fragment_text_nodes(html)`.
#[verifier::external_body]
pub fn text_nodes(html: &str) -> (r: Vec<String>)
    ensures
        r.deep_view() == fragment_text_nodes(html@),
{
    let doc = scraper::Html::parse_fragment(html);
    let nodes: Vec<String> = doc.root_element().text().map(|t| t.to_string()).collect();
    nodes
}

/// The `attr` attribute of the first element of the document `html` that
/// `selector` selects, as scraper finds it (`None` when the selector does
/// not parse, nothing matches, or the element lacks the attribute).
pub uninterp spec fn first_attr(html: Seq<char>, selector: Seq<char>, attr: Seq<char>) -> Option<
    Seq<char>,
>;

/// Calls `scraper::Html::parse_document`, `Selector::parse` and
/// `select(..).next()`, then reads the attribute.  Trusted: the result is
/// `first_attr(html, selector, attr)`.
#[verifier::external_body]
pub fn select_attr(html: &str, selector: &str, attr: &str) -> (r: Option<String>)
    ensures
        r.deep_view() == first_attr(html@, selector@, attr@),
{
    let doc = scraper::Html::parse_document(html);
    let sel = scraper::Selector::parse(selector).ok()?;
    doc.select(&sel).next().and_then(|el| el.value().attr(attr).map(|s| s.to_string()))
}

} // verus!
