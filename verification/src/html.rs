//! Anchor extraction: the one capability the crawl needs from an HTML
//! parser is "given markup, return the anchor href strings in document
//! order". The parsing is done by the `scraper` crate; this module names
//! its result, which is a pure function of the markup.

use vstd::prelude::*;

verus! {

/// The href attribute values of the anchor (`a`) elements of `markup`, in
/// document order, one entry per anchor that carries an href attribute.
pub uninterp spec fn anchors_of(markup: Seq<char>) -> Seq<Seq<char>>;

/// Relies on `scraper::Html::parse_document`, `Selector::parse`,
/// `Html::select` and `ElementRef::attr`: parsing a fixed markup string is
/// deterministic, `select` walks the document in order, and the selector
/// `"a"` is valid, so `Selector::parse` cannot fail on it.
#[verifier::external_body]
pub fn extract_anchor_hrefs(markup: &str) -> (r: Vec<String>)
    ensures
        r.deep_view() == anchors_of(markup@),
{
    let document = scraper::Html::parse_document(markup);
    let selector = scraper::Selector::parse("a").unwrap();
    document
        .select(&selector)
        .filter_map(|element| element.value().attr("href").map(|h| h.to_string()))
        .collect()
}

} // verus!
