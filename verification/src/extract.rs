//! Extraction of internal article links from a fetched page body.
//!
//! The HTML parsing itself is done by the `scraper` crate; the library only
//! names its result and builds verified logic on top of it.

use vstd::prelude::*;
use crate::classifier::is_prefix;

verus! {

/// The internal-article links that the HTML document `html` yields: the
/// `href` values, in document order, of every anchor element whose `href`
/// attribute begins with `/wiki/`.
pub uninterp spec fn wiki_links_of(html: Seq<char>) -> Seq<Seq<char>>;

/// Relies on scraper's `Selector::parse`, `Html::parse_document`,
/// `Html::select` and `Element::attr`: parsing is lenient and total (it
/// never fails, whatever the text), `Selector::parse` accepts the fixed
/// well-formed selector below, and the CSS prefix selector
/// `a[href^='/wiki/']` matches exactly the anchor elements whose `href`
/// attribute value begins with `/wiki/`, walked in document order. The
/// result is a function of the document text alone.
#[verifier::external_body]
pub(crate) fn extract_wiki_links(html: &str) -> (r: Vec<String>)
    ensures
        r.deep_view() == wiki_links_of(html@),
        forall|i: int| 0 <= i < r.deep_view().len() ==> is_prefix("/wiki/"@, r.deep_view()[i]),
{
    let selector = scraper::Selector::parse("a[href^='/wiki/']").unwrap();
    let document = scraper::Html::parse_document(html);
    document
        .select(&selector)
        .flat_map(|element| element.value().attr("href"))
        .map(|link| link.to_owned())
        .collect()
}

} // verus!
