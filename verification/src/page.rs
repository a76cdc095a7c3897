//! The page extractor: turns raw HTML text into a structured page record
//! holding the title, the visible body text, and the raw outbound hrefs.
//!
//! The HTML-to-DOM work is done by the `scraper` crate behind trusted
//! wrappers; each wrapper's result is a function of the HTML text alone and
//! is given a name that the contracts of this module speak of.

use vstd::prelude::*;
use crate::text::{starts_with, words_of};

verus! {

/// The text content of the first `title` element of the HTML document, or
/// `None` when no such element exists.
pub uninterp spec fn html_title(html: Seq<char>) -> Option<Seq<char>>;

/// The text nodes under every `body` element of the HTML document, in
/// document order, joined with single spaces; empty when there is no body.
pub uninterp spec fn html_body_text(html: Seq<char>) -> Seq<char>;

/// The raw `href` attribute value of every anchor element of the HTML
/// document that declares one, in document order, neither filtered nor
/// normalized.
pub uninterp spec fn html_hrefs(html: Seq<char>) -> Seq<Seq<char>>;

/// Relies on `scraper::Html::parse_document` and `Selector::parse("title")`:
/// the text content of the first selected `title` element depends on the
/// HTML text alone, and parsing never fails (malformed markup yields a
/// repaired tree, never an error).
#[verifier::external_body]
fn scrape_title(html: &str) -> (r: Option<String>)
    ensures
        r.deep_view() == html_title(html@),
{
    let document = scraper::Html::parse_document(html);
    let selector = scraper::Selector::parse("title").unwrap();
    document.select(&selector).next().map(|element| element.text().collect::<String>())
}

/// Relies on `scraper::Html::parse_document` and `Selector::parse("body")`:
/// the text nodes under the selected `body` elements depend on the HTML text
/// alone, and parsing never fails.
#[verifier::external_body]
fn scrape_body_text(html: &str) -> (r: String)
    ensures
        r@ == html_body_text(html@),
{
    let document = scraper::Html::parse_document(html);
    let selector = scraper::Selector::parse("body").unwrap();
    document
        .select(&selector)
        .flat_map(|element| element.text())
        .collect::<Vec<_>>()
        .join(" ")
}

/// Relies on `scraper::Html::parse_document` and `Selector::parse("a")`:
/// the `href` attribute values of the selected anchor elements depend on the
/// HTML text alone, and parsing never fails.
#[verifier::external_body]
fn scrape_hrefs(html: &str) -> (r: Vec<String>)
    ensures
        r.deep_view() == html_hrefs(html@),
{
    let document = scraper::Html::parse_document(html);
    let selector = scraper::Selector::parse("a").unwrap();
    document
        .select(&selector)
        .filter_map(|element| element.value().attr("href").map(|s| s.to_string()))
        .collect()
}

/// Holds of hrefs that already carry an explicit `http` scheme prefix
/// (which covers `https` as well).
pub open spec fn http_href_pred() -> spec_fn(Seq<char>) -> bool {
    |h: Seq<char>| seq!['h', 't', 't', 'p'].is_prefix_of(h)
}

/// The anchor hrefs of the document that already carry an explicit
/// `http`-scheme prefix, in document order.
pub fn parse_links(html: &str) -> (r: Vec<String>)
    ensures
        r.deep_view() == html_hrefs(html@).filter(http_href_pred()),
{
    let hrefs = scrape_hrefs(html);
    let ghost all = html_hrefs(html@);
    let mut r: Vec<String> = Vec::new();
    let mut i: usize = 0;
    proof {
        reveal_strlit("http");
        assert("http"@ =~= seq!['h', 't', 't', 'p']);
        reveal(Seq::filter);
        assert(all.take(0) =~= Seq::<Seq<char>>::empty());
        assert(r.deep_view() =~= all.take(0).filter(http_href_pred()));
    }
    while i < hrefs.len()
        invariant
            i <= hrefs.len(),
            hrefs.deep_view() == all,
            "http"@ == seq!['h', 't', 't', 'p'],
            r.deep_view() == all.take(i as int).filter(http_href_pred()),
        decreases hrefs.len() - i,
    {
        let ghost r0 = r.deep_view();
        let h = &hrefs[i];
        if starts_with(h.as_str(), "http") {
            r.push(h.clone());
        }
        proof {
            reveal(Seq::filter);
            assert(all.take(i + 1).drop_last() =~= all.take(i as int));
            assert(all.take(i + 1).last() == all[i as int]);
            if http_href_pred()(all[i as int]) {
                assert(r.deep_view() =~= r0.push(all[i as int]));
            }
            assert(r.deep_view() =~= all.take(i + 1).filter(http_href_pred()));
        }
        i = i + 1;
    }
    proof {
        assert(all.take(hrefs@.len() as int) =~= all);
    }
    r
}

/// One crawled page: the title (if any), the visible body text, and the raw
/// outbound hrefs, exactly as extracted from the HTML.
pub struct Page {
    pub title: Option<String>,
    pub content: String,
    pub hrefs: Vec<String>,
}

impl Page {
    /// Extracts the structured page record from raw HTML text.
    pub fn new(html: String) -> (p: Self)
        ensures
            p.title.deep_view() == html_title(html@),
            p.content@ == html_body_text(html@),
            p.hrefs.deep_view() == html_hrefs(html@),
    {
        Self {
            title: scrape_title(html.as_str()),
            content: scrape_body_text(html.as_str()),
            hrefs: scrape_hrefs(html.as_str()),
        }
    }
}

/// The tokens the index files under the title field of a page: the non-empty
/// whitespace tokens of the title, or none when the page has no title.
pub open spec fn title_words(p: Page) -> Seq<Seq<char>> {
    match p.title {
        Some(t) => words_of(t@),
        None => Seq::<Seq<char>>::empty(),
    }
}

/// The tokens the index files under the body field of a page.
pub open spec fn body_words(p: Page) -> Seq<Seq<char>> {
    words_of(p.content@)
}

/// The title field handed to the search index: one value when the page has a
/// title, none otherwise.
pub fn extract_title<'a>(p: &'a Page) -> (r: Vec<&'a str>)
    ensures
        r.deep_view() == match p.title {
            Some(t) => seq![t@],
            None => Seq::<Seq<char>>::empty(),
        },
{
    match &p.title {
        Some(title) => {
            let mut v: Vec<&str> = Vec::new();
            v.push(title.as_str());
            proof {
                assert(v.deep_view() =~= seq![title@]);
            }
            v
        },
        None => Vec::new(),
    }
}

/// The body field handed to the search index: the page's visible text.
pub fn extract_content<'a>(p: &'a Page) -> (r: Vec<&'a str>)
    ensures
        r.deep_view() == seq![p.content@],
{
    let mut v: Vec<&str> = Vec::new();
    v.push(p.content.as_str());
    proof {
        assert(v.deep_view() =~= seq![p.content@]);
    }
    v
}

} // verus!
