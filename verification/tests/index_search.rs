use rseek::indexer::SearchIndex;
use rseek::page::Page;

fn page(title: &str, body: &str) -> Page {
    Page {
        title: Some(String::from(title)),
        content: String::from(body),
        hrefs: Vec::new(),
    }
}

#[test]
fn ids_are_assigned_densely_from_zero() {
    let mut ix = SearchIndex::new();
    assert_eq!(ix.len(), 0);
    assert_eq!(ix.insert(&page("a", "x")), 0);
    assert_eq!(ix.insert(&page("b", "y")), 1);
    assert_eq!(ix.insert(&page("c", "z")), 2);
    assert_eq!(ix.len(), 3);
}

#[test]
fn unique_title_term_returns_that_document_first_with_nonzero_score() {
    let mut ix = SearchIndex::new();
    ix.insert(&page("alpha news", "shared words here"));
    let target = ix.insert(&page("zebra report", "shared words here"));
    ix.insert(&page("gamma digest", "shared words here"));
    let hits = ix.query("zebra");
    assert_eq!(hits.len(), 1);
    assert_eq!(hits[0].doc, target);
    let score: f64 = hits[0].score_text.parse().unwrap();
    assert!(score > 0.0);
}

#[test]
fn term_in_no_document_returns_nothing() {
    let mut ix = SearchIndex::new();
    ix.insert(&page("alpha", "one two"));
    ix.insert(&page("beta", "three four"));
    assert!(ix.query("missing").is_empty());
}

#[test]
fn query_is_answered_against_everything_inserted_so_far() {
    let mut ix = SearchIndex::new();
    ix.insert(&page("first", "aardvark"));
    assert_eq!(ix.query("aardvark").len(), 1);
    ix.insert(&page("second", "aardvark"));
    let hits = ix.query("aardvark");
    assert_eq!(hits.len(), 2);
    let mut docs: Vec<usize> = hits.iter().map(|h| h.doc).collect();
    docs.sort();
    assert_eq!(docs, vec![0, 1]);
}

#[test]
fn body_terms_are_searchable_too() {
    let mut ix = SearchIndex::new();
    let id = ix.insert(&page("title only", "unusualbodyterm appears"));
    let hits = ix.query("unusualbodyterm");
    assert_eq!(hits.len(), 1);
    assert_eq!(hits[0].doc, id);
}

#[test]
fn query_terms_expand_by_prefix_over_indexed_terms() {
    let mut ix = SearchIndex::new();
    let id = ix.insert(&page("apple", "fruit"));
    let hits = ix.query("app");
    assert_eq!(hits.len(), 1);
    assert_eq!(hits[0].doc, id);
}

#[test]
fn untitled_page_is_found_by_body_alone() {
    let mut ix = SearchIndex::new();
    let untitled = Page {
        title: None,
        content: String::from("quiet page"),
        hrefs: Vec::new(),
    };
    let id = ix.insert(&untitled);
    let hits = ix.query("quiet");
    assert_eq!(hits.len(), 1);
    assert_eq!(hits[0].doc, id);
}
