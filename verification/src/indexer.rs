//! The search index adapter: incremental insertion of pages and ranked
//! query over whatever has been inserted so far.
//!
//! The inverted index and the BM25-family scorer live in the `probly_search`
//! crate. Its index is held behind a declared outside type whose contents
//! are named by `index_docs`; the wrappers state, over that name, what the
//! crate's own source shows of `add_document` and `query`.

use vstd::prelude::*;
use crate::page::{Page, extract_title, extract_content, title_words, body_words};
use crate::text::words_of;

verus! {

#[verifier::external_type_specification]
#[verifier::external_body]
#[verifier::reject_recursive_types(T)]
pub struct ExIndex<T>(probly_search::Index<T>);

/// The tokens a document was filed under: its non-empty title tokens and its
/// non-empty body tokens.
pub type DocTokens = (Seq<Seq<char>>, Seq<Seq<char>>);

/// What the index holds: for each document key, the tokens it was filed
/// under.
pub uninterp spec fn index_docs(ix: probly_search::Index<usize>) -> Map<int, DocTokens>;

/// The contents of an index holding nothing.
pub open spec fn no_docs() -> Map<int, DocTokens> {
    Map::empty()
}

/// One ranked query hit: the document key and its relevance score, the
/// latter rendered as text since its exact value is the scorer's business.
pub struct SearchHit {
    pub doc: usize,
    pub score_text: String,
}

/// Whether a document with the given title and body tokens is a hit for the
/// query: some non-empty query token is a prefix of some token of the
/// document. (The scorer expands every query term over the indexed terms
/// that extend it.)
pub open spec fn doc_matches(doc: DocTokens, q: Seq<char>) -> bool {
    exists|qt: Seq<char>, t: Seq<char>|
        words_of(q).contains(qt) && (doc.0.contains(t) || doc.1.contains(t)) && qt.is_prefix_of(t)
}

/// Relies on `probly_search::Index::new`: a fresh index holds no documents.
#[verifier::external_body]
fn index_new() -> (ix: probly_search::Index<usize>)
    ensures
        index_docs(ix) == no_docs(),
{
    probly_search::Index::new(2)
}

/// Relies on `probly_search::Index::add_document`: it applies each field
/// accessor to the document, tokenizes every field value with the given
/// tokenizer, ignores empty tokens, and files the document under the given
/// key. With the extractors and the whitespace tokenizer of this crate, the
/// document is filed under its non-empty title and body tokens. The key must
/// be fresh: re-filing a key would leave its old term pointers in the
/// inverted index beside the new ones.
#[verifier::external_body]
fn index_add(ix: &mut probly_search::Index<usize>, id: usize, page: &Page)
    requires
        !index_docs(*old(ix)).contains_key(id as int),
    ensures
        index_docs(*final(ix)) == index_docs(*old(ix)).insert(
            id as int,
            (title_words(*page), body_words(*page)),
        ),
{
    ix.add_document(
        &[extract_title, extract_content],
        crate::text::tokenizer,
        id,
        page,
    );
}

/// Relies on `probly_search::Index::query` with the BM25 scorer and equal
/// positive field weights: every query token is expanded over the indexed
/// terms extending it, every document holding such a term receives a
/// positive score and is collected once, no other document is collected, and
/// the hits are then ordered by descending score. Which hit comes first
/// among equal scores is left open here, as the crate orders those by an
/// internal iteration order.
#[verifier::external_body]
fn index_query(ix: &probly_search::Index<usize>, q: &str) -> (r: Vec<SearchHit>)
    ensures
        forall|a: int, b: int| 0 <= a < b < r@.len() ==> r@[a].doc != r@[b].doc,
        forall|a: int|
            0 <= a < r@.len() ==> index_docs(*ix).contains_key(#[trigger] r@[a].doc as int)
                && doc_matches(index_docs(*ix)[r@[a].doc as int], q@),
        forall|id: int|
            index_docs(*ix).contains_key(id) && doc_matches(#[trigger] index_docs(*ix)[id], q@)
                ==> exists|a: int| 0 <= a < r@.len() && #[trigger] r@[a].doc == id,
{
    let hits = ix.query(
        q,
        &mut probly_search::score::bm25::new(),
        crate::text::tokenizer,
        &[1u8.into(), 1u8.into()],
    );
    hits.into_iter()
        .map(|h| SearchHit { doc: h.key, score_text: format!("{}", h.score) })
        .collect()
}

/// Index round trip, first direction: a hit list meeting the query contract
/// for a query that exactly one indexed document matches holds exactly that
/// document, so it comes first.
pub proof fn lemma_query_unique_match(
    docs: Map<int, DocTokens>,
    q: Seq<char>,
    hits: Seq<SearchHit>,
    id: int,
)
    requires
        forall|a: int, b: int| 0 <= a < b < hits.len() ==> hits[a].doc != hits[b].doc,
        forall|a: int|
            0 <= a < hits.len() ==> docs.contains_key(#[trigger] hits[a].doc as int)
                && doc_matches(docs[hits[a].doc as int], q),
        forall|d: int|
            docs.contains_key(d) && doc_matches(#[trigger] docs[d], q) ==> exists|a: int|
                0 <= a < hits.len() && #[trigger] hits[a].doc == d,
        docs.contains_key(id),
        doc_matches(docs[id], q),
        forall|d: int| docs.contains_key(d) && doc_matches(#[trigger] docs[d], q) ==> d == id,
    ensures
        hits.len() == 1,
        hits[0].doc == id,
{
    assert(exists|a: int| 0 <= a < hits.len() && #[trigger] hits[a].doc == id);
    let a = choose|a: int| 0 <= a < hits.len() && #[trigger] hits[a].doc == id;
    assert forall|b: int| 0 <= b < hits.len() implies hits[b].doc == id by {
        assert(docs.contains_key(hits[b].doc as int) && doc_matches(docs[hits[b].doc as int], q));
    }
    if hits.len() > 1 {
        assert(hits[0].doc == id && hits[1].doc == id);
    }
}

/// Index round trip, second direction: a hit list meeting the query contract
/// for a query that no indexed document matches is empty.
pub proof fn lemma_query_no_match(docs: Map<int, DocTokens>, q: Seq<char>, hits: Seq<SearchHit>)
    requires
        forall|a: int|
            0 <= a < hits.len() ==> docs.contains_key(#[trigger] hits[a].doc as int)
                && doc_matches(docs[hits[a].doc as int], q),
        forall|d: int| docs.contains_key(d) ==> !doc_matches(#[trigger] docs[d], q),
    ensures
        hits.len() == 0,
{
    if hits.len() > 0 {
        assert(docs.contains_key(hits[0].doc as int) && doc_matches(docs[hits[0].doc as int], q));
    }
}

/// The live, cumulative search index: documents are inserted one at a time
/// under monotonically increasing ids, and a query is answered against
/// everything inserted so far.
pub struct SearchIndex {
    index: probly_search::Index<usize>,
    count: usize,
}

impl SearchIndex {
    /// The indexed documents, by id.
    pub closed spec fn docs(&self) -> Map<int, DocTokens> {
        index_docs(self.index)
    }

    /// How many documents have been inserted; also the next id to assign.
    pub closed spec fn doc_count(&self) -> int {
        self.count as int
    }

    /// Ids are assigned densely from zero: exactly the ids below the count
    /// are filed.
    pub open spec fn wf(&self) -> bool {
        forall|id: int| #[trigger] self.docs().contains_key(id) <==> 0 <= id < self.doc_count()
    }

    /// An empty index.
    pub fn new() -> (s: Self)
        ensures
            s.wf(),
            s.docs() == no_docs(),
            s.doc_count() == 0,
    {
        SearchIndex { index: index_new(), count: 0 }
    }

    /// How many documents have been inserted.
    pub fn len(&self) -> (n: usize)
        ensures
            n == self.doc_count(),
    {
        self.count
    }

    /// Assigns the next document id and files the page under it, as one
    /// step: no id is ever assigned without its document being indexed.
    pub fn insert(&mut self, page: &Page) -> (id: usize)
        requires
            old(self).wf(),
            old(self).doc_count() < usize::MAX,
        ensures
            final(self).wf(),
            id as int == old(self).doc_count(),
            final(self).doc_count() == old(self).doc_count() + 1,
            final(self).docs() == old(self).docs().insert(
                id as int,
                (title_words(*page), body_words(*page)),
            ),
    {
        let id = self.count;
        proof {
            assert(!self.docs().contains_key(id as int));
        }
        index_add(&mut self.index, id, page);
        self.count = self.count + 1;
        proof {
            assert forall|d: int| #[trigger] self.docs().contains_key(d)
                <==> 0 <= d < self.doc_count() by {
                if d != id as int {
                    assert(self.docs().contains_key(d) == old(self).docs().contains_key(d));
                }
            }
        }
        id
    }

    /// Answers the query against everything inserted so far: the hits are
    /// exactly the documents some of whose tokens extend a query token, each
    /// listed once, ordered by the scorer.
    pub fn query(&self, q: &str) -> (r: Vec<SearchHit>)
        ensures
            forall|a: int, b: int| 0 <= a < b < r@.len() ==> r@[a].doc != r@[b].doc,
            forall|a: int|
                0 <= a < r@.len() ==> self.docs().contains_key(#[trigger] r@[a].doc as int)
                    && doc_matches(self.docs()[r@[a].doc as int], q@),
            forall|id: int|
                self.docs().contains_key(id) && doc_matches(#[trigger] self.docs()[id], q@)
                    ==> exists|a: int| 0 <= a < r@.len() && #[trigger] r@[a].doc == id,
    {
        index_query(&self.index, q)
    }
}

} // verus!
