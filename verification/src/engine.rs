//! The crawl engine: the dispatch state machine tying the frontier, the
//! visited guard, the permit budget and the search index together.
//!
//! The engine is a sequential state machine; the caller owns the actual
//! concurrency. It serializes access to the engine, performs one fetch per
//! dispatched URL, and hands the outcome back through `on_fetch_success` or
//! `on_fetch_failure`. Every decision — dispatch order, deduplication, the
//! permit bound, id assignment, link expansion — is made here, under
//! contract.

use vstd::prelude::*;
use crate::frontier::Frontier;
use crate::indexer::SearchIndex;
use crate::page::{Page, title_words, body_words};
use crate::urlnorm::{normalize, normalized_links, normalize_spec};
use crate::visited::VisitedSet;

verus! {

/// What the dispatch loop should do next.
pub enum DispatchStep {
    /// Fetch this URL on a fresh worker; a permit has been taken for it.
    Dispatch(String),
    /// This URL was already visited; it is dropped without a fetch.
    Discard(String),
    /// All permits are in use, or only in-flight workers can produce more
    /// work: wait for a worker to finish, then poll again.
    AwaitWorker,
    /// The frontier is empty and no worker is in flight: the run is over.
    Finished,
}

/// The crawl engine's entire state. The `dispatched` history is ghost: it
/// records every URL ever handed to a worker, so the no-duplicate-dispatch
/// guarantee can be stated over it.
pub struct Crawler {
    pub visited: VisitedSet,
    pub frontier: Frontier,
    pub index: SearchIndex,
    pub in_flight: usize,
    pub concurrency: usize,
    pub dequeued: usize,
    pub dispatched: Ghost<Seq<Seq<char>>>,
}

impl Crawler {
    /// The engine's invariant: the permit bound holds, the index ids are
    /// dense, no URL was ever dispatched twice, and every dispatched URL is
    /// marked visited (visited membership is append-only, which is what
    /// keeps the history duplicate-free).
    pub open spec fn wf(&self) -> bool {
        &&& self.in_flight <= self.concurrency
        &&& self.concurrency >= 1
        &&& self.index.wf()
        &&& self.dispatched@.no_duplicates()
        &&& forall|i: int|
            0 <= i < self.dispatched@.len() ==> self.visited@.contains(#[trigger] self.dispatched@[i])
    }

    /// A fresh engine: the seed URL is enqueued unconditionally (it bypasses
    /// the visited guard, so the run always attempts at least one fetch).
    pub fn new(seed: String, concurrency: usize) -> (c: Self)
        requires
            concurrency >= 1,
        ensures
            c.wf(),
            c.frontier@ == seq![seed@],
            c.visited@ == Set::<Seq<char>>::empty(),
            c.index.docs() == crate::indexer::no_docs(),
            c.index.doc_count() == 0,
            c.in_flight == 0,
            c.concurrency == concurrency,
            c.dequeued == 0,
            c.dispatched@ == Seq::<Seq<char>>::empty(),
    {
        let mut frontier = Frontier::new();
        frontier.push(seed);
        proof {
            assert(frontier@ =~= seq![frontier@[0]]);
        }
        Crawler {
            visited: VisitedSet::new(),
            frontier,
            index: SearchIndex::new(),
            in_flight: 0,
            concurrency,
            dequeued: 0,
            dispatched: Ghost(Seq::empty()),
        }
    }

    /// One step of the dispatch loop: pop the front URL when a permit is
    /// free, discard it if already visited, otherwise mark it and hand it to
    /// a worker; report `AwaitWorker` while progress needs a worker to
    /// finish, and `Finished` exactly when the frontier is empty and nothing
    /// is in flight.
    pub fn poll_dispatch(&mut self) -> (step: DispatchStep)
        requires
            old(self).wf(),
            old(self).dequeued < usize::MAX,
        ensures
            final(self).wf(),
            final(self).concurrency == old(self).concurrency,
            final(self).index == old(self).index,
            final(self).dispatched@.len() >= old(self).dispatched@.len(),
            match step {
                DispatchStep::Dispatch(url) => {
                    &&& old(self).frontier@.len() > 0
                    &&& old(self).in_flight < old(self).concurrency
                    &&& url@ == old(self).frontier@[0]
                    &&& !old(self).visited@.contains(url@)
                    &&& final(self).frontier@ == old(self).frontier@.drop_first()
                    &&& final(self).visited@ == old(self).visited@.insert(url@)
                    &&& final(self).in_flight == old(self).in_flight + 1
                    &&& final(self).dequeued == old(self).dequeued + 1
                    &&& final(self).dispatched@ == old(self).dispatched@.push(url@)
                },
                DispatchStep::Discard(url) => {
                    &&& old(self).frontier@.len() > 0
                    &&& old(self).in_flight < old(self).concurrency
                    &&& url@ == old(self).frontier@[0]
                    &&& old(self).visited@.contains(url@)
                    &&& final(self).frontier@ == old(self).frontier@.drop_first()
                    &&& final(self).visited@ == old(self).visited@
                    &&& final(self).in_flight == old(self).in_flight
                    &&& final(self).dequeued == old(self).dequeued + 1
                    &&& final(self).dispatched@ == old(self).dispatched@
                },
                DispatchStep::AwaitWorker => {
                    &&& (old(self).frontier@.len() > 0 && old(self).in_flight
                        == old(self).concurrency) || (old(self).frontier@.len() == 0
                        && old(self).in_flight > 0)
                    &&& *final(self) == *old(self)
                },
                DispatchStep::Finished => {
                    &&& old(self).frontier@.len() == 0
                    &&& old(self).in_flight == 0
                    &&& *final(self) == *old(self)
                },
            },
    {
        if self.frontier.len() == 0 {
            if self.in_flight == 0 {
                DispatchStep::Finished
            } else {
                DispatchStep::AwaitWorker
            }
        } else if self.in_flight == self.concurrency {
            DispatchStep::AwaitWorker
        } else {
            let url = match self.frontier.pop() {
                Some(u) => u,
                None => unreached(),
            };
            self.dequeued = self.dequeued + 1;
            let already = self.visited.check_and_mark(&url);
            if already {
                proof {
                    assert(old(self).visited@.insert(url@) =~= old(self).visited@);
                }
                DispatchStep::Discard(url)
            } else {
                self.in_flight = self.in_flight + 1;
                proof {
                    assert forall|i: int| 0 <= i < self.dispatched@.len()
                        implies self.dispatched@[i] != url@ by {
                        assert(old(self).visited@.contains(self.dispatched@[i]));
                    }
                }
                let ghost history = self.dispatched@;
                self.dispatched = Ghost(history.push(url@));
                DispatchStep::Dispatch(url)
            }
        }
    }

    /// A worker finished its URL successfully: the page is filed in the
    /// index under the next id (id assignment and insertion are one step),
    /// every outbound href is normalized against the worker's own URL, the
    /// fetchable ones are enqueued in document order, and the permit is
    /// released. The visited guard is untouched.
    pub fn on_fetch_success(&mut self, url: &str, page: &Page) -> (id: usize)
        requires
            old(self).wf(),
            old(self).in_flight >= 1,
            old(self).index.doc_count() < usize::MAX,
        ensures
            final(self).wf(),
            id as int == old(self).index.doc_count(),
            final(self).index.doc_count() == old(self).index.doc_count() + 1,
            final(self).index.docs() == old(self).index.docs().insert(
                id as int,
                (title_words(*page), body_words(*page)),
            ),
            final(self).frontier@ == old(self).frontier@ + normalized_links(
                url@,
                page.hrefs.deep_view(),
            ),
            final(self).in_flight == old(self).in_flight - 1,
            final(self).visited@ == old(self).visited@,
            final(self).dequeued == old(self).dequeued,
            final(self).dispatched@ == old(self).dispatched@,
            final(self).concurrency == old(self).concurrency,
    {
        let id = self.index.insert(page);
        let ghost base = url@;
        let ghost hrefs = page.hrefs.deep_view();
        let ghost start = self.frontier@;
        let ghost index1 = self.index;
        let n = page.hrefs.len();
        let mut i: usize = 0;
        proof {
            assert(hrefs.skip(0) =~= hrefs);
        }
        while i < n
            invariant
                i <= n,
                n == hrefs.len(),
                hrefs == page.hrefs.deep_view(),
                base == url@,
                self.index == index1,
                self.in_flight == old(self).in_flight,
                self.concurrency == old(self).concurrency,
                self.visited == old(self).visited,
                self.dequeued == old(self).dequeued,
                self.dispatched == old(self).dispatched,
                start + normalized_links(base, hrefs) =~= self.frontier@ + normalized_links(
                    base,
                    hrefs.skip(i as int),
                ),
            decreases n - i,
        {
            let ghost before = self.frontier@;
            let ghost tail = hrefs.skip(i as int);
            proof {
                assert(tail.len() > 0);
                assert(tail[0] == hrefs[i as int]);
                assert(tail.drop_first() =~= hrefs.skip(i + 1));
            }
            match normalize(url, page.hrefs[i].as_str()) {
                Some(link) => {
                    proof {
                        assert(normalize_spec(base, tail[0]) == Some(link@));
                        assert(normalized_links(base, tail) =~= seq![link@]
                            + normalized_links(base, hrefs.skip(i + 1)));
                    }
                    self.frontier.push(link);
                    proof {
                        assert(before + normalized_links(base, tail) =~= self.frontier@
                            + normalized_links(base, hrefs.skip(i + 1)));
                    }
                },
                None => {
                    proof {
                        assert(normalize_spec(base, tail[0]) is None);
                        assert(normalized_links(base, tail) =~= normalized_links(
                            base,
                            hrefs.skip(i + 1),
                        ));
                    }
                },
            }
            i = i + 1;
        }
        proof {
            assert(hrefs.skip(n as int) =~= Seq::<Seq<char>>::empty());
            assert(normalized_links(base, hrefs.skip(n as int)) =~= Seq::<Seq<char>>::empty());
            assert(self.frontier@ =~= start + normalized_links(base, hrefs));
        }
        self.in_flight = self.in_flight - 1;
        id
    }

    /// A worker failed its URL: the attempt is abandoned, the URL stays
    /// marked visited (it is never retried), nothing is indexed or enqueued,
    /// and the permit is released.
    pub fn on_fetch_failure(&mut self)
        requires
            old(self).wf(),
            old(self).in_flight >= 1,
        ensures
            final(self).wf(),
            final(self).in_flight == old(self).in_flight - 1,
            final(self).frontier@ == old(self).frontier@,
            final(self).visited@ == old(self).visited@,
            final(self).index == old(self).index,
            final(self).dequeued == old(self).dequeued,
            final(self).dispatched@ == old(self).dispatched@,
            final(self).concurrency == old(self).concurrency,
    {
        self.in_flight = self.in_flight - 1;
    }
}

/// No duplicate dispatch: the dispatch history of a well-formed engine holds
/// each canonical URL at most once, and every dispatched URL is marked
/// visited. Since `poll_dispatch` only dispatches URLs not yet visited and
/// membership is append-only, a URL discovered over any number of paths is
/// fetched at most once per run.
pub proof fn lemma_no_duplicate_dispatch(c: &Crawler)
    requires
        c.wf(),
    ensures
        c.dispatched@.no_duplicates(),
        forall|i: int|
            0 <= i < c.dispatched@.len() ==> c.visited@.contains(#[trigger] c.dispatched@[i]),
{
}

/// Bounded concurrency: a well-formed engine never has more workers in
/// flight than the configured concurrency, and `poll_dispatch` only
/// dispatches while strictly below the bound.
pub proof fn lemma_bounded_concurrency(c: &Crawler)
    requires
        c.wf(),
    ensures
        c.in_flight <= c.concurrency,
{
}

} // verus!
