//! The visited guard: the sole source of truth for "already enqueued".
//!
//! Membership is append-only for the lifetime of a crawl run, and the check
//! and the insert are one indivisible step, so two callers racing on the
//! same URL can never both observe "not visited".

use vstd::prelude::*;

verus! {

/// The set of canonical URLs already handed to a worker or discarded.
pub struct VisitedSet {
    urls: Vec<String>,
}

impl View for VisitedSet {
    type V = Set<Seq<char>>;

    /// The set of URL character sequences this guard has marked.
    closed spec fn view(&self) -> Set<Seq<char>> {
        Set::new(|s: Seq<char>| exists|i: int| 0 <= i < self.urls@.len() && self.urls@[i]@ == s)
    }
}

impl VisitedSet {
    /// An empty guard: nothing is marked yet.
    pub fn new() -> (v: Self)
        ensures
            v@ == Set::<Seq<char>>::empty(),
    {
        let v = VisitedSet { urls: Vec::new() };
        proof {
            assert(v@ =~= Set::<Seq<char>>::empty());
        }
        v
    }

    /// The one indivisible test-and-set step: reports whether the URL was
    /// already marked, and marks it either way. Marking an already-marked
    /// URL leaves the set unchanged, so the step is idempotent.
    pub fn check_and_mark(&mut self, url: &String) -> (already: bool)
        ensures
            already == old(self)@.contains(url@),
            final(self)@ == old(self)@.insert(url@),
    {
        let n = self.urls.len();
        let mut i: usize = 0;
        while i < n
            invariant
                i <= n,
                n == self.urls@.len(),
                forall|j: int| 0 <= j < i ==> self.urls@[j]@ != url@,
            decreases n - i,
        {
            if self.urls[i].eq(url) {
                proof {
                    assert(self@.contains(url@));
                    assert(self@ =~= self@.insert(url@));
                }
                return true;
            }
            i = i + 1;
        }
        proof {
            assert(!self@.contains(url@));
        }
        let ghost before = self@;
        self.urls.push(url.clone());
        proof {
            assert(self@ =~= before.insert(url@)) by {
                assert(forall|s: Seq<char>| #[trigger] before.insert(url@).contains(s)
                    ==> self@.contains(s)) by {
                    assert(self.urls@[self.urls@.len() - 1]@ == url@);
                    assert(forall|k: int| 0 <= k < self.urls@.len() - 1
                        ==> self.urls@[k] == old(self).urls@[k]);
                };
            }
        }
        false
    }

}

/// Idempotent visited marking: once a URL is in the set, marking it again
/// reports it as already visited and leaves the set unchanged. Together with
/// the contract of `check_and_mark` this says that of any sequence of marks
/// of one URL, exactly the first reports "newly marked".
pub proof fn lemma_mark_idempotent(s: Set<Seq<char>>, url: Seq<char>)
    ensures
        s.insert(url).contains(url),
        s.insert(url).insert(url) == s.insert(url),
{
    assert(s.insert(url).insert(url) =~= s.insert(url));
}

} // verus!
