//! The frontier: the FIFO queue of URLs discovered but not yet fetched, the
//! single coordination point between discovery and dispatch.

use vstd::prelude::*;

verus! {

/// A FIFO queue of canonical URLs awaiting dispatch. The front of the queue
/// is the sequence's first element.
pub struct Frontier {
    items: Vec<String>,
}

impl View for Frontier {
    type V = Seq<Seq<char>>;

    /// The queued URLs in dispatch order, front first.
    closed spec fn view(&self) -> Seq<Seq<char>> {
        self.items.deep_view()
    }
}

impl Frontier {
    /// An empty frontier.
    pub fn new() -> (f: Self)
        ensures
            f@ == Seq::<Seq<char>>::empty(),
    {
        let f = Frontier { items: Vec::new() };
        proof {
            assert(f@ =~= Seq::<Seq<char>>::empty());
        }
        f
    }

    /// How many URLs await dispatch.
    pub fn len(&self) -> (n: usize)
        ensures
            n == self@.len(),
    {
        self.items.len()
    }

    /// Enqueues one URL at the back.
    pub fn push(&mut self, url: String)
        ensures
            final(self)@ == old(self)@.push(url@),
    {
        let ghost u = url@;
        self.items.push(url);
        proof {
            assert(self@ =~= old(self)@.push(u));
        }
    }

    /// Dequeues the front URL; `None` exactly when the frontier is empty.
    pub fn pop(&mut self) -> (r: Option<String>)
        ensures
            old(self)@.len() == 0 ==> r is None && final(self)@ == old(self)@,
            old(self)@.len() > 0 ==> (match r {
                Some(u) => u@ == old(self)@[0] && final(self)@ == old(self)@.drop_first(),
                None => false,
            }),
    {
        if self.items.len() == 0 {
            None
        } else {
            let u = self.items.remove(0);
            proof {
                assert(self@ =~= old(self)@.drop_first());
            }
            Some(u)
        }
    }
}

} // verus!
