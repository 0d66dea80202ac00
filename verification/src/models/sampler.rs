//! A fixed, non-empty, ordered collection of items supporting uniform
//! random selection and indexed traversal.

use vstd::prelude::*;
use crate::models::mdp::Item;
use crate::random::random_below;

verus! {

/// An ordered, non-empty collection of items of an enumerable type.
///
/// A `Sampler` stands for "all states" or "all actions" of a decision
/// process. Its order is the construction order; the order only matters
/// for the determinism of greedy tie-breaking, never for correctness.
#[derive(Debug)]
pub struct Sampler<T> {
    items: Vec<T>,
}

impl<T> View for Sampler<T> {
    type V = Seq<T>;

    closed spec fn view(&self) -> Seq<T> {
        self.items@
    }
}

impl<T> Sampler<T> {
    /// Non-emptiness, established at construction and kept forever.
    pub open spec fn wf(&self) -> bool {
        self@.len() > 0
    }

    /// Creates a sampler over `items`.
    ///
    /// An empty item collection has no meaningful semantics, so the
    /// precondition rejects it before any other operation is attempted.
    pub fn new(items: Vec<T>) -> (r: Sampler<T>)
        requires
            items@.len() > 0,
        ensures
            r@ == items@,
            r.wf(),
    {
        Sampler { items }
    }

    /// The number of items.
    pub fn len(&self) -> (r: usize)
        ensures
            r == self@.len(),
    {
        self.items.len()
    }

    /// The item at position `k` in construction order.
    pub fn get(&self, k: usize) -> (r: &T)
        requires
            k < self@.len(),
        ensures
            *r == self@[k as int],
    {
        &self.items[k]
    }

    /// A reference to an item chosen uniformly at random, each with
    /// probability `1 / len`.
    pub fn get_random(&self) -> (r: &T)
        requires
            self.wf(),
        ensures
            self@.contains(*r),
    {
        let k: usize = random_below(self.items.len());
        &self.items[k]
    }
}

impl<T: Item> Sampler<T> {
    /// The items in construction order, as a fresh vector.
    pub fn iter(&self) -> (r: Vec<T>)
        ensures
            r@ == self@,
    {
        let mut out: Vec<T> = Vec::new();
        let mut k: usize = 0;
        while k < self.items.len()
            invariant
                k <= self.items.len(),
                out@ == self.items@.take(k as int),
            decreases self.items.len() - k,
        {
            out.push(self.items[k]);
            proof {
                assert(out@ =~= self.items@.take(k + 1 as int));
            }
            k = k + 1;
        }
        proof {
            assert(self.items@.take(self.items@.len() as int) =~= self.items@);
        }
        out
    }
}

} // verus!
