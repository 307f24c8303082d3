//! The draining iterator: the one owner of a detached chain.

use crate::chain::{chain_items, pop_front, release, Link};
use vstd::prelude::*;

verus! {

/// Owns a chain that was detached from a sack and yields its items, the
/// most recently inserted first. It cannot be restarted: what was yielded is
/// gone, and what is left when it is discarded is released.
pub struct Drain<T>(Link<T>);

impl<T> View for Drain<T> {
    type V = Seq<T>;

    /// The items still to be yielded, in the order in which they will come.
    closed spec fn view(&self) -> Seq<T> {
        chain_items(self.0)
    }
}

impl<T> Drain<T> {
    /// Takes ownership of a detached chain. Destructors reach this function
    /// and `next`, so neither unwinds.
    pub fn new(chain: Link<T>) -> (drain: Self)
        ensures
            drain@ == chain_items(chain),
        opens_invariants none
        no_unwind
    {
        Drain(chain)
    }

    /// Yields the next item and releases its entry, or `None` once the
    /// chain is used up.
    pub fn next(&mut self) -> (item: Option<T>)
        ensures
            old(self)@.len() == 0 ==> item is None && final(self)@ == old(self)@,
            old(self)@.len() > 0 ==> item == Some(old(self)@[0])
                && final(self)@ == old(self)@.drop_first(),
        opens_invariants none
        no_unwind
    {
        pop_front(&mut self.0)
    }

    /// Yields every remaining item, in order, into a vector.
    pub fn collect(self) -> (items: Vec<T>)
        ensures
            items@ == self@,
    {
        let mut rest = self;
        let mut items: Vec<T> = Vec::new();
        loop
            invariant
                items@ + rest@ == self@,
            ensures
                items@ == self@,
            decreases rest@.len(),
        {
            match rest.next() {
                None => {
                    break ;
                },
                Some(item) => {
                    items.push(item);
                },
            }
        }
        items
    }

    /// Releases every remaining entry and says how many there were. The
    /// number has to fit the result.
    pub fn count(self) -> (n: usize)
        requires
            self@.len() <= usize::MAX,
        ensures
            n == self@.len(),
    {
        let mut rest = self;
        let mut n: usize = 0;
        loop
            invariant
                n + rest@.len() == self@.len(),
                self@.len() <= usize::MAX,
            ensures
                n == self@.len(),
            decreases rest@.len(),
        {
            match rest.next() {
                None => {
                    break ;
                },
                Some(_) => {
                    n = n + 1;
                },
            }
        }
        n
    }
}

impl<T> Drop for Drain<T> {
    /// Releases what was not consumed, entry by entry.
    fn drop(&mut self)
        ensures
            final(self)@ == Seq::<T>::empty(),
        opens_invariants none
        no_unwind
    {
        release(&mut self.0);
    }
}

} // verus!
