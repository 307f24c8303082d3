//! The sack: a head link that is replaced on every insertion and emptied
//! by the detaching swap.

use crate::chain::{chain_items, detach, push_front, release, Link};
use crate::drain::Drain;
use vstd::prelude::*;

verus! {

/// A last-in-first-out collection with two operations: insert one item,
/// and detach everything at once.
pub struct Sack<T> {
    head: Link<T>,
}

impl<T> View for Sack<T> {
    type V = Seq<T>;

    /// The items held, the most recently inserted first.
    closed spec fn view(&self) -> Seq<T> {
        chain_items(self.head)
    }
}

impl<T> Sack<T> {
    /// An empty sack.
    pub fn new() -> (sack: Self)
        ensures
            sack@ == Seq::<T>::empty(),
    {
        Sack { head: None }
    }

    /// Inserts `item` in front of everything held so far.
    pub fn add(&mut self, item: T)
        ensures
            final(self)@ == seq![item] + old(self)@,
    {
        push_front(&mut self.head, item);
    }

    /// Detaches the whole chain and hands it to a draining iterator. The
    /// sack is empty afterwards. Destructors call it, so it does not unwind.
    pub fn drain(&mut self) -> (drain: Drain<T>)
        ensures
            drain@ == old(self)@,
            final(self)@ == Seq::<T>::empty(),
        opens_invariants none
        no_unwind
    {
        Drain::new(detach(&mut self.head))
    }

    /// Whether the sack holds nothing.
    pub fn is_empty(&self) -> (empty: bool)
        ensures
            empty == (self@.len() == 0),
    {
        self.head.is_none()
    }
}

impl<T> Default for Sack<T> {
    fn default() -> (sack: Self)
        ensures
            sack@ == Seq::<T>::empty(),
    {
        Sack::new()
    }
}

impl<T> Drop for Sack<T> {
    /// Releases what is still held, entry by entry.
    fn drop(&mut self)
        ensures
            final(self)@ == Seq::<T>::empty(),
        opens_invariants none
        no_unwind
    {
        release(&mut self.head);
    }
}

} // verus!
