//! A set of waiting-task handles that are woken, or dropped, all at once.

use crate::drain::Drain;
use crate::stack::Sack;
use std::task::Waker;
use vstd::prelude::*;

verus! {

/// The handle of a waiting task, as the standard library defines it. Its
/// inside is not visible here: a handle is carried, cloned and woken.
#[verifier::external_type_specification]
#[verifier::external_body]
pub struct ExWaker(Waker);

/// Wakes the task behind the handle, through `Waker::wake`, which consumes
/// the handle. Nothing is claimed of what the task then does. The call is
/// taken not to unwind: waking is fire-and-forget, and a handle that panics
/// when woken is outside what this library supports.
#[verifier::external_body]
fn wake(waker: Waker)
    opens_invariants none
    no_unwind
{
    waker.wake()
}

/// `Waker::clone` gives a second handle for the same task. Nothing more is
/// claimed of it than that it is what that call returned.
pub assume_specification[ <Waker as Clone>::clone ](waker: &Waker) -> (copy: Waker)
;

impl Drain<Waker> {
    /// Wakes every handle that is left, in the order in which the iterator
    /// yields them, and says how many there were. The number has to fit the
    /// result.
    pub fn wake_each(self) -> (count: usize)
        requires
            self@.len() <= usize::MAX,
        ensures
            count == self@.len(),
    {
        let mut rest = self;
        let mut count: usize = 0;
        loop
            invariant
                count + rest@.len() == self@.len(),
                self@.len() <= usize::MAX,
            ensures
                count == self@.len(),
            decreases rest@.len(),
        {
            match rest.next() {
                None => {
                    break ;
                },
                Some(waker) => {
                    wake(waker);
                    count = count + 1;
                },
            }
        }
        count
    }

    /// Wakes every handle that is left, without counting: the destructor's
    /// form of `wake_each`, which asks nothing of the length.
    fn wake_rest(&mut self)
        ensures
            final(self)@ == Seq::<Waker>::empty(),
        opens_invariants none
        no_unwind
    {
        loop
            ensures
                self@.len() == 0,
            decreases self@.len(),
        {
            match self.next() {
                None => {
                    break ;
                },
                Some(waker) => {
                    wake(waker);
                },
            }
        }
    }
}

/// A set of handles of waiting tasks.
pub struct WakerSet(Sack<Waker>);

impl View for WakerSet {
    type V = Seq<Waker>;

    /// The handles held, the most recently added first.
    closed spec fn view(&self) -> Seq<Waker> {
        self.0@
    }
}

impl WakerSet {
    /// An empty set.
    pub fn new() -> (set: Self)
        ensures
            set@ == Seq::<Waker>::empty(),
    {
        WakerSet(Sack::new())
    }

    /// Adds a handle.
    pub fn add(&mut self, waker: Waker)
        ensures
            final(self)@ == seq![waker] + old(self)@,
    {
        self.0.add(waker);
    }

    /// Adds a clone of the handle.
    pub fn add_by_ref(&mut self, waker: &Waker)
        ensures
            final(self)@.len() == old(self)@.len() + 1,
            cloned::<Waker>(*waker, final(self)@[0]),
            final(self)@.drop_first() == old(self)@,
    {
        self.0.add(waker.clone());
    }

    /// Detaches every handle and wakes each, newest first. Returns how many
    /// were woken. The set is empty afterwards.
    pub fn wake_all(&mut self) -> (count: usize)
        requires
            old(self)@.len() <= usize::MAX,
        ensures
            count == old(self)@.len(),
            final(self)@ == Seq::<Waker>::empty(),
    {
        self.0.drain().wake_each()
    }

    /// Detaches every handle and drops it without waking. Returns how many
    /// were dropped. The set is empty afterwards.
    pub fn clear(&mut self) -> (count: usize)
        requires
            old(self)@.len() <= usize::MAX,
        ensures
            count == old(self)@.len(),
            final(self)@ == Seq::<Waker>::empty(),
    {
        self.0.drain().count()
    }

    /// Whether the set holds no handle.
    pub fn is_empty(&self) -> (empty: bool)
        ensures
            empty == (self@.len() == 0),
    {
        self.0.is_empty()
    }
}

impl Default for WakerSet {
    fn default() -> (set: Self)
        ensures
            set@ == Seq::<Waker>::empty(),
    {
        WakerSet::new()
    }
}

impl Drop for WakerSet {
    /// Wakes every handle still held: no task is left waiting because the
    /// set that held its handle went away.
    fn drop(&mut self)
        ensures
            final(self)@ == Seq::<Waker>::empty(),
        opens_invariants none
        no_unwind
    {
        let mut drain = self.0.drain();
        drain.wake_rest();
    }
}

} // verus!
