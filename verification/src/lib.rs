//! A sack: a last-in-first-out collection with two operations, insert one
//! item and detach everything at once, and a set of task wakers built on it.
//!
//! A [`Sack`] is a chain of entries behind one head link. Inserting puts a
//! new entry in front, linked to the old head. Draining swaps the head for
//! an empty link and hands the detached chain, whole, to a [`Drain`]. An
//! entry never has two owners: ownership moves from the caller into the
//! sack, from the sack into the drain, and from the drain back to a caller.
//!
//! The operations take the sack exclusively, and their contracts say what
//! one call does to it. [`history`] states what follows for every order in
//! which insertions and drains take effect. Code that shares a sack between
//! threads keeps the head link in an atomic slot of its own and gives each
//! chain that it detaches to [`Drain::new`].

pub mod chain;
pub mod drain;
pub mod history;
pub mod stack;
pub mod waker;

pub use chain::Entry;
pub use drain::Drain;
pub use stack::Sack;
pub use waker::WakerSet;
