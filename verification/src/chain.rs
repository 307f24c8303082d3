//! The chain of entries behind a sack. Each entry holds one item and owns
//! its successor, so a chain ends in an empty link and has no cycle, and
//! every entry has exactly one owner: the link before it.

use vstd::prelude::*;

verus! {

/// One stored item and the link to the entry that was inserted just before
/// it.
///
/// A chain that is dropped as a plain value goes entry within entry; one
/// that is handed to a `Drain` is released in a loop.
pub struct Entry<T> {
    /// The item stored.
    pub item: T,
    /// The rest of the chain: the entries inserted earlier.
    pub next: Option<Box<Entry<T>>>,
}

/// An owning link: empty, or the newest entry of a chain.
pub type Link<T> = Option<Box<Entry<T>>>;

/// The items of a chain, newest first.
pub open spec fn chain_items<T>(chain: Link<T>) -> Seq<T>
    decreases chain,
{
    match chain {
        None => Seq::empty(),
        Some(entry) => seq![entry.item] + chain_items(entry.next),
    }
}

/// Puts a new entry holding `item` in front of the chain.
pub(crate) fn push_front<T>(chain: &mut Link<T>, item: T)
    ensures
        chain_items(*final(chain)) == seq![item] + chain_items(*old(chain)),
{
    let next = detach(chain);
    *chain = Some(Box::new(Entry { item, next }));
}

/// The detaching swap: empties the link and hands back the chain it held,
/// as one unit. Destructors call it, so it must not unwind.
pub(crate) fn detach<T>(chain: &mut Link<T>) -> (detached: Link<T>)
    ensures
        detached == *old(chain),
        *final(chain) is None,
    opens_invariants none
    no_unwind
{
    let mut detached: Link<T> = None;
    core::mem::swap(chain, &mut detached);
    detached
}

/// Unlinks the newest entry, releases it and hands back its item; the link
/// then holds the successor. An empty link stays empty.
pub(crate) fn pop_front<T>(chain: &mut Link<T>) -> (item: Option<T>)
    ensures
        chain_items(*old(chain)).len() == 0 ==> item is None && *final(chain) is None,
        chain_items(*old(chain)).len() > 0 ==> item == Some(chain_items(*old(chain))[0])
            && chain_items(*final(chain)) == chain_items(*old(chain)).drop_first(),
    opens_invariants none
    no_unwind
{
    match detach(chain) {
        None => None,
        Some(entry) => {
            let entry = *entry;
            *chain = entry.next;
            Some(entry.item)
        },
    }
}

/// Releases every entry of the chain. It walks the chain in a loop, taking
/// each entry's successor out before the entry goes: were the chain left to
/// go as a whole, each entry would release its successor from within its own
/// release, one call deep per entry.
pub(crate) fn release<T>(chain: &mut Link<T>)
    ensures
        *final(chain) is None,
    opens_invariants none
    no_unwind
{
    let mut rest = detach(chain);
    loop
        invariant
            *chain is None,
        ensures
            rest is None,
        decreases chain_items(rest).len(),
    {
        match rest {
            None => {
                break ;
            },
            Some(entry) => {
                rest = entry.next;
            },
        }
    }
}

} // verus!
