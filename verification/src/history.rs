//! Laws of the sack, stated of every order in which its operations can take
//! effect.
//!
//! An insertion takes effect at one instant, when the head link is replaced
//! by the new entry, and a drain at one instant, when the head link is
//! emptied. Whatever the callers, and however their calls overlap, what the
//! sack goes through is therefore one sequence of such steps. The functions
//! here say what a sequence of steps leaves in the sack and what it hands
//! out, and the lemmas state what holds of every such sequence.

use vstd::multiset::*;
use vstd::prelude::*;
use vstd::seq_lib::*;

verus! {

/// One step on the head link.
pub enum Step<T> {
    /// An entry holding the item is put in front of the chain, as
    /// `Sack::add` does.
    Insert(T),
    /// The whole chain is detached and the head left empty, as `Sack::drain`
    /// does.
    Detach,
}

/// What a sack that started empty holds after the steps, newest first.
pub open spec fn held<T>(steps: Seq<Step<T>>) -> Seq<T>
    decreases steps.len(),
{
    if steps.len() == 0 {
        Seq::empty()
    } else {
        match steps.last() {
            Step::Insert(item) => seq![item] + held(steps.drop_last()),
            Step::Detach => Seq::empty(),
        }
    }
}

/// What the steps have handed out: for each detaching step, in order, the
/// items of the chain that it detached, in the order in which a draining
/// iterator yields them.
pub open spec fn harvests<T>(steps: Seq<Step<T>>) -> Seq<Seq<T>>
    decreases steps.len(),
{
    if steps.len() == 0 {
        Seq::empty()
    } else {
        match steps.last() {
            Step::Insert(_) => harvests(steps.drop_last()),
            Step::Detach => harvests(steps.drop_last()).push(held(steps.drop_last())),
        }
    }
}

/// Every item that the steps inserted, in the order of insertion.
pub open spec fn inserted<T>(steps: Seq<Step<T>>) -> Seq<T>
    decreases steps.len(),
{
    if steps.len() == 0 {
        Seq::empty()
    } else {
        match steps.last() {
            Step::Insert(item) => inserted(steps.drop_last()).push(item),
            Step::Detach => inserted(steps.drop_last()),
        }
    }
}

/// The steps that insert the items one after the other.
pub open spec fn inserts<T>(items: Seq<T>) -> Seq<Step<T>> {
    Seq::new(items.len(), |i: int| Step::Insert(items[i]))
}

/// One more step, in the words of the contracts of `Sack::add` and
/// `Sack::drain`: an insertion puts its item in front of what is held and
/// hands nothing out, and a drain hands out all that is held and leaves
/// nothing. So a caller that keeps the steps it has taken beside a sack that
/// started empty finds `held` of them in the sack's view after every call.
pub proof fn lemma_one_more_step<T>(steps: Seq<Step<T>>, item: T)
    ensures
        held(steps.push(Step::Insert(item))) == seq![item] + held(steps),
        harvests(steps.push(Step::Insert(item))) == harvests(steps),
        inserted(steps.push(Step::Insert(item))) == inserted(steps).push(item),
        held(steps.push(Step::Detach)) == Seq::<T>::empty(),
        harvests(steps.push(Step::Detach)) == harvests(steps).push(held(steps)),
        inserted(steps.push(Step::Detach)) == inserted(steps),
{
    assert(steps.push(Step::Insert(item)).drop_last() =~= steps);
    assert(steps.push(Step::Detach).drop_last() =~= steps);
}

/// A sack is empty exactly when nothing has happened to it yet or the last
/// thing that happened was a drain: it is empty when made and after every
/// drain, and holds something after an insertion that no drain has followed.
pub proof fn lemma_empty_iff_just_made_or_drained<T>(steps: Seq<Step<T>>)
    ensures
        held(steps).len() == 0 <==> steps.len() == 0 || steps.last() is Detach,
{
}

/// Insertions pile up in reverse on what was there: after them the sack
/// holds the items inserted, the last one first, and then what it held
/// before. They hand nothing out.
pub proof fn lemma_inserts_pile_up<T>(before: Seq<Step<T>>, items: Seq<T>)
    ensures
        held(before + inserts(items)) == items.reverse() + held(before),
        harvests(before + inserts(items)) == harvests(before),
        inserted(before + inserts(items)) == inserted(before) + items,
    decreases items.len(),
{
    let steps = before + inserts(items);
    if items.len() > 0 {
        let front = items.drop_last();
        lemma_inserts_pile_up(before, front);
        assert(steps.drop_last() =~= before + inserts(front));
    }
}

/// A drain yields what was inserted since the sack was last empty, the last
/// item first, and leaves the sack empty: an insertion that took effect
/// before the detaching swap is in the chain that this drain yields, and one
/// that took effect after it is in the chain that the next drain yields.
pub proof fn lemma_drain_yields_what_came_since<T>(before: Seq<Step<T>>, items: Seq<T>)
    requires
        before.len() == 0 || before.last() is Detach,
    ensures
        harvests((before + inserts(items)).push(Step::Detach)) == harvests(before).push(
            items.reverse(),
        ),
        held((before + inserts(items)).push(Step::Detach)) == Seq::<T>::empty(),
{
    let steps = (before + inserts(items)).push(Step::Detach);
    lemma_inserts_pile_up(before, items);
    assert(steps.drop_last() =~= before + inserts(items));
}

/// Any number of insertions into an empty sack followed by one drain: the
/// drain yields exactly the items inserted, the last one first, nothing lost
/// and nothing twice, and leaves the sack empty.
pub proof fn lemma_one_drain_yields_all<T>(items: Seq<T>)
    ensures
        harvests(inserts(items).push(Step::Detach)) == seq![items.reverse()],
        held(inserts(items).push(Step::Detach)) == Seq::<T>::empty(),
        items.reverse().to_multiset() == items.to_multiset(),
{
    let nothing = Seq::<Step<T>>::empty();
    lemma_drain_yields_what_came_since(nothing, items);
    items.lemma_reverse_to_multiset();
}

/// Two drains and a later one: the first yields what was inserted before
/// its swap, the second what was inserted between the two swaps, the later
/// one what was inserted after both. The three share no entry, and together
/// they yield, as a multiset, everything ever inserted.
pub proof fn lemma_two_drains_and_a_later_one<T>(first: Seq<T>, second: Seq<T>, later: Seq<T>)
    ensures
        harvests(
            ((inserts(first).push(Step::Detach) + inserts(second)).push(Step::Detach) + inserts(
                later,
            )).push(Step::Detach),
        ) == seq![first.reverse(), second.reverse(), later.reverse()],
        (first.reverse() + second.reverse() + later.reverse()).to_multiset() == (first + second
            + later).to_multiset(),
{
    broadcast use group_multiset_axioms;

    let one = inserts(first).push(Step::Detach);
    let two = (one + inserts(second)).push(Step::Detach);
    lemma_one_drain_yields_all(first);
    lemma_drain_yields_what_came_since(one, second);
    lemma_drain_yields_what_came_since(two, later);
    second.lemma_reverse_to_multiset();
    later.lemma_reverse_to_multiset();
    lemma_multiset_commutative(first.reverse() + second.reverse(), later.reverse());
    lemma_multiset_commutative(first.reverse(), second.reverse());
    lemma_multiset_commutative(first + second, later);
    lemma_multiset_commutative(first, second);
}

/// Nothing is lost and nothing is duplicated, whatever the order of
/// insertions and drains: what the drains have yielded so far, together with
/// what the sack still holds, is as a multiset exactly what was inserted. So
/// no two drains yield the same entry, and once a drain has come last, the
/// drains together have yielded everything ever inserted.
pub proof fn lemma_drains_partition_what_was_inserted<T>(steps: Seq<Step<T>>)
    ensures
        harvests(steps).flatten().to_multiset().add(held(steps).to_multiset()) == inserted(
            steps,
        ).to_multiset(),
        steps.len() > 0 && steps.last() is Detach ==> harvests(steps).flatten().to_multiset()
            == inserted(steps).to_multiset(),
    decreases steps.len(),
{
    broadcast use group_multiset_axioms;
    broadcast use group_to_multiset_ensures;

    if steps.len() > 0 {
        let before = steps.drop_last();
        lemma_drains_partition_what_was_inserted(before);
        match steps.last() {
            Step::Insert(item) => {
                lemma_multiset_commutative(seq![item], held(before));
            },
            Step::Detach => {
                harvests(before).lemma_flatten_push(held(before));
                lemma_multiset_commutative(harvests(before).flatten(), held(before));
            },
        }
    }
}

/// Whether `order` is one of the orders in which the insertions of several
/// callers can take effect, where `parts[i]` holds what caller `i` inserts,
/// in the order in which it does so: `order` takes, item by item, the next
/// item of one of the callers, until all are used up.
pub open spec fn interleaves<T>(order: Seq<T>, parts: Seq<Seq<T>>) -> bool
    decreases order.len(),
{
    if order.len() == 0 {
        forall|i: int| 0 <= i < parts.len() ==> (#[trigger] parts[i]).len() == 0
    } else {
        exists|i: int|
            0 <= i < parts.len() && (#[trigger] parts[i]).len() > 0 && parts[i].first()
                == order.first() && interleaves(
                order.drop_first(),
                parts.update(i, parts[i].drop_first()),
            )
    }
}

/// Sequences that are all empty flatten to the empty sequence.
proof fn lemma_flatten_of_empties<T>(parts: Seq<Seq<T>>)
    requires
        forall|i: int| 0 <= i < parts.len() ==> (#[trigger] parts[i]).len() == 0,
    ensures
        parts.flatten().len() == 0,
    decreases parts.len(),
{
    if parts.len() > 0 {
        assert forall|i: int| 0 <= i < parts.drop_first().len() implies (
        #[trigger] parts.drop_first()[i]).len() == 0 by {
            assert(parts.drop_first()[i] == parts[i + 1]);
        }
        lemma_flatten_of_empties(parts.drop_first());
    }
}

/// Taking the first item away from one of the sequences takes one copy of
/// that item away from the whole.
proof fn lemma_flatten_without_first<T>(parts: Seq<Seq<T>>, i: int)
    requires
        0 <= i < parts.len(),
        parts[i].len() > 0,
    ensures
        parts.flatten().to_multiset() == parts.update(
            i,
            parts[i].drop_first(),
        ).flatten().to_multiset().insert(parts[i].first()),
{
    broadcast use group_multiset_axioms;
    broadcast use group_to_multiset_ensures;

    let whole = parts[i];
    let rest = whole.drop_first();
    let before = parts.subrange(0, i);
    let after = parts.subrange(i + 1, parts.len() as int);
    assert(parts =~= before + seq![whole] + after);
    assert(parts.update(i, rest) =~= before + seq![rest] + after);
    lemma_flatten_concat(before + seq![whole], after);
    lemma_flatten_concat(before, seq![whole]);
    lemma_flatten_concat(before + seq![rest], after);
    lemma_flatten_concat(before, seq![rest]);
    seq![whole].lemma_flatten_singleton();
    seq![rest].lemma_flatten_singleton();
    lemma_multiset_commutative(before.flatten() + whole, after.flatten());
    lemma_multiset_commutative(before.flatten(), whole);
    lemma_multiset_commutative(before.flatten() + rest, after.flatten());
    lemma_multiset_commutative(before.flatten(), rest);
    assert(whole =~= seq![whole.first()] + rest);
    lemma_multiset_commutative(seq![whole.first()], rest);
}

/// Every order in which the callers' insertions can take effect inserts, as
/// a multiset, the same items: those of all the callers together.
pub proof fn lemma_interleaving_keeps_items<T>(order: Seq<T>, parts: Seq<Seq<T>>)
    requires
        interleaves(order, parts),
    ensures
        order.to_multiset() == parts.flatten().to_multiset(),
    decreases order.len(),
{
    broadcast use group_multiset_axioms;
    broadcast use group_to_multiset_ensures;

    if order.len() == 0 {
        lemma_flatten_of_empties(parts);
    } else {
        let i: int = choose|i: int|
            0 <= i < parts.len() && (#[trigger] parts[i]).len() > 0 && parts[i].first()
                == order.first() && interleaves(
                order.drop_first(),
                parts.update(i, parts[i].drop_first()),
            );
        lemma_interleaving_keeps_items(order.drop_first(), parts.update(i, parts[i].drop_first()));
        lemma_flatten_without_first(parts, i);
        assert(order =~= seq![order.first()] + order.drop_first());
        lemma_multiset_commutative(seq![order.first()], order.drop_first());
    }
}

/// Insertions by any number of callers followed by one drain: in whatever
/// order the insertions take effect, the drain yields, as a multiset,
/// exactly the items that the callers inserted.
pub proof fn lemma_drain_is_independent_of_interleaving<T>(order: Seq<T>, parts: Seq<Seq<T>>)
    requires
        interleaves(order, parts),
    ensures
        harvests(inserts(order).push(Step::Detach)).len() == 1,
        harvests(inserts(order).push(Step::Detach))[0].to_multiset()
            == parts.flatten().to_multiset(),
        held(inserts(order).push(Step::Detach)).len() == 0,
{
    lemma_one_drain_yields_all(order);
    lemma_interleaving_keeps_items(order, parts);
}

/// The length of `n` sequences of `m` items each, flattened.
proof fn lemma_flatten_len_uniform<T>(parts: Seq<Seq<T>>, n: nat, m: nat)
    requires
        parts.len() == n,
        forall|i: int| 0 <= i < n ==> (#[trigger] parts[i]).len() == m,
    ensures
        parts.flatten().len() == n * m,
    decreases n,
{
    if n == 0 {
        assert(n * m == 0) by (nonlinear_arith)
            requires
                n == 0,
        ;
    } else {
        let tail = parts.drop_first();
        assert forall|i: int| 0 <= i < n - 1 implies (#[trigger] tail[i]).len() == m by {
            assert(tail[i] == parts[i + 1]);
        }
        lemma_flatten_len_uniform(tail, (n - 1) as nat, m);
        assert(n * m == m + (n - 1) * m) by (nonlinear_arith)
            requires
                n >= 1,
        ;
    }
}

/// `n` callers insert `m` items each, all `n * m` items distinct, and one
/// drain follows: in whatever order the insertions take effect, the drain
/// yields `n * m` items, none of them twice, and each item inserted is among
/// them.
pub proof fn lemma_distinct_items_come_out_once<T>(
    order: Seq<T>,
    parts: Seq<Seq<T>>,
    n: nat,
    m: nat,
)
    requires
        interleaves(order, parts),
        parts.len() == n,
        forall|i: int| 0 <= i < n ==> (#[trigger] parts[i]).len() == m,
        parts.flatten().no_duplicates(),
    ensures
        harvests(inserts(order).push(Step::Detach)) == seq![order.reverse()],
        order.reverse().len() == n * m,
        order.reverse().no_duplicates(),
        forall|item: T| order.reverse().contains(item) <==> parts.flatten().contains(item),
{
    broadcast use group_multiset_axioms;
    broadcast use group_to_multiset_ensures;

    let all = parts.flatten();
    let drained = order.reverse();
    lemma_one_drain_yields_all(order);
    lemma_interleaving_keeps_items(order, parts);
    lemma_flatten_len_uniform(parts, n, m);
    assert(all.len() == all.to_multiset().len());
    all.lemma_multiset_has_no_duplicates();
    drained.lemma_multiset_has_no_duplicates_conv();
    assert forall|item: T| drained.contains(item) <==> all.contains(item) by {
        assert(all.contains(item) <==> all.to_multiset().count(item) > 0);
    }
}

} // verus!
