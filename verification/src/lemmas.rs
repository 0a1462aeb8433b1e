//! Why every step of the engine keeps its invariant, and what each step
//! changes in the work that is left.

use crate::model::{held, holding, items_of, lowest_idle, Slot, State};
use vstd::multiset::Multiset;
use vstd::prelude::*;

verus! {

/// The lowest idle slot is idle, and no slot before it is.
pub proof fn lemma_lowest_idle<T>(slots: Seq<Slot<T>>, from: int)
    requires
        0 <= from <= slots.len(),
    ensures
        from <= lowest_idle(slots, from) <= slots.len(),
        lowest_idle(slots, from) < slots.len() ==> slots[lowest_idle(slots, from)] is Idle,
        forall|w: int| from <= w < lowest_idle(slots, from) ==> !(slots[w] is Idle),
    decreases slots.len() - from,
{
    if from < slots.len() && !(slots[from] is Idle) {
        lemma_lowest_idle(slots, from + 1);
    }
}

/// Replacing one slot exchanges what it held for what it holds now.
pub proof fn lemma_held_update<T>(slots: Seq<Slot<T>>, worker: int, slot: Slot<T>)
    requires
        0 <= worker < slots.len(),
    ensures
        held(slots.update(worker, slot)).add(holding(slots[worker])) =~= held(slots).add(
            holding(slot),
        ),
    decreases slots.len(),
{
    broadcast use vstd::multiset::group_multiset_axioms;

    let after = slots.update(worker, slot);
    if worker == slots.len() - 1 {
        assert(after.drop_last() =~= slots.drop_last());
    } else {
        assert(after.drop_last() =~= slots.drop_last().update(worker, slot));
        lemma_held_update(slots.drop_last(), worker, slot);
    }
    assert forall|v: T|
        held(after).add(holding(slots[worker])).count(v) == held(slots).add(holding(slot)).count(
            v,
        ) by {
        if worker < slots.len() - 1 {
            let rest = slots.drop_last();
            assert(held(rest.update(worker, slot)).add(holding(rest[worker])).count(v) == held(
                rest,
            ).add(holding(slot)).count(v));
        }
    }
}

/// No worker holds an item exactly when no slot is busy.
pub proof fn lemma_held_empty<T>(slots: Seq<Slot<T>>)
    ensures
        held(slots).len() == 0 <==> forall|w: int| 0 <= w < slots.len() ==> !(slots[w] is Busy),
        held(slots).len() <= slots.len(),
    decreases slots.len(),
{
    broadcast use vstd::multiset::group_multiset_axioms;

    if slots.len() > 0 {
        let rest = slots.drop_last();
        lemma_held_empty(rest);
        if held(slots).len() == 0 {
            assert forall|w: int| 0 <= w < slots.len() implies !(slots[w] is Busy) by {
                if w < rest.len() {
                    assert(rest[w] == slots[w]);
                }
            }
        }
    }
}

/// The items of the pairs grow with the pairs.
pub proof fn lemma_items_of_push<T, O>(pairs: Seq<(T, O)>, pair: (T, O))
    ensures
        items_of(pairs.push(pair)) =~= items_of(pairs).push(pair.0),
{
}

/// The items of the pairs shrink with the pairs.
pub proof fn lemma_items_of_drop_first<T, O>(pairs: Seq<(T, O)>)
    requires
        pairs.len() > 0,
    ensures
        items_of(pairs.drop_first()) =~= items_of(pairs).drop_first(),
        items_of(pairs).first() == pairs.first().0,
{
}

/// Taking the first element out of a sequence takes it out of its multiset.
pub proof fn lemma_drop_first_multiset<A>(s: Seq<A>)
    requires
        s.len() > 0,
    ensures
        s.to_multiset() =~= s.drop_first().to_multiset().insert(s.first()),
{
    broadcast use vstd::multiset::group_multiset_axioms;

    vstd::seq_lib::to_multiset_remove(s, 0);
    s.to_multiset_ensures();
}

/// Whether a pool is intact does not change when a slot that is not lost
/// changes to anything but lost.
pub proof fn lemma_intact_update<T>(slots: Seq<Slot<T>>, worker: int, slot: Slot<T>)
    requires
        0 <= worker < slots.len(),
        !(slots[worker] is Lost),
        !(slot is Lost),
    ensures
        (forall|w: int| 0 <= w < slots.len() ==> !(#[trigger] slots[w] is Lost)) <==> (forall|
            w: int,
        | 0 <= w < slots.len() ==> !(#[trigger] slots.update(worker, slot)[w] is Lost)),
{
    let after = slots.update(worker, slot);
    assert forall|w: int| 0 <= w < slots.len() && w != worker implies after[w] == slots[w] by {}
}

/// A fresh engine with at least one worker meets the invariant, and holds
/// nothing.
pub proof fn lemma_initial<T, O>(workers: nat)
    requires
        workers >= 1,
    ensures
        State::<T, O>::initial(workers).wf(),
        State::<T, O>::initial(workers).intact(),
        held(State::<T, O>::initial(workers).slots).len() == 0,
{
    broadcast use vstd::multiset::group_multiset_axioms;
    broadcast use vstd::seq_lib::group_to_multiset_ensures;

    let s = State::<T, O>::initial(workers);
    lemma_held_empty(s.slots);
    vstd::multiset::lemma_multiset_empty_len(held(s.slots));
}

/// Handing in a whole input and closing keeps the invariant and the pool,
/// and leaves the workers as they were.
pub proof fn lemma_load<T, O>(s: State<T, O>, items: Seq<T>)
    requires
        s.wf(),
        s.open,
    ensures
        s.load(items).wf(),
        s.load(items).intact() == s.intact(),
        s.load(items).remaining() == s.remaining() + 3 * items.len(),
{
    let t = s.load(items);
    assert(t.started + t.discarded + t.queued =~= s.started + s.discarded + s.queued + items);
}

/// Dispatching into an open conduit keeps the invariant.
pub proof fn lemma_dispatch<T, O>(s: State<T, O>, item: T)
    requires
        s.wf(),
        s.open,
    ensures
        s.dispatch(item).wf(),
{
}

/// Closing keeps the invariant.
pub proof fn lemma_close<T, O>(s: State<T, O>)
    requires
        s.wf(),
    ensures
        s.close().wf(),
{
}

/// Cancelling keeps the invariant and leaves the workers nothing but what
/// they hold.
pub proof fn lemma_cancel<T, O>(s: State<T, O>)
    requires
        s.wf(),
    ensures
        s.cancel().wf(),
        s.cancel().backlog() == held(s.slots).len(),
{
}

/// Receiving keeps the invariant and the pool as intact as it was, and is
/// one step of the engine and of its workers.
pub proof fn lemma_receive<T, O>(s: State<T, O>, worker: int)
    requires
        s.wf(),
        s.can_receive(worker),
    ensures
        s.receive(worker).wf(),
        s.receive(worker).intact() == s.intact(),
        s.receive(worker).remaining() + 1 == s.remaining(),
        s.receive(worker).backlog() + 1 == s.backlog(),
{
    broadcast use vstd::multiset::group_multiset_axioms;

    let item = s.queued.first();
    lemma_held_update(s.slots, worker, Slot::Busy(item));
    vstd::seq_lib::to_multiset_build(s.started, item);
    let t = s.receive(worker);
    assert(held(t.slots) =~= held(s.slots).insert(item));
    lemma_intact_update(s.slots, worker, Slot::Busy(item));
}

/// Completing keeps the invariant and the pool as intact as it was, and is
/// one step of the engine and of its workers.
pub proof fn lemma_complete<T, O>(s: State<T, O>, worker: int, outcome: O)
    requires
        s.wf(),
        s.busy(worker),
    ensures
        s.complete(worker, outcome).wf(),
        s.complete(worker, outcome).intact() == s.intact(),
        s.complete(worker, outcome).remaining() + 1 == s.remaining(),
        s.complete(worker, outcome).backlog() + 1 == s.backlog(),
{
    broadcast use vstd::multiset::group_multiset_axioms;

    let item = s.slots[worker]->0;
    lemma_held_update(s.slots, worker, Slot::Idle);
    lemma_items_of_push(s.completed, (item, outcome));
    vstd::seq_lib::to_multiset_build(items_of(s.completed), item);
    let t = s.complete(worker, outcome);
    assert(held(s.slots) =~= held(t.slots).insert(item));
    lemma_intact_update(s.slots, worker, Slot::Idle);
}

/// Losing a worker keeps the invariant, and takes what the worker held out
/// of what the workers hold.
pub proof fn lemma_lose<T, O>(s: State<T, O>, worker: int)
    requires
        s.wf(),
        0 <= worker < s.workers(),
    ensures
        s.lose(worker).wf(),
        held(s.lose(worker).slots).len() + (if s.busy(worker) {
            1nat
        } else {
            0nat
        }) == held(s.slots).len(),
{
    broadcast use vstd::multiset::group_multiset_axioms;

    lemma_held_update(s.slots, worker, Slot::Lost);
    let t = s.lose(worker);
    assert(t.slots[worker] is Lost);
    if s.slots[worker] is Busy {
        let item = s.slots[worker]->0;
        vstd::seq_lib::to_multiset_build(s.lost, item);
        assert(held(s.slots) =~= held(t.slots).insert(item));
    } else {
        let nothing = Multiset::<T>::empty();
        assert(held(s.slots).add(nothing) =~= held(s.slots));
    }
}

/// Draining keeps the invariant, and is one step of the engine that asks
/// nothing of its workers.
pub proof fn lemma_drain<T, O>(s: State<T, O>)
    requires
        s.wf(),
        s.can_drain(),
    ensures
        s.drain().wf(),
        s.drain().remaining() + 1 == s.remaining(),
        s.drain().backlog() == s.backlog(),
{
    broadcast use vstd::multiset::group_multiset_axioms;

    let pair = s.completed.first();
    lemma_items_of_drop_first(s.completed);
    lemma_drop_first_multiset(items_of(s.completed));
    lemma_items_of_push(s.emitted, pair);
    vstd::seq_lib::to_multiset_build(items_of(s.emitted), pair.0);
}

/// Every received item is counted once: as held, completed, emitted or lost.
pub proof fn lemma_received_accounted<T, O>(s: State<T, O>)
    requires
        s.wf(),
    ensures
        s.emitted.len() + s.completed.len() + held(s.slots).len() + s.lost.len()
            == s.started.len(),
{
    broadcast use vstd::multiset::group_multiset_axioms;

    s.started.to_multiset_ensures();
    s.lost.to_multiset_ensures();
    items_of(s.completed).to_multiset_ensures();
    items_of(s.emitted).to_multiset_ensures();
}

} // verus!
