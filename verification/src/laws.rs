//! What holds of every engine, whatever the size of its pool and whoever
//! drives it.

use crate::lemmas::{
    lemma_cancel, lemma_complete, lemma_drain, lemma_held_empty, lemma_lowest_idle,
    lemma_receive, lemma_received_accounted,
};
use crate::model::{
    held, items_of, lowest_idle, Action, Drained, EngineError, Received, State,
};
use vstd::prelude::*;

verus! {

/// When an engine that lost and discarded nothing has finished, the emitted
/// pairs hold exactly the accepted items: none is missing, none occurs more
/// often than it was accepted, and there are as many pairs as accepted items.
pub proof fn law_nothing_lost_nothing_duplicated<T, O>(s: State<T, O>)
    requires
        s.wf(),
        s.finished(),
        s.lost.len() == 0,
        s.discarded.len() == 0,
    ensures
        items_of(s.emitted).to_multiset() =~= s.accepted.to_multiset(),
        s.emitted.len() == s.accepted.len(),
{
    broadcast use vstd::multiset::group_multiset_axioms;

    lemma_received_accounted(s);
    s.lost.to_multiset_ensures();
    items_of(s.completed).to_multiset_ensures();
    vstd::multiset::lemma_multiset_empty_len(held(s.slots));
    vstd::multiset::lemma_multiset_empty_len(s.lost.to_multiset());
    vstd::multiset::lemma_multiset_empty_len(items_of(s.completed).to_multiset());
}

/// The consumer is told that it is done only when every accepted item has
/// been emitted, once; where an item was lost or discarded it is never told
/// so. A scheduler is told to finish only where the consumer is done.
pub proof fn law_done_means_all_emitted<T, O>(s: State<T, O>)
    requires
        s.wf(),
    ensures
        s.on_drain() == Ok::<Drained<T, O>, EngineError>(Drained::Done) ==> s.finished()
            && s.emitted.len() == s.accepted.len() && items_of(s.emitted).to_multiset()
            =~= s.accepted.to_multiset(),
        s.lost.len() > 0 || s.discarded.len() > 0 ==> s.on_drain() != Ok::<
            Drained<T, O>,
            EngineError,
        >(Drained::Done),
        s.on_schedule() == Ok::<Action<T, O>, EngineError>(Action::Finish) ==> s.on_drain() == Ok::<
            Drained<T, O>,
            EngineError,
        >(Drained::Done),
{
    if s.on_drain() == Ok::<Drained<T, O>, EngineError>(Drained::Done) {
        law_nothing_lost_nothing_duplicated(s);
    }
}

/// Where the pairs hold the items of an input, each as often as the input
/// does, every item of the input occurs in a pair, the item of every pair
/// occurs in the input, and there are as many pairs as items.
pub proof fn law_pairs_hold_the_items<T, O>(items: Seq<T>, pairs: Seq<(T, O)>)
    requires
        items_of(pairs).to_multiset() =~= items.to_multiset(),
    ensures
        pairs.len() == items.len(),
        forall|i: int| 0 <= i < items.len() ==> items_of(pairs).contains(#[trigger] items[i]),
        forall|k: int| 0 <= k < pairs.len() ==> items.contains((#[trigger] pairs[k]).0),
{
    broadcast use vstd::multiset::group_multiset_axioms;

    items.to_multiset_ensures();
    items_of(pairs).to_multiset_ensures();
    assert forall|i: int| 0 <= i < items.len() implies items_of(pairs).contains(
        #[trigger] items[i],
    ) by {
        assert(items.to_multiset().count(items[i]) > 0);
    }
    assert forall|k: int| 0 <= k < pairs.len() implies items.contains((#[trigger] pairs[k]).0) by {
        assert(items_of(pairs)[k] == pairs[k].0);
        assert(items_of(pairs).to_multiset().count(pairs[k].0) > 0);
    }
}

/// The mapping operation is started once for each accepted item: the items
/// that the workers have received are the accepted ones in the order of
/// submission, up to those still queued or discarded, and when an engine
/// that discarded nothing has finished they are all of them. Each received
/// item is held, completed, emitted or lost, and never two of these.
pub proof fn law_each_item_starts_once<T, O>(s: State<T, O>)
    requires
        s.wf(),
    ensures
        s.started == s.accepted.take(s.started.len() as int),
        s.started.len() + s.discarded.len() + s.queued.len() == s.accepted.len(),
        s.started.len() == held(s.slots).len() + s.completed.len() + s.emitted.len()
            + s.lost.len(),
        s.finished() && s.discarded.len() == 0 ==> s.started == s.accepted,
{
    lemma_received_accounted(s);
}

/// The size of the pool is fixed: no step of the engine changes it.
pub proof fn law_pool_is_fixed<T, O>(s: State<T, O>, item: T, worker: int, outcome: O)
    requires
        0 <= worker < s.workers(),
    ensures
        s.dispatch(item).workers() == s.workers(),
        s.close().workers() == s.workers(),
        s.cancel().workers() == s.workers(),
        s.receive(worker).workers() == s.workers(),
        s.complete(worker, outcome).workers() == s.workers(),
        s.lose(worker).workers() == s.workers(),
        s.drain().workers() == s.workers(),
{
}

/// Every step counts down what is left to do: a receipt, a completion and a
/// drain each take one from what remains, and a closed engine has finished
/// exactly when nothing remains. So a closed engine finishes after as many
/// steps as remain, in whatever order they are taken.
pub proof fn law_every_step_counts_down<T, O>(s: State<T, O>, worker: int, outcome: O)
    requires
        s.wf(),
    ensures
        s.can_receive(worker) ==> s.receive(worker).remaining() + 1 == s.remaining(),
        s.busy(worker) ==> s.complete(worker, outcome).remaining() + 1 == s.remaining(),
        s.can_drain() ==> s.drain().remaining() + 1 == s.remaining(),
        s.finished() <==> !s.open && s.remaining() == 0,
{
    if s.can_receive(worker) {
        lemma_receive(s, worker);
    }
    if s.busy(worker) {
        lemma_complete(s, worker, outcome);
    }
    if s.can_drain() {
        lemma_drain(s);
    }
}

/// A closed engine with an intact pool is never stuck before it has
/// finished, whatever the size of the pool and the number of items: a pair
/// can be drained, or a worker can complete, or a worker can receive.
pub proof fn law_no_deadlock<T, O>(s: State<T, O>)
    requires
        s.wf(),
        !s.open,
        s.intact(),
        !s.finished(),
    ensures
        s.can_drain() || (exists|w: int| s.busy(w)) || (exists|w: int| s.can_receive(w)),
{
    lemma_held_empty(s.slots);
    if !s.can_drain() {
        if held(s.slots).len() > 0 {
            let w = choose|w: int| 0 <= w < s.slots.len() && s.slots[w] is Busy;
            assert(s.busy(w));
        } else {
            assert(s.can_receive(0));
        }
    }
}

/// Nobody is told to wait in vain, whatever has been lost or discarded: when
/// the consumer is to wait, the conduit is open, or a worker can complete or
/// receive; when a worker is to wait, the conduit is open; and a scheduler
/// that is to await has a busy worker to await.
pub proof fn law_waiting_is_never_in_vain<T, O>(s: State<T, O>, worker: int)
    requires
        s.wf(),
    ensures
        s.on_drain() == Ok::<Drained<T, O>, EngineError>(Drained::Wait) ==> s.open || (exists|
            w: int,
        | s.busy(w)) || (exists|w: int| s.can_receive(w)),
        s.on_receive(worker) == Ok::<Received, EngineError>(Received::Wait) ==> s.open,
        s.on_schedule() == Ok::<Action<T, O>, EngineError>(Action::Await) ==> exists|w: int|
            s.busy(w),
{
    lemma_held_empty(s.slots);
    lemma_lowest_idle(s.slots, 0);
    if held(s.slots).len() > 0 {
        let w = choose|w: int| 0 <= w < s.slots.len() && s.slots[w] is Busy;
        assert(s.busy(w));
    } else if s.queued.len() > 0 && lowest_idle(s.slots, 0) < s.slots.len() {
        assert(s.can_receive(lowest_idle(s.slots, 0)));
    }
}

/// A scheduler that runs a closed engine with an intact pool by itself is
/// always told something that it can do, as long as nothing was discarded,
/// and is told to finish only when the engine has finished.
pub proof fn law_schedule_never_stalls<T, O>(s: State<T, O>)
    requires
        s.wf(),
        s.workers() <= usize::MAX,
        !s.open,
        s.intact(),
        s.discarded.len() == 0,
    ensures
        match s.on_schedule() {
            Ok(Action::Yield(item, outcome)) => s.can_drain() && s.after_schedule() == s.drain()
                && (item, outcome) == s.completed.first(),
            Ok(Action::Run(worker)) => s.can_receive(worker as int) && s.after_schedule()
                == s.receive(worker as int),
            Ok(Action::Await) => s.after_schedule() == s && exists|w: int| s.busy(w),
            Ok(Action::Finish) => s.after_schedule() == s && s.finished() && s.lost.len() == 0,
            Ok(Action::Feed) => false,
            Err(_) => false,
        },
{
    lemma_held_empty(s.slots);
    lemma_lowest_idle(s.slots, 0);
    if s.completed.len() == 0 {
        if held(s.slots).len() > 0 {
            let w = choose|w: int| 0 <= w < s.slots.len() && s.slots[w] is Busy;
            assert(s.busy(w));
        }
    }
}

/// What the workers are told does not depend on the consumer: neither on
/// what the backward conduit holds nor on what has been drained.
pub proof fn law_workers_ignore_the_consumer<T, O>(s: State<T, O>, t: State<T, O>, worker: int)
    requires
        s.open == t.open,
        s.queued == t.queued,
        s.slots == t.slots,
    ensures
        s.on_receive(worker) == t.on_receive(worker),
        s.on_complete(worker) == t.on_complete(worker),
        s.backlog() == t.backlog(),
{
}

/// The workers of a closed engine with an intact pool never wait: a busy
/// worker can complete, an idle one receives or leaves, and while the
/// backlog is not empty one of them can take a step, whether or not anybody
/// drains.
pub proof fn law_workers_need_no_consumer<T, O>(s: State<T, O>)
    requires
        s.wf(),
        !s.open,
        s.intact(),
    ensures
        forall|w: int| s.busy(w) ==> #[trigger] s.on_complete(w) == Ok::<(), EngineError>(()),
        forall|w: int|
            s.idle(w) ==> #[trigger] s.on_receive(w) == Ok::<Received, EngineError>(
                if s.queued.len() > 0 {
                    Received::Task
                } else {
                    Received::Exit
                },
            ),
        s.backlog() > 0 ==> (exists|w: int| s.busy(w)) || (exists|w: int| s.can_receive(w)),
{
    lemma_held_empty(s.slots);
    if s.backlog() > 0 {
        if held(s.slots).len() > 0 {
            let w = choose|w: int| 0 <= w < s.slots.len() && s.slots[w] is Busy;
            assert(s.busy(w));
        } else {
            assert(s.can_receive(0));
        }
    }
}

/// A cancellation releases the workers: no worker starts on another item,
/// a worker that holds none is told to leave, one that holds an item can
/// still complete it, and the consumer is not told that it is done if an
/// item was discarded.
pub proof fn law_cancel_releases_the_workers<T, O>(s: State<T, O>)
    requires
        s.wf(),
    ensures
        s.cancel().wf(),
        s.cancel().backlog() == held(s.slots).len(),
        forall|w: int| !s.cancel().can_receive(w),
        forall|w: int|
            s.idle(w) || s.gone(w) ==> #[trigger] s.cancel().on_receive(w) == Ok::<
                Received,
                EngineError,
            >(Received::Exit),
        forall|w: int|
            s.busy(w) ==> #[trigger] s.cancel().on_complete(w) == Ok::<(), EngineError>(()),
        s.queued.len() > 0 ==> s.cancel().on_drain() != Ok::<Drained<T, O>, EngineError>(
            Drained::Done,
        ),
{
    lemma_cancel(s);
}

} // verus!
