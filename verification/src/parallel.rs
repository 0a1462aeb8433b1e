//! The core primitive: a mapping operation applied to every item of an input,
//! by an engine whose workers are taken in turn on the calling thread.

use crate::engine::{resolved_workers, Engine};
use crate::laws::{law_nothing_lost_nothing_duplicated, law_schedule_never_stalls};
use crate::lemmas::{lemma_complete, lemma_drain, lemma_held_empty, lemma_receive};
use crate::model::{held, items_of, Action, State};
use crate::runs::{after, emits, faultless, honest, lemma_run_goes_on, valid, Step};
use std::collections::VecDeque;
use vstd::prelude::*;

verus! {

/// Whether the mapping operation can be called on the item: on every clone
/// of it, with every clone of the context.
pub open spec fn admits<T: Clone, C: Clone, O, M: FnMut(T, C) -> O>(
    map: M,
    context: C,
    item: T,
) -> bool {
    forall|t: T, c: C| cloned(item, t) && cloned(context, c) ==> #[trigger] map.requires((t, c))
}

/// Whether the outcome is one that the mapping operation can return for the
/// item: for some clone of it, with some clone of the context.
pub open spec fn maps_to<T: Clone, C: Clone, O, M: FnMut(T, C) -> O>(
    map: M,
    context: C,
    item: T,
    outcome: O,
) -> bool {
    exists|t: T, c: C|
        cloned(item, t) && cloned(context, c) && #[trigger] map.ensures((t, c), outcome)
}

/// Whether every pair holds an outcome of the mapping operation for its item.
pub open spec fn all_mapped<T: Clone, C: Clone, O, M: FnMut(T, C) -> O>(
    map: M,
    context: C,
    pairs: Seq<(T, O)>,
) -> bool {
    forall|i: int|
        0 <= i < pairs.len() ==> maps_to(map, context, (#[trigger] pairs[i]).0, pairs[i].1)
}

/// The relation of an item to the outcomes that the mapping operation can
/// return for it.
pub open spec fn outcomes<T: Clone, C: Clone, O, M: FnMut(T, C) -> O>(
    map: M,
    context: C,
) -> spec_fn(T, O) -> bool {
    |item: T, outcome: O| maps_to(map, context, item, outcome)
}

/// Whether the steps are a run of an engine with the given number of workers
/// that was loaded with the items and emits the pairs: a faultless run that
/// ends with the engine finished, in which every outcome that a worker
/// reports is an outcome of the mapping operation for the item it holds.
pub open spec fn runs_through<T: Clone, C: Clone, O, M: FnMut(T, C) -> O>(
    map: M,
    context: C,
    workers: nat,
    items: Seq<T>,
    steps: Seq<Step<T, O>>,
    pairs: Seq<(T, O)>,
) -> bool {
    let loaded = State::<T, O>::initial(workers).load(items);
    emits(loaded, steps, pairs) && honest(loaded, steps, outcomes(map, context))
}

/// Applies the mapping operation to every item, each time on a clone of the
/// item and with a clone of the context, and returns the items paired with
/// their outcomes: one pair for each item, in no promised order.
///
/// The work goes through an engine with the resolved number of workers. All
/// items are dispatched first. Then the workers, each with its own copy of
/// the mapping operation, receive, map and complete in turn, as many items
/// being in progress at a time as there are workers, and the pairs are
/// drained as they are completed. The pairs are what that engine emits in a
/// faultless run to its end: a worker maps an item when it has received it,
/// and reports what the mapping operation returned.
pub fn parallelize<T, C, O, M>(
    items: Vec<T>,
    map: M,
    context: C,
    workers: Option<usize>,
    ambient: usize,
) -> (pairs: Vec<(T, O)>) where T: Clone, C: Clone, M: FnMut(T, C) -> O + Copy
    requires
        forall|i: int| 0 <= i < items.len() ==> admits(map, context, #[trigger] items[i]),
    ensures
        pairs.len() == items.len(),
        items_of(pairs@).to_multiset() =~= items@.to_multiset(),
        all_mapped(map, context, pairs@),
        exists|steps: Seq<Step<T, O>>| #[trigger]
            runs_through(
                map,
                context,
                resolved_workers(workers, ambient) as nat,
                items@,
                steps,
                pairs@,
            ),
{
    let mut engine: Engine<T, O> = Engine::load(items, workers, ambient);
    let ghost loaded = engine@;
    let ghost mut steps: Seq<Step<T, O>> = Seq::empty();
    let mut maps: Vec<M> = Vec::new();
    let count = engine.workers();
    while maps.len() < count
        invariant
            maps.len() <= count,
            forall|w: int| 0 <= w < maps.len() ==> maps[w] == map,
        decreases count - maps.len(),
    {
        maps.push(map);
    }
    // The workers that hold an item, the one that received first in front.
    let mut running: VecDeque<usize> = VecDeque::new();
    let mut pairs: Vec<(T, O)> = Vec::new();
    proof {
        lemma_held_empty(engine@.slots);
    }
    loop
        invariant
            engine.wf(),
            !engine@.open,
            engine@.intact(),
            engine@.discarded.len() == 0,
            engine@.accepted == items@,
            engine@.emitted == pairs@,
            loaded == State::<T, O>::initial(resolved_workers(workers, ambient) as nat).load(
                items@,
            ),
            valid(loaded, steps),
            faultless(steps),
            honest(loaded, steps, outcomes(map, context)),
            after(loaded, steps) == engine@,
            all_mapped(map, context, engine@.emitted),
            all_mapped(map, context, engine@.completed),
            forall|i: int|
                0 <= i < engine@.queued.len() ==> admits(
                    map,
                    context,
                    #[trigger] engine@.queued[i],
                ),
            forall|w: int|
                0 <= w < engine@.slots.len() && (#[trigger] engine@.slots[w]) is Busy ==> admits(
                    map,
                    context,
                    engine@.slots[w]->0,
                ),
            maps.len() == engine@.workers(),
            forall|w: int| 0 <= w < maps.len() ==> maps[w] == map,
            running@.len() == held(engine@.slots).len(),
            forall|i: int| 0 <= i < running@.len() ==> engine@.busy(#[trigger] running@[i] as int),
            forall|i: int, j: int| 0 <= i < j < running@.len() ==> running@[i] != running@[j],
        ensures
            engine.wf(),
            engine@.finished(),
            engine@.lost.len() == 0,
            engine@.discarded.len() == 0,
            engine@.accepted == items@,
            engine@.emitted == pairs@,
            all_mapped(map, context, pairs@),
            runs_through(
                map,
                context,
                resolved_workers(workers, ambient) as nat,
                items@,
                steps,
                pairs@,
            ),
        decreases engine@.remaining(),
    {
        let ghost before = engine@;
        proof {
            law_schedule_never_stalls(before);
        }
        match engine.schedule() {
            Ok(Action::Yield(item, outcome)) => {
                proof {
                    lemma_drain(before);
                    lemma_run_goes_on(loaded, steps, Step::Drain, outcomes(map, context));
                    steps = steps.push(Step::Drain);
                }
                pairs.push((item, outcome));
            },
            Ok(Action::Run(worker)) => {
                proof {
                    lemma_receive(before, worker as int);
                    lemma_run_goes_on(
                        loaded,
                        steps,
                        Step::Receive(worker as int),
                        outcomes(map, context),
                    );
                    steps = steps.push(Step::Receive(worker as int));
                    assert(forall|i: int|
                        0 <= i < engine@.queued.len() ==> engine@.queued[i] == before.queued[i
                            + 1]);
                }
                running.push_back(worker);
            },
            Ok(Action::Await) => {
                // A worker is busy, so one is running, and it holds an item.
                let worker = match running.pop_front() {
                    Some(worker) => worker,
                    None => {
                        break ;
                    },
                };
                let item = match engine.task(worker) {
                    Some(item) => item.clone(),
                    None => {
                        break ;
                    },
                };
                let own: &mut M = &mut maps[worker];
                let outcome = own(item, context.clone());
                proof {
                    lemma_complete(before, worker as int, outcome);
                    lemma_run_goes_on(
                        loaded,
                        steps,
                        Step::Complete(worker as int, outcome),
                        outcomes(map, context),
                    );
                    steps = steps.push(Step::Complete(worker as int, outcome));
                }
                let _ = engine.complete(worker, outcome);
            },
            Ok(Action::Finish) => {
                break ;
            },
            // The forward conduit is closed, the pool is intact and nothing
            // was discarded: the engine asks for no item and reports no fault.
            Ok(Action::Feed) | Err(_) => {
                break ;
            },
        }
    }
    proof {
        law_nothing_lost_nothing_duplicated(engine@);
    }
    pairs
}

} // verus!
