//! Runs of the engine: the steps that a dispatcher, the workers and a
//! consumer take, in whatever order they come to take them.
//!
//! What is proved of every run holds of every schedule, on one thread or on
//! many, as long as each step is taken as a whole.

use crate::laws::{law_no_deadlock, law_nothing_lost_nothing_duplicated};
use crate::lemmas::{
    lemma_cancel, lemma_close, lemma_complete, lemma_dispatch, lemma_drain, lemma_initial,
    lemma_load, lemma_lose, lemma_receive,
};
use crate::model::{items_of, State};
use vstd::prelude::*;

verus! {

/// One step of a run.
pub enum Step<T, O> {
    /// The dispatcher hands in the item.
    Dispatch(T),
    /// The dispatcher closes the forward conduit.
    Close,
    /// The worker takes the oldest queued item.
    Receive(int),
    /// The worker reports the outcome for the item it holds.
    Complete(int, O),
    /// The consumer takes the oldest completed pair.
    Drain,
    /// The worker is lost.
    Lose(int),
    /// The consumer gives up.
    Cancel,
}

/// Whether the engine lets the step happen.
pub open spec fn enabled<T, O>(s: State<T, O>, step: Step<T, O>) -> bool {
    match step {
        Step::Dispatch(_) => s.open,
        Step::Close => true,
        Step::Receive(worker) => s.can_receive(worker),
        Step::Complete(worker, _) => s.busy(worker),
        Step::Drain => s.can_drain(),
        Step::Lose(worker) => 0 <= worker < s.workers(),
        Step::Cancel => true,
    }
}

/// The state after the step.
pub open spec fn apply<T, O>(s: State<T, O>, step: Step<T, O>) -> State<T, O> {
    match step {
        Step::Dispatch(item) => s.dispatch(item),
        Step::Close => s.close(),
        Step::Receive(worker) => s.receive(worker),
        Step::Complete(worker, outcome) => s.complete(worker, outcome),
        Step::Drain => s.drain(),
        Step::Lose(worker) => s.lose(worker),
        Step::Cancel => s.cancel(),
    }
}

/// Whether the steps can be taken one after the other, from the state on.
pub open spec fn valid<T, O>(s: State<T, O>, steps: Seq<Step<T, O>>) -> bool
    decreases steps.len(),
{
    steps.len() == 0 || (enabled(s, steps.first()) && valid(
        apply(s, steps.first()),
        steps.drop_first(),
    ))
}

/// The state after the steps.
pub open spec fn after<T, O>(s: State<T, O>, steps: Seq<Step<T, O>>) -> State<T, O>
    decreases steps.len(),
{
    if steps.len() == 0 {
        s
    } else {
        after(apply(s, steps.first()), steps.drop_first())
    }
}

/// Whether no worker is lost and nobody gives up in the run.
pub open spec fn faultless<T, O>(steps: Seq<Step<T, O>>) -> bool {
    forall|i: int|
        0 <= i < steps.len() ==> !((#[trigger] steps[i]) is Lose) && !(steps[i] is Cancel)
}

/// The items that the dispatcher hands in during the run, in order.
pub open spec fn dispatched<T, O>(steps: Seq<Step<T, O>>) -> Seq<T>
    decreases steps.len(),
{
    if steps.len() == 0 {
        Seq::empty()
    } else {
        match steps.first() {
            Step::Dispatch(item) => seq![item] + dispatched(steps.drop_first()),
            _ => dispatched(steps.drop_first()),
        }
    }
}

/// The number of receipts, completions and drains in the run.
pub open spec fn work<T, O>(steps: Seq<Step<T, O>>) -> nat
    decreases steps.len(),
{
    if steps.len() == 0 {
        0
    } else {
        match steps.first() {
            Step::Receive(_) | Step::Complete(_, _) | Step::Drain => 1 + work(steps.drop_first()),
            _ => work(steps.drop_first()),
        }
    }
}

/// Whether every outcome that a worker reports in the run, from the state
/// on, is in the given relation to the item that the worker holds.
pub open spec fn honest<T, O>(
    s: State<T, O>,
    steps: Seq<Step<T, O>>,
    relation: spec_fn(T, O) -> bool,
) -> bool
    decreases steps.len(),
{
    steps.len() == 0 || ((steps.first() matches Step::Complete(worker, outcome) ==> relation(
        s.slots[worker]->0,
        outcome,
    )) && honest(apply(s, steps.first()), steps.drop_first(), relation))
}

/// The number of completions in the run: the number of times that a worker
/// has mapped the item it holds and reports the outcome.
pub open spec fn completions<T, O>(steps: Seq<Step<T, O>>) -> nat
    decreases steps.len(),
{
    if steps.len() == 0 {
        0
    } else if steps.first() is Complete {
        1 + completions(steps.drop_first())
    } else {
        completions(steps.drop_first())
    }
}

/// The items that the workers have mapped in the run, from the state on, in
/// the order of the completions: for each completion the item that the
/// worker holds.
pub open spec fn mapped<T, O>(s: State<T, O>, steps: Seq<Step<T, O>>) -> Seq<T>
    decreases steps.len(),
{
    if steps.len() == 0 {
        Seq::empty()
    } else {
        match steps.first() {
            Step::Complete(worker, _) => seq![s.slots[worker]->0] + mapped(
                apply(s, steps.first()),
                steps.drop_first(),
            ),
            _ => mapped(apply(s, steps.first()), steps.drop_first()),
        }
    }
}

/// Whether the run, from the state on, is a faultless run that the engine
/// lets happen, at whose end the engine has finished and has emitted exactly
/// the given pairs, in their order.
pub open spec fn emits<T, O>(s: State<T, O>, steps: Seq<Step<T, O>>, pairs: Seq<(T, O)>) -> bool {
    &&& valid(s, steps)
    &&& faultless(steps)
    &&& after(s, steps).finished()
    &&& after(s, steps).emitted == pairs
}

/// Whether every pair is in the given relation.
pub open spec fn related<T, O>(pairs: Seq<(T, O)>, relation: spec_fn(T, O) -> bool) -> bool {
    forall|i: int| 0 <= i < pairs.len() ==> relation((#[trigger] pairs[i]).0, pairs[i].1)
}

/// Every step that the engine lets happen keeps its invariant.
pub proof fn law_steps_keep_the_invariant<T, O>(s: State<T, O>, step: Step<T, O>)
    requires
        s.wf(),
        enabled(s, step),
    ensures
        apply(s, step).wf(),
        apply(s, step).workers() == s.workers(),
{
    match step {
        Step::Dispatch(item) => lemma_dispatch(s, item),
        Step::Close => lemma_close(s),
        Step::Receive(worker) => lemma_receive(s, worker),
        Step::Complete(worker, outcome) => lemma_complete(s, worker, outcome),
        Step::Drain => lemma_drain(s),
        Step::Lose(worker) => lemma_lose(s, worker),
        Step::Cancel => lemma_cancel(s),
    }
}

/// Every run keeps the invariant and the size of the pool, and accepts the
/// dispatched items in the order of their dispatch.
pub proof fn law_runs_keep_the_invariant<T, O>(s: State<T, O>, steps: Seq<Step<T, O>>)
    requires
        s.wf(),
        valid(s, steps),
    ensures
        after(s, steps).wf(),
        after(s, steps).workers() == s.workers(),
        after(s, steps).accepted =~= s.accepted + dispatched(steps),
    decreases steps.len(),
{
    if steps.len() > 0 {
        law_steps_keep_the_invariant(s, steps.first());
        law_runs_keep_the_invariant(apply(s, steps.first()), steps.drop_first());
    }
}

/// In a faultless run that starts with an intact pool and nothing discarded,
/// the pool stays intact, nothing is lost and nothing is discarded; and what
/// remains to do grows by three with each dispatch and shrinks by one with
/// each receipt, completion and drain.
pub proof fn law_faultless_runs_count_down<T, O>(s: State<T, O>, steps: Seq<Step<T, O>>)
    requires
        s.wf(),
        s.intact(),
        s.discarded.len() == 0,
        valid(s, steps),
        faultless(steps),
    ensures
        after(s, steps).intact(),
        after(s, steps).lost.len() == 0,
        after(s, steps).discarded.len() == 0,
        after(s, steps).remaining() + work(steps) == s.remaining() + 3 * dispatched(steps).len(),
    decreases steps.len(),
{
    if steps.len() > 0 {
        let step = steps.first();
        law_steps_keep_the_invariant(s, step);
        match step {
            Step::Receive(worker) => lemma_receive(s, worker),
            Step::Complete(worker, outcome) => lemma_complete(s, worker, outcome),
            Step::Drain => lemma_drain(s),
            _ => {},
        }
        law_faultless_runs_count_down(apply(s, step), steps.drop_first());
    }
}

/// A closed engine with an intact pool that has not finished lets a worker
/// or the consumer take a step, whatever the size of the pool: no run of it
/// ends before the engine has finished.
pub proof fn law_unfinished_runs_go_on<T, O>(s: State<T, O>, outcome: O)
    requires
        s.wf(),
        !s.open,
        s.intact(),
        !s.finished(),
    ensures
        enabled(s, Step::<T, O>::Drain) || (exists|w: int|
            #[trigger] enabled(s, Step::<T, O>::Complete(w, outcome))) || (exists|w: int|
            #[trigger] enabled(s, Step::<T, O>::Receive(w))),
{
    law_no_deadlock(s);
    if !s.can_drain() {
        if exists|w: int| s.busy(w) {
            let w = choose|w: int| s.busy(w);
            assert(enabled(s, Step::<T, O>::Complete(w, outcome)));
        } else {
            let w = choose|w: int| s.can_receive(w);
            assert(enabled(s, Step::<T, O>::Receive(w)));
        }
    }
}

/// Where every worker reports honestly, every pair that is completed or
/// emitted holds an outcome for its own item.
pub proof fn law_honest_runs_pair_rightly<T, O>(
    s: State<T, O>,
    steps: Seq<Step<T, O>>,
    relation: spec_fn(T, O) -> bool,
)
    requires
        valid(s, steps),
        honest(s, steps, relation),
        related(s.completed, relation),
        related(s.emitted, relation),
    ensures
        related(after(s, steps).completed, relation),
        related(after(s, steps).emitted, relation),
    decreases steps.len(),
{
    if steps.len() > 0 {
        law_honest_runs_pair_rightly(apply(s, steps.first()), steps.drop_first(), relation);
    }
}

/// Whatever the size of the pool, the number of items and the order of the
/// steps: when a faultless run of a fresh engine has finished, the emitted
/// pairs hold exactly the dispatched items, each as often as it was
/// dispatched; each item took one receipt, one completion and one drain; and
/// where the workers reported honestly each pair holds an outcome for its
/// own item.
pub proof fn law_every_finished_run_emitted_everything<T, O>(
    workers: nat,
    steps: Seq<Step<T, O>>,
    relation: spec_fn(T, O) -> bool,
)
    requires
        workers >= 1,
        valid(State::<T, O>::initial(workers), steps),
        faultless(steps),
        after(State::<T, O>::initial(workers), steps).finished(),
    ensures
        items_of(after(State::<T, O>::initial(workers), steps).emitted).to_multiset()
            =~= dispatched(steps).to_multiset(),
        after(State::<T, O>::initial(workers), steps).emitted.len() == dispatched(steps).len(),
        work(steps) == 3 * dispatched(steps).len(),
        honest(State::<T, O>::initial(workers), steps, relation) ==> related(
            after(State::<T, O>::initial(workers), steps).emitted,
            relation,
        ),
{
    let fresh = State::<T, O>::initial(workers);
    let end = after(fresh, steps);
    lemma_initial::<T, O>(workers);
    law_runs_keep_the_invariant(fresh, steps);
    law_faultless_runs_count_down(fresh, steps);
    law_nothing_lost_nothing_duplicated(end);
    if honest(fresh, steps, relation) {
        law_honest_runs_pair_rightly(fresh, steps, relation);
    }
}

/// A run goes on by one step that the engine lets happen at its end.
pub proof fn lemma_run_goes_on<T, O>(
    s: State<T, O>,
    steps: Seq<Step<T, O>>,
    step: Step<T, O>,
    relation: spec_fn(T, O) -> bool,
)
    requires
        valid(s, steps),
        enabled(after(s, steps), step),
    ensures
        valid(s, steps.push(step)),
        after(s, steps.push(step)) == apply(after(s, steps), step),
        faultless(steps) && !(step is Lose) && !(step is Cancel) ==> faultless(steps.push(step)),
        honest(s, steps, relation) && (step matches Step::Complete(worker, outcome) ==> relation(
            after(s, steps).slots[worker]->0,
            outcome,
        )) ==> honest(s, steps.push(step), relation),
    decreases steps.len(),
{
    let longer = steps.push(step);
    if steps.len() == 0 {
        let next = apply(s, step);
        assert(longer.drop_first() =~= steps);
        assert(valid(next, steps));
        assert(after(next, steps) == next);
        assert(honest(next, steps, relation));
    } else {
        assert(longer.drop_first() =~= steps.drop_first().push(step));
        lemma_run_goes_on(apply(s, steps.first()), steps.drop_first(), step, relation);
    }
}

/// A closed engine stays closed, and its runs dispatch nothing.
pub proof fn law_closed_runs_dispatch_nothing<T, O>(s: State<T, O>, steps: Seq<Step<T, O>>)
    requires
        !s.open,
        valid(s, steps),
    ensures
        !after(s, steps).open,
        dispatched(steps) =~= Seq::<T>::empty(),
    decreases steps.len(),
{
    if steps.len() > 0 {
        law_closed_runs_dispatch_nothing(apply(s, steps.first()), steps.drop_first());
    }
}

/// In a faultless run every completion adds one pair to those completed or
/// emitted, and nothing else does.
pub proof fn law_completions_are_counted<T, O>(s: State<T, O>, steps: Seq<Step<T, O>>)
    requires
        valid(s, steps),
        faultless(steps),
    ensures
        after(s, steps).completed.len() + after(s, steps).emitted.len() == s.completed.len()
            + s.emitted.len() + completions(steps),
    decreases steps.len(),
{
    if steps.len() > 0 {
        law_completions_are_counted(apply(s, steps.first()), steps.drop_first());
    }
}

/// The pairs leave the engine in the order in which they were completed:
/// what is emitted and then what is completed holds the items that were
/// mapped, in the order of the completions.
pub proof fn law_pairs_come_as_completed<T, O>(s: State<T, O>, steps: Seq<Step<T, O>>)
    requires
        valid(s, steps),
    ensures
        items_of(after(s, steps).emitted + after(s, steps).completed) =~= items_of(
            s.emitted + s.completed,
        ) + mapped(s, steps),
        mapped(s, steps).len() == completions(steps),
    decreases steps.len(),
{
    if steps.len() > 0 {
        let t = apply(s, steps.first());
        law_pairs_come_as_completed(t, steps.drop_first());
        match steps.first() {
            Step::Complete(worker, outcome) => {
                assert(t.emitted + t.completed =~= (s.emitted + s.completed).push(
                    (s.slots[worker]->0, outcome),
                ));
            },
            Step::Drain => {
                // The oldest completed pair only changes sides.
                assert(t.emitted + t.completed =~= s.emitted + s.completed);
            },
            _ => {},
        }
    }
}

/// Whatever the size of the pool and the order of the steps: when a
/// faultless run of an engine that was loaded with an input has finished,
/// the emitted pairs hold exactly the items of the input, each as often as
/// the input does; the workers completed once for each item, so that the
/// mapping operation ran once for each; the items that they mapped are,
/// in the order of the completions, the items of the pairs; and where the
/// workers reported honestly each pair holds an outcome for its own item.
pub proof fn law_loaded_runs_emit_the_input<T, O>(
    workers: nat,
    items: Seq<T>,
    steps: Seq<Step<T, O>>,
    pairs: Seq<(T, O)>,
    relation: spec_fn(T, O) -> bool,
)
    requires
        workers >= 1,
        emits(State::<T, O>::initial(workers).load(items), steps, pairs),
    ensures
        pairs.len() == items.len(),
        items_of(pairs).to_multiset() =~= items.to_multiset(),
        completions(steps) == items.len(),
        work(steps) == 3 * items.len(),
        mapped(State::<T, O>::initial(workers).load(items), steps) =~= items_of(pairs),
        mapped(State::<T, O>::initial(workers).load(items), steps).to_multiset()
            =~= items.to_multiset(),
        honest(State::<T, O>::initial(workers).load(items), steps, relation) ==> related(
            pairs,
            relation,
        ),
{
    let fresh = State::<T, O>::initial(workers);
    let loaded = fresh.load(items);
    lemma_initial::<T, O>(workers);
    lemma_load(fresh, items);
    law_runs_keep_the_invariant(loaded, steps);
    law_faultless_runs_count_down(loaded, steps);
    law_closed_runs_dispatch_nothing(loaded, steps);
    law_completions_are_counted(loaded, steps);
    law_pairs_come_as_completed(loaded, steps);
    law_nothing_lost_nothing_duplicated(after(loaded, steps));
    if honest(loaded, steps, relation) {
        law_honest_runs_pair_rightly(loaded, steps, relation);
    }
}

} // verus!
