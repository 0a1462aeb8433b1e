//! The engine: the two conduits and the slots of the pool, with one method
//! for each request that a dispatcher, a worker or a consumer makes.
//!
//! The engine decides and keeps the books; it starts no worker and calls no
//! mapping operation. Whoever drives it performs what it decides.

use crate::lemmas::{
    lemma_cancel, lemma_close, lemma_complete, lemma_dispatch, lemma_drain, lemma_held_empty,
    lemma_initial, lemma_lose, lemma_receive,
};
use crate::model::{held, lowest_idle, Action, Drained, EngineError, Received, Slot, State};
use std::collections::VecDeque;
use vstd::prelude::*;

verus! {

/// The number of workers that a request resolves to: the requested number if
/// it is positive, else the ambient parallelism, and one if that is unknown.
pub open spec fn resolved_workers(workers: Option<usize>, ambient: usize) -> usize {
    match workers {
        Some(n) if n > 0 => n,
        _ => if ambient > 0 {
            ambient
        } else {
            1
        },
    }
}

/// Resolves the requested number of workers against the ambient parallelism
/// (the number of execution units that the machine offers, zero if unknown).
pub fn resolve_workers(workers: Option<usize>, ambient: usize) -> (count: usize)
    ensures
        count == resolved_workers(workers, ambient),
        count >= 1,
{
    match workers {
        Some(n) if n > 0 => n,
        _ => if ambient > 0 {
            ambient
        } else {
            1
        },
    }
}

/// A fan-out and fan-in engine over items of type `T` and outcomes of type `O`.
pub struct Engine<T, O> {
    slots: Vec<Slot<T>>,
    forward: VecDeque<T>,
    backward: VecDeque<(T, O)>,
    open: bool,
    in_flight: usize,
    faulted: bool,
    cancelled: bool,
    submitted: Ghost<Seq<T>>,
    started: Ghost<Seq<T>>,
    drained: Ghost<Seq<(T, O)>>,
    lost: Ghost<Seq<T>>,
    discarded: Ghost<Seq<T>>,
}

impl<T, O> View for Engine<T, O> {
    type V = State<T, O>;

    closed spec fn view(&self) -> State<T, O> {
        State {
            open: self.open,
            queued: self.forward@,
            slots: self.slots@,
            completed: self.backward@,
            accepted: self.submitted@,
            started: self.started@,
            emitted: self.drained@,
            lost: self.lost@,
            discarded: self.discarded@,
        }
    }
}

impl<T, O> Engine<T, O> {
    /// Whether what the engine keeps for quick answers agrees with its state.
    pub closed spec fn consistent(&self) -> bool {
        &&& self.in_flight == held(self@.slots).len()
        &&& self.faulted == (self@.lost.len() > 0)
        &&& self.cancelled == (self@.discarded.len() > 0)
    }

    /// The invariant of the engine.
    pub open spec fn wf(&self) -> bool {
        self@.wf() && self@.workers() <= usize::MAX && self.consistent()
    }

    /// An engine with an empty, open forward conduit and a pool of idle
    /// workers of the resolved size.
    pub fn new(workers: Option<usize>, ambient: usize) -> (engine: Self)
        ensures
            engine.wf(),
            engine@ == State::<T, O>::initial(resolved_workers(workers, ambient) as nat),
    {
        let count = resolve_workers(workers, ambient);
        let mut slots: Vec<Slot<T>> = Vec::new();
        while slots.len() < count
            invariant
                slots.len() <= count,
                forall|w: int| 0 <= w < slots.len() ==> slots[w] is Idle,
            decreases count - slots.len(),
        {
            slots.push(Slot::Idle);
        }
        let engine = Engine {
            slots,
            forward: VecDeque::new(),
            backward: VecDeque::new(),
            open: true,
            in_flight: 0,
            faulted: false,
            cancelled: false,
            submitted: Ghost(Seq::empty()),
            started: Ghost(Seq::empty()),
            drained: Ghost(Seq::empty()),
            lost: Ghost(Seq::empty()),
            discarded: Ghost(Seq::empty()),
        };
        proof {
            lemma_initial::<T, O>(count as nat);
            assert(engine@.slots =~= State::<T, O>::initial(count as nat).slots);
        }
        engine
    }

    /// An engine of the resolved size that has accepted the given items, in
    /// order, and whose forward conduit is closed: the eager dispatch of a
    /// whole input.
    pub fn load(items: Vec<T>, workers: Option<usize>, ambient: usize) -> (engine: Self)
        ensures
            engine.wf(),
            engine@ == State::<T, O>::initial(resolved_workers(workers, ambient) as nat).load(
                items@,
            ),
    {
        let mut engine: Engine<T, O> = Engine::new(workers, ambient);
        let ghost fresh = engine@;
        let ghost count = items.len();
        for item in iter: items
            invariant
                engine.wf(),
                engine@ == (State {
                    queued: iter.seq().take(iter.index()),
                    accepted: iter.seq().take(iter.index()),
                    ..fresh
                }),
                fresh == State::<T, O>::initial(resolved_workers(workers, ambient) as nat),
                iter.seq() == items@,
                iter.seq().len() == count,
        {
            let _ = engine.dispatch(item);
        }
        engine.close();
        engine
    }

    /// Hands an item in at the back of the forward conduit. A closed engine
    /// refuses, drops the item and stays as it was.
    pub fn dispatch(&mut self, item: T) -> (result: Result<(), EngineError>)
        requires
            old(self).wf(),
        ensures
            final(self).wf(),
            result == old(self)@.on_dispatch(),
            final(self)@ == if result is Ok {
                old(self)@.dispatch(item)
            } else {
                old(self)@
            },
    {
        if !self.open {
            return Err(EngineError::Closed);
        }
        proof {
            lemma_dispatch(self@, item);
        }
        self.forward.push_back(item);
        self.submitted = Ghost(self.submitted@.push(item));
        Ok(())
    }

    /// Closes the forward conduit: no item is accepted any more, and a worker
    /// that finds the conduit empty leaves.
    pub fn close(&mut self)
        requires
            old(self).wf(),
        ensures
            final(self).wf(),
            final(self)@ == old(self)@.close(),
    {
        proof {
            lemma_close(self@);
        }
        self.open = false;
    }

    /// Gives up what has not been started: closes the forward conduit and
    /// drops every item that waits in it. Workers finish what they hold and
    /// are then told to leave.
    pub fn cancel(&mut self)
        requires
            old(self).wf(),
        ensures
            final(self).wf(),
            final(self)@ == old(self)@.cancel(),
    {
        proof {
            lemma_cancel(self@);
        }
        self.open = false;
        if self.forward.len() > 0 {
            self.discarded = Ghost(self.discarded@ + self.forward@);
            self.forward.clear();
            self.cancelled = true;
        }
    }

    /// Answers a worker that asks for its next item. On `Task` the worker
    /// holds the oldest queued item from now on; any other answer changes
    /// nothing.
    pub fn receive(&mut self, worker: usize) -> (result: Result<Received, EngineError>)
        requires
            old(self).wf(),
        ensures
            final(self).wf(),
            result == old(self)@.on_receive(worker as int),
            final(self)@ == if result == Ok::<Received, EngineError>(Received::Task) {
                old(self)@.receive(worker as int)
            } else {
                old(self)@
            },
    {
        if worker >= self.slots.len() {
            return Err(EngineError::UnknownWorker);
        }
        match &self.slots[worker] {
            Slot::Busy(_) => {
                return Err(EngineError::OutOfTurn);
            },
            Slot::Lost => {
                return Ok(Received::Exit);
            },
            Slot::Idle => {},
        }
        match self.forward.pop_front() {
            Some(item) => {
                proof {
                    lemma_receive(old(self)@, worker as int);
                    lemma_held_empty(old(self)@.receive(worker as int).slots);
                    assert(old(self)@.queued.drop_first() =~= old(self)@.queued.subrange(
                        1,
                        old(self)@.queued.len() as int,
                    ));
                }
                self.slots[worker] = Slot::Busy(item);
                self.started = Ghost(self.started@.push(item));
                self.in_flight = self.in_flight + 1;
                Ok(Received::Task)
            },
            None => {
                if self.open {
                    Ok(Received::Wait)
                } else {
                    Ok(Received::Exit)
                }
            },
        }
    }

    /// The item that the given worker holds, if it holds one.
    pub fn task(&self, worker: usize) -> (item: Option<&T>)
        requires
            self.wf(),
        ensures
            item is Some <==> self@.busy(worker as int),
            item matches Some(held) ==> *held == self@.slots[worker as int]->0,
    {
        if worker >= self.slots.len() {
            return None;
        }
        match &self.slots[worker] {
            Slot::Busy(item) => Some(item),
            _ => None,
        }
    }

    /// Takes the outcome that a worker reports for the item it holds: the pair
    /// goes to the back of the backward conduit and the worker is idle again.
    /// A report that is refused changes nothing, and the outcome is dropped.
    pub fn complete(&mut self, worker: usize, outcome: O) -> (result: Result<(), EngineError>)
        requires
            old(self).wf(),
        ensures
            final(self).wf(),
            result == old(self)@.on_complete(worker as int),
            final(self)@ == if result is Ok {
                old(self)@.complete(worker as int, outcome)
            } else {
                old(self)@
            },
    {
        if worker >= self.slots.len() {
            return Err(EngineError::UnknownWorker);
        }
        let mut slot = Slot::Idle;
        std::mem::swap(&mut self.slots[worker], &mut slot);
        match slot {
            Slot::Busy(item) => {
                proof {
                    lemma_complete(old(self)@, worker as int, outcome);
                    lemma_held_empty(old(self)@.slots);
                }
                self.backward.push_back((item, outcome));
                self.in_flight = self.in_flight - 1;
                Ok(())
            },
            other => {
                self.slots[worker] = other;
                assert(self.slots@ =~= old(self).slots@);
                Err(EngineError::OutOfTurn)
            },
        }
    }

    /// Records that a worker is gone. The item that it held, if any, is lost
    /// with it, and nothing is routed to it any more.
    pub fn lose(&mut self, worker: usize) -> (result: Result<(), EngineError>)
        requires
            old(self).wf(),
        ensures
            final(self).wf(),
            result == old(self)@.on_lose(worker as int),
            final(self)@ == if result is Ok {
                old(self)@.lose(worker as int)
            } else {
                old(self)@
            },
    {
        if worker >= self.slots.len() {
            return Err(EngineError::UnknownWorker);
        }
        proof {
            lemma_lose(self@, worker as int);
        }
        let mut slot = Slot::Lost;
        std::mem::swap(&mut self.slots[worker], &mut slot);
        match slot {
            Slot::Busy(item) => {
                self.lost = Ghost(self.lost@.push(item));
                self.in_flight = self.in_flight - 1;
                self.faulted = true;
            },
            _ => {},
        }
        Ok(())
    }

    /// Answers the consumer that asks for the next pair. On `Pair` the oldest
    /// completed pair leaves the backward conduit; any other answer changes
    /// nothing.
    pub fn drain(&mut self) -> (result: Result<Drained<T, O>, EngineError>)
        requires
            old(self).wf(),
        ensures
            final(self).wf(),
            result == old(self)@.on_drain(),
            final(self)@ == old(self)@.after_drain(),
    {
        match self.emit() {
            Some(pair) => Ok(Drained::Pair(pair.0, pair.1)),
            None => {
                if self.open || self.in_flight > 0 {
                    Ok(Drained::Wait)
                } else if self.forward.len() > 0 {
                    match self.find_idle() {
                        Some(_) => Ok(Drained::Wait),
                        None => Err(EngineError::WorkerLost),
                    }
                } else if self.faulted {
                    Err(EngineError::WorkerLost)
                } else if self.cancelled {
                    Err(EngineError::Cancelled)
                } else {
                    Ok(Drained::Done)
                }
            },
        }
    }

    /// Tells a scheduler that runs the whole engine by itself what to do next.
    /// On `Yield` the oldest completed pair leaves the backward conduit; on
    /// `Run` the named worker holds the oldest queued item from now on; any
    /// other answer changes nothing.
    pub fn schedule(&mut self) -> (result: Result<Action<T, O>, EngineError>)
        requires
            old(self).wf(),
        ensures
            final(self).wf(),
            result == old(self)@.on_schedule(),
            final(self)@ == old(self)@.after_schedule(),
    {
        match self.emit() {
            Some(pair) => {
                return Ok(Action::Yield(pair.0, pair.1));
            },
            None => {},
        }
        if self.forward.len() > 0 {
            match self.find_idle() {
                Some(worker) => {
                    let _ = self.receive(worker);
                    return Ok(Action::Run(worker));
                },
                None => {},
            }
        }
        if self.in_flight > 0 {
            Ok(Action::Await)
        } else if self.open {
            Ok(Action::Feed)
        } else if self.forward.len() > 0 || self.faulted {
            Err(EngineError::WorkerLost)
        } else if self.cancelled {
            Err(EngineError::Cancelled)
        } else {
            Ok(Action::Finish)
        }
    }

    /// The size of the pool.
    pub fn workers(&self) -> (count: usize)
        ensures
            count == self@.workers(),
    {
        self.slots.len()
    }

    /// Whether the forward conduit still accepts items.
    pub fn is_open(&self) -> (open: bool)
        ensures
            open == self@.open,
    {
        self.open
    }

    /// The number of items that wait in the forward conduit.
    pub fn queued(&self) -> (count: usize)
        ensures
            count == self@.queued.len(),
    {
        self.forward.len()
    }

    /// The number of items that workers hold.
    pub fn in_progress(&self) -> (count: usize)
        requires
            self.wf(),
        ensures
            count == held(self@.slots).len(),
    {
        self.in_flight
    }

    /// The number of pairs that wait in the backward conduit.
    pub fn completed(&self) -> (count: usize)
        ensures
            count == self@.completed.len(),
    {
        self.backward.len()
    }

    /// Whether nothing is left to do.
    pub fn is_finished(&self) -> (finished: bool)
        requires
            self.wf(),
        ensures
            finished == self@.finished(),
    {
        !self.open && self.forward.len() == 0 && self.in_flight == 0 && self.backward.len() == 0
    }

    /// Takes the oldest completed pair, if any, out of the backward conduit.
    fn emit(&mut self) -> (pair: Option<(T, O)>)
        requires
            old(self).wf(),
        ensures
            final(self).wf(),
            final(self)@ == old(self)@.after_drain(),
            match pair {
                Some(pair) => old(self)@.can_drain() && pair == old(self)@.completed.first(),
                None => !old(self)@.can_drain(),
            },
    {
        match self.backward.pop_front() {
            Some(pair) => {
                proof {
                    lemma_drain(old(self)@);
                    assert(old(self)@.completed.drop_first() =~= old(self)@.completed.subrange(
                        1,
                        old(self)@.completed.len() as int,
                    ));
                }
                self.drained = Ghost(self.drained@.push(pair));
                Some(pair)
            },
            None => None,
        }
    }

    /// The lowest idle worker, if any.
    fn find_idle(&self) -> (found: Option<usize>)
        ensures
            match found {
                Some(worker) => worker == lowest_idle(self@.slots, 0) && self@.idle(worker as int),
                None => lowest_idle(self@.slots, 0) >= self@.slots.len(),
            },
    {
        let mut worker: usize = 0;
        while worker < self.slots.len()
            invariant
                worker <= self.slots.len(),
                lowest_idle(self@.slots, 0) == lowest_idle(self@.slots, worker as int),
            decreases self.slots.len() - worker,
        {
            match &self.slots[worker] {
                Slot::Idle => {
                    return Some(worker);
                },
                _ => {},
            }
            worker = worker + 1;
        }
        None
    }
}

} // verus!
