//! The engine as a mathematical state machine.
//!
//! A state records where every accepted item currently is: waiting in the
//! forward conduit, held by a worker, paired with its outcome in the backward
//! conduit, emitted to the consumer, lost together with its worker, or
//! discarded by a cancellation. Each request to the engine is a decision,
//! which reads the state, and a transition, which gives the next one.

use vstd::multiset::Multiset;
use vstd::prelude::*;

verus! {

/// What one worker of the pool is doing.
#[derive(Debug)]
pub enum Slot<T> {
    /// The worker waits for its next item.
    Idle,
    /// The worker holds this item and is mapping it.
    Busy(T),
    /// The worker is gone; nothing is routed to it any more.
    Lost,
}

/// Why the engine refuses a request or gives up.
#[derive(Clone, Copy, Debug, PartialEq, Eq, Structural)]
pub enum EngineError {
    /// An item was handed in after the forward conduit had been closed.
    Closed,
    /// The index names no worker of the pool.
    UnknownWorker,
    /// A worker asked for an item while it held one, or reported an outcome
    /// while it held none.
    OutOfTurn,
    /// A worker was lost while it held an item, or every worker was lost
    /// while items were still queued: some accepted item will never be emitted.
    WorkerLost,
    /// The engine was cancelled while items were still queued: those items
    /// will never be emitted.
    Cancelled,
}

impl EngineError {
    /// The error in words.
    pub open spec fn wording(self) -> Seq<char> {
        match self {
            EngineError::Closed => "the forward conduit is closed"@,
            EngineError::UnknownWorker => "the pool has no such worker"@,
            EngineError::OutOfTurn => "the worker spoke out of turn"@,
            EngineError::WorkerLost => "a worker was lost with work left to do"@,
            EngineError::Cancelled => "the engine was cancelled with items left in the queue"@,
        }
    }

    /// The error in words, for a message to the caller.
    pub fn message(&self) -> (text: &'static str)
        ensures
            text@ == self.wording(),
    {
        match self {
            EngineError::Closed => "the forward conduit is closed",
            EngineError::UnknownWorker => "the pool has no such worker",
            EngineError::OutOfTurn => "the worker spoke out of turn",
            EngineError::WorkerLost => "a worker was lost with work left to do",
            EngineError::Cancelled => "the engine was cancelled with items left in the queue",
        }
    }
}

/// What a worker that asks for its next item is told.
#[derive(Clone, Copy, Debug, PartialEq, Eq, Structural)]
pub enum Received {
    /// The worker now holds the oldest queued item and is to map it.
    Task,
    /// The forward conduit is empty and still open: ask again later.
    Wait,
    /// Nothing will come any more: leave the pool.
    Exit,
}

/// What the consumer that asks for the next pair is told.
#[derive(Debug, PartialEq, Eq)]
pub enum Drained<T, O> {
    /// The oldest completed pair.
    Pair(T, O),
    /// No pair is ready, and one may still come: ask again later.
    Wait,
    /// Every accepted item has been emitted.
    Done,
}

/// What a scheduler that runs the whole engine by itself is to do next.
#[derive(Debug, PartialEq, Eq)]
pub enum Action<T, O> {
    /// The given worker now holds the oldest queued item: start mapping it.
    Run(usize),
    /// Hand this pair, the oldest completed one, to the consumer.
    Yield(T, O),
    /// Wait until a busy worker reports its outcome.
    Await,
    /// Nothing is in progress and the forward conduit is open: hand in more
    /// items or close it.
    Feed,
    /// Every accepted item has been emitted.
    Finish,
}

/// The lowest index from `from` on whose slot is idle, or the number of slots
/// if there is none.
pub open spec fn lowest_idle<T>(slots: Seq<Slot<T>>, from: int) -> int
    decreases slots.len() - from,
{
    if from < 0 || from >= slots.len() {
        slots.len() as int
    } else if slots[from] is Idle {
        from
    } else {
        lowest_idle(slots, from + 1)
    }
}

/// What one slot holds: its item if the worker is busy, nothing otherwise.
pub open spec fn holding<T>(slot: Slot<T>) -> Multiset<T> {
    match slot {
        Slot::Busy(item) => Multiset::singleton(item),
        _ => Multiset::empty(),
    }
}

/// The items that the workers hold, with their multiplicities.
pub open spec fn held<T>(slots: Seq<Slot<T>>) -> Multiset<T>
    decreases slots.len(),
{
    if slots.len() == 0 {
        Multiset::empty()
    } else {
        held(slots.drop_last()).add(holding(slots.last()))
    }
}

/// The items of a sequence of result pairs, in the same order.
pub open spec fn items_of<T, O>(pairs: Seq<(T, O)>) -> Seq<T> {
    pairs.map_values(|pair: (T, O)| pair.0)
}

/// A snapshot of the engine.
#[verifier::ext_equal]
pub struct State<T, O> {
    /// Whether the dispatcher may still hand in items.
    pub open: bool,
    /// The forward conduit: items accepted and not yet received by a worker, oldest first.
    pub queued: Seq<T>,
    /// One slot per worker.
    pub slots: Seq<Slot<T>>,
    /// The backward conduit: pairs completed and not yet drained, oldest first.
    pub completed: Seq<(T, O)>,
    /// Every item accepted so far, in the order of submission.
    pub accepted: Seq<T>,
    /// Every item that a worker has received so far, in the order of receipt.
    pub started: Seq<T>,
    /// Every pair drained so far, in the order of emission.
    pub emitted: Seq<(T, O)>,
    /// Every item that was lost with its worker.
    pub lost: Seq<T>,
    /// Every item that a cancellation took out of the forward conduit.
    pub discarded: Seq<T>,
}

impl<T, O> State<T, O> {
    /// The state of a fresh engine with the given number of workers.
    pub open spec fn initial(workers: nat) -> Self {
        State {
            open: true,
            queued: Seq::empty(),
            slots: Seq::new(workers, |w: int| Slot::Idle),
            completed: Seq::empty(),
            accepted: Seq::empty(),
            started: Seq::empty(),
            emitted: Seq::empty(),
            lost: Seq::empty(),
            discarded: Seq::empty(),
        }
    }

    /// The size of the pool.
    pub open spec fn workers(self) -> nat {
        self.slots.len()
    }

    /// Whether no worker of the pool has been lost.
    pub open spec fn intact(self) -> bool {
        forall|w: int| 0 <= w < self.slots.len() ==> !(#[trigger] self.slots[w] is Lost)
    }

    /// The invariant of the engine: the pool is not empty; the workers have
    /// received the accepted items in the order of submission, each once, up
    /// to those that are still queued or were discarded; every item that a
    /// worker received is in exactly one place; an item is lost only with its
    /// worker; and items are discarded only by emptying a closed conduit.
    pub open spec fn wf(self) -> bool {
        &&& self.slots.len() >= 1
        &&& self.intact() ==> self.lost.len() == 0
        &&& self.discarded.len() > 0 ==> !self.open && self.queued.len() == 0
        &&& self.accepted =~= self.started + self.discarded + self.queued
        &&& self.started.to_multiset() =~= held(self.slots).add(
            items_of(self.completed).to_multiset(),
        ).add(items_of(self.emitted).to_multiset()).add(self.lost.to_multiset())
    }

    /// Whether the given worker is one of the pool and waits for an item.
    pub open spec fn idle(self, worker: int) -> bool {
        0 <= worker < self.slots.len() && self.slots[worker] is Idle
    }

    /// Whether the given worker is one of the pool and holds an item.
    pub open spec fn busy(self, worker: int) -> bool {
        0 <= worker < self.slots.len() && self.slots[worker] is Busy
    }

    /// Whether the given worker is one of the pool and has been lost.
    pub open spec fn gone(self, worker: int) -> bool {
        0 <= worker < self.slots.len() && self.slots[worker] is Lost
    }

    /// The dispatcher hands in one more item.
    pub open spec fn dispatch(self, item: T) -> Self {
        State { queued: self.queued.push(item), accepted: self.accepted.push(item), ..self }
    }

    /// The dispatcher hands in the given items, in order, and closes the
    /// forward conduit.
    pub open spec fn load(self, items: Seq<T>) -> Self {
        State {
            open: false,
            queued: self.queued + items,
            accepted: self.accepted + items,
            ..self
        }
    }

    /// The dispatcher closes the forward conduit.
    pub open spec fn close(self) -> Self {
        State { open: false, ..self }
    }

    /// Whether the given worker can take an item from the forward conduit.
    pub open spec fn can_receive(self, worker: int) -> bool {
        self.idle(worker) && self.queued.len() > 0
    }

    /// The given worker takes the oldest item from the forward conduit.
    pub open spec fn receive(self, worker: int) -> Self {
        State {
            queued: self.queued.drop_first(),
            slots: self.slots.update(worker, Slot::Busy(self.queued.first())),
            started: self.started.push(self.queued.first()),
            ..self
        }
    }

    /// The given worker puts its item, paired with the outcome, into the backward conduit.
    pub open spec fn complete(self, worker: int, outcome: O) -> Self {
        State {
            slots: self.slots.update(worker, Slot::Idle),
            completed: self.completed.push((self.slots[worker]->0, outcome)),
            ..self
        }
    }

    /// The given worker is lost, and with it the item that it held, if any.
    pub open spec fn lose(self, worker: int) -> Self {
        State {
            slots: self.slots.update(worker, Slot::Lost),
            lost: if self.slots[worker] is Busy {
                self.lost.push(self.slots[worker]->0)
            } else {
                self.lost
            },
            ..self
        }
    }

    /// The consumer gives up: the forward conduit is closed and emptied, so
    /// that no worker starts on another item.
    pub open spec fn cancel(self) -> Self {
        State {
            open: false,
            queued: Seq::empty(),
            discarded: self.discarded + self.queued,
            ..self
        }
    }

    /// Whether the backward conduit holds a pair.
    pub open spec fn can_drain(self) -> bool {
        self.completed.len() > 0
    }

    /// The consumer takes the oldest pair from the backward conduit.
    pub open spec fn drain(self) -> Self {
        State {
            completed: self.completed.drop_first(),
            emitted: self.emitted.push(self.completed.first()),
            ..self
        }
    }

    /// The answer to a dispatch.
    pub open spec fn on_dispatch(self) -> Result<(), EngineError> {
        if self.open {
            Ok(())
        } else {
            Err(EngineError::Closed)
        }
    }

    /// The answer to a worker that asks for its next item.
    pub open spec fn on_receive(self, worker: int) -> Result<Received, EngineError> {
        if !(0 <= worker < self.slots.len()) {
            Err(EngineError::UnknownWorker)
        } else if self.slots[worker] is Busy {
            Err(EngineError::OutOfTurn)
        } else if self.slots[worker] is Lost {
            Ok(Received::Exit)
        } else if self.queued.len() > 0 {
            Ok(Received::Task)
        } else if self.open {
            Ok(Received::Wait)
        } else {
            Ok(Received::Exit)
        }
    }

    /// The answer to a worker that reports an outcome.
    pub open spec fn on_complete(self, worker: int) -> Result<(), EngineError> {
        if !(0 <= worker < self.slots.len()) {
            Err(EngineError::UnknownWorker)
        } else if !(self.slots[worker] is Busy) {
            Err(EngineError::OutOfTurn)
        } else {
            Ok(())
        }
    }

    /// The answer to the report that a worker was lost.
    pub open spec fn on_lose(self, worker: int) -> Result<(), EngineError> {
        if !(0 <= worker < self.slots.len()) {
            Err(EngineError::UnknownWorker)
        } else {
            Ok(())
        }
    }

    /// Whether some accepted item can never be emitted: an item was lost, or
    /// the forward conduit is closed with items queued, no worker busy and
    /// none idle.
    pub open spec fn stuck(self) -> bool {
        ||| self.lost.len() > 0
        ||| !self.open && self.queued.len() > 0 && held(self.slots).len() == 0 && lowest_idle(
            self.slots,
            0,
        ) >= self.slots.len()
    }

    /// The answer to the consumer that asks for the next pair.
    pub open spec fn on_drain(self) -> Result<Drained<T, O>, EngineError> {
        if self.completed.len() > 0 {
            Ok(Drained::Pair(self.completed.first().0, self.completed.first().1))
        } else if self.open || held(self.slots).len() > 0 {
            Ok(Drained::Wait)
        } else if self.queued.len() > 0 && lowest_idle(self.slots, 0) < self.slots.len() {
            Ok(Drained::Wait)
        } else if self.stuck() {
            Err(EngineError::WorkerLost)
        } else if self.discarded.len() > 0 {
            Err(EngineError::Cancelled)
        } else {
            Ok(Drained::Done)
        }
    }

    /// The state after the consumer asked for the next pair.
    pub open spec fn after_drain(self) -> Self {
        if self.can_drain() {
            self.drain()
        } else {
            self
        }
    }

    /// What a scheduler that runs the whole engine by itself is to do next:
    /// emit what is completed, else start the lowest idle worker on the oldest
    /// queued item, else wait for a busy worker, else for the dispatcher.
    pub open spec fn on_schedule(self) -> Result<Action<T, O>, EngineError> {
        if self.completed.len() > 0 {
            Ok(Action::Yield(self.completed.first().0, self.completed.first().1))
        } else if self.queued.len() > 0 && lowest_idle(self.slots, 0) < self.slots.len() {
            Ok(Action::Run(lowest_idle(self.slots, 0) as usize))
        } else if held(self.slots).len() > 0 {
            Ok(Action::Await)
        } else if self.open {
            Ok(Action::Feed)
        } else if self.stuck() {
            Err(EngineError::WorkerLost)
        } else if self.discarded.len() > 0 {
            Err(EngineError::Cancelled)
        } else {
            Ok(Action::Finish)
        }
    }

    /// The state after the scheduler was told what to do next.
    pub open spec fn after_schedule(self) -> Self {
        if self.completed.len() > 0 {
            self.drain()
        } else if self.queued.len() > 0 && lowest_idle(self.slots, 0) < self.slots.len() {
            self.receive(lowest_idle(self.slots, 0))
        } else {
            self
        }
    }

    /// Whether nothing is left to do: the forward conduit is closed and empty, no
    /// worker holds an item, and the backward conduit is empty.
    pub open spec fn finished(self) -> bool {
        &&& !self.open
        &&& self.queued.len() == 0
        &&& held(self.slots).len() == 0
        &&& self.completed.len() == 0
    }

    /// The number of steps that a closed engine still has to take: three for
    /// each queued item, two for each held one, one for each completed pair.
    pub open spec fn remaining(self) -> nat {
        3 * self.queued.len() + 2 * held(self.slots).len() + self.completed.len()
    }

    /// The number of steps that the workers of a closed engine still have to
    /// take: two for each queued item, one for each held one.
    pub open spec fn backlog(self) -> nat {
        2 * self.queued.len() + held(self.slots).len()
    }
}

} // verus!
