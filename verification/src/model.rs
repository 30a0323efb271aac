//! The mathematical model of a worker: its queue, its history and its counters,
//! with the transitions that producers and the consumer apply to it.

use vstd::prelude::*;

verus! {

/// What a worker and its queue are at one instant.
pub struct WorkerModel<T> {
    /// Items that were submitted and not yet taken, oldest first.
    pub pending: Seq<T>,
    /// Items that were handed to the handler, in the order in which it saw them.
    pub handled: Seq<T>,
    /// How many consumers are alive.
    pub live: nat,
    /// How many handler invocations are executing.
    pub running: nat,
    /// How many consumers were ever started.
    pub spawns: nat,
}

/// One thing that can happen to a worker.
pub enum Event<T> {
    /// A producer submits an item.
    Submit(T),
    /// A consumer asks for the next item.
    Take,
    /// A handler invocation ends; `true` if it completed, `false` if it failed.
    Settle(bool),
    /// The consumer's run loop exits, for whatever reason.
    Retire,
}

impl<T> WorkerModel<T> {
    /// The worker as its constructor leaves it: one live consumer, nothing queued.
    pub open spec fn started() -> Self {
        WorkerModel { pending: Seq::empty(), handled: Seq::empty(), live: 1, running: 0, spawns: 1 }
    }

    /// At most one consumer is alive, and a handler runs only inside a live consumer.
    pub open spec fn wf(self) -> bool {
        self.live <= 1 && self.running <= self.live
    }

    /// Whether a submission arriving now has to start a consumer.
    pub open spec fn needs_spawn(self) -> bool {
        self.live == 0
    }

    /// A submission: a consumer is started if none is alive, then the item joins the queue.
    pub open spec fn submit(self, item: T) -> Self {
        WorkerModel {
            pending: self.pending.push(item),
            live: if self.needs_spawn() { 1 } else { self.live },
            spawns: if self.needs_spawn() { self.spawns + 1 } else { self.spawns },
            ..self
        }
    }

    /// The item that a consumer asking now receives: the oldest pending one, if a
    /// consumer is alive and idle.
    pub open spec fn next_item(self) -> Option<T> {
        if self.running < self.live && self.pending.len() > 0 {
            Some(self.pending[0])
        } else {
            None
        }
    }

    /// A consumer asks for the next item; what it receives moves from the queue to the history.
    pub open spec fn take(self) -> Self {
        if self.next_item().is_some() {
            WorkerModel {
                pending: self.pending.skip(1),
                handled: self.handled.push(self.pending[0]),
                running: self.running + 1,
                ..self
            }
        } else {
            self
        }
    }

    /// A handler invocation ends. A failure ends its consumer with it; the queue is untouched.
    pub open spec fn settle(self, completed: bool) -> Self {
        if self.running > 0 {
            WorkerModel {
                running: (self.running - 1) as nat,
                live: if completed || self.live == 0 { self.live } else { (self.live - 1) as nat },
                ..self
            }
        } else {
            self
        }
    }

    /// The consumer's run loop exits: nothing is alive and nothing runs any
    /// more. The queue and the history are untouched.
    pub open spec fn retire(self) -> Self {
        WorkerModel { live: 0, running: 0, ..self }
    }

    /// The state after one event.
    pub open spec fn step(self, event: Event<T>) -> Self {
        match event {
            Event::Submit(item) => self.submit(item),
            Event::Take => self.take(),
            Event::Settle(completed) => self.settle(completed),
            Event::Retire => self.retire(),
        }
    }

    /// The state after a sequence of events, applied first to last.
    pub open spec fn run(self, events: Seq<Event<T>>) -> Self
        decreases events.len(),
    {
        if events.len() == 0 {
            self
        } else {
            self.run(events.drop_last()).step(events.last())
        }
    }

    /// The state after the consumer has handled `n` more items without failing.
    pub open spec fn deliver(self, n: nat) -> Self
        decreases n,
    {
        if n == 0 {
            self
        } else {
            self.take().settle(true).deliver((n - 1) as nat)
        }
    }

    /// The state once the consumer has emptied the queue without failing.
    pub open spec fn drained(self) -> Self {
        self.deliver(self.pending.len())
    }

    /// Every item that ever entered the queue, in order of entry.
    pub open spec fn timeline(self) -> Seq<T> {
        self.handled + self.pending
    }
}

/// The items that a sequence of events submits, in order.
pub open spec fn submissions<T>(events: Seq<Event<T>>) -> Seq<T>
    decreases events.len(),
{
    if events.len() == 0 {
        Seq::empty()
    } else {
        match events.last() {
            Event::Submit(item) => submissions(events.drop_last()).push(item),
            _ => submissions(events.drop_last()),
        }
    }
}

/// The events by which producers submit `items`, one after the other.
pub open spec fn submit_events<T>(items: Seq<T>) -> Seq<Event<T>> {
    Seq::new(items.len(), |i: int| Event::Submit(items[i]))
}

} // verus!
