//! The single-consumer worker: one ordered queue, one handler, at most one live
//! consumer.
//!
//! Producers call [`SingleWorker::work_with`], which never waits for the
//! handler. The consumer's loop is [`SingleWorker::run`]; where the embedding
//! program runs the handler on a context of its own, it takes items with
//! [`SingleWorker::take_next`] and reports back with [`SingleWorker::settle`],
//! and with [`SingleWorker::retire`] when the loop exits for another reason.
//!
//! Delivery is at most once and best effort. A handler invocation is not
//! isolated: a failure ends its consumer, the failed item is not retried, and
//! the producer is never told. What waits in the queue is kept, and the next
//! submission starts a new consumer. The queue has no bound: while the handler
//! is slow, or dead and not yet revived, it grows with every submission. The
//! queue lives in the handle, so it cannot close while the handle exists.

use crate::model::WorkerModel;
use std::collections::VecDeque;
use vstd::prelude::*;

verus! {

/// The handler that a worker applies to every item, together with the
/// parameters that the worker was built with.
///
/// The result tells the worker whether the invocation completed. `false`
/// reports a failure: it ends the consumer that made the call.
pub trait WorkerClosure<T, P> {
    fn call(&self, parameters: &P, item: T) -> (completed: bool);
}

/// Where the consumer stands.
enum Phase {
    /// No consumer is alive.
    Dead,
    /// The consumer is alive and waits for an item.
    Idle,
    /// The consumer is alive and its handler is executing.
    Busy,
}

/// The producer-facing handle of a worker, with the worker's whole state.
pub struct SingleWorker<T, P, F> {
    parameters: P,
    f: F,
    queue: VecDeque<T>,
    phase: Phase,
    handled: Ghost<Seq<T>>,
    spawns: Ghost<nat>,
}

impl<T, P, F> View for SingleWorker<T, P, F> {
    type V = WorkerModel<T>;

    closed spec fn view(&self) -> WorkerModel<T> {
        WorkerModel {
            pending: self.queue@,
            handled: self.handled@,
            live: match self.phase {
                Phase::Dead => 0,
                _ => 1,
            },
            running: match self.phase {
                Phase::Busy => 1,
                _ => 0,
            },
            spawns: self.spawns@,
        }
    }
}

impl<T, P, F: WorkerClosure<T, P>> SingleWorker<T, P, F> {
    /// The parameters that every handler invocation receives.
    pub closed spec fn spec_parameters(&self) -> P {
        self.parameters
    }

    /// The handler.
    pub closed spec fn spec_handler(&self) -> F {
        self.f
    }

    /// Whatever happens to a worker, its parameters and its handler stay.
    pub open spec fn same_setup(&self, other: &Self) -> bool {
        self.spec_parameters() == other.spec_parameters() && self.spec_handler()
            == other.spec_handler()
    }

    /// Whether the handler, applied to `item` with the worker's parameters,
    /// may report `completed`.
    pub open spec fn reports(&self, item: T, completed: bool) -> bool {
        call_ensures(F::call, (&self.spec_handler(), &self.spec_parameters(), item), completed)
    }

    /// Builds a worker and starts its first consumer: the worker is alive as
    /// soon as this returns.
    pub fn new(parameters: P, f: F) -> (worker: Self)
        ensures
            worker@ == WorkerModel::<T>::started(),
            worker@.live == 1,
            worker.spec_parameters() == parameters,
            worker.spec_handler() == f,
    {
        let mut worker = SingleWorker {
            parameters,
            f,
            queue: VecDeque::new(),
            phase: Phase::Dead,
            handled: Ghost(Seq::empty()),
            spawns: Ghost(0),
        };
        let _ = worker.spawn();
        worker
    }

    /// Whether a consumer is alive.
    pub fn is_alive(&self) -> (alive: bool)
        ensures
            alive == (self@.live == 1),
            alive == !self@.needs_spawn(),
    {
        match self.phase {
            Phase::Dead => false,
            _ => true,
        }
    }

    /// Whether a handler invocation is executing.
    pub fn is_busy(&self) -> (busy: bool)
        ensures
            busy == (self@.running == 1),
    {
        match self.phase {
            Phase::Busy => true,
            _ => false,
        }
    }

    /// How many items wait in the queue.
    pub fn pending(&self) -> (n: usize)
        ensures
            n == self@.pending.len(),
    {
        self.queue.len()
    }

    /// The parameters that every handler invocation receives.
    pub fn parameters(&self) -> (parameters: &P)
        ensures
            *parameters == self.spec_parameters(),
    {
        &self.parameters
    }

    /// The handler.
    pub fn handler(&self) -> (f: &F)
        ensures
            *f == self.spec_handler(),
    {
        &self.f
    }

    /// Every state of a worker keeps the model's invariant.
    pub proof fn lemma_wf(&self)
        ensures
            self@.wf(),
    {
    }

    /// Starts a consumer if none is alive, and says whether it did. The guard
    /// is the whole decision: a second caller finds the consumer alive and
    /// starts nothing.
    pub fn spawn(&mut self) -> (spawned: bool)
        ensures
            spawned == old(self)@.needs_spawn(),
            final(self)@ == (WorkerModel {
                live: 1,
                spawns: if spawned { old(self)@.spawns + 1 } else { old(self)@.spawns },
                ..old(self)@
            }),
            final(self).same_setup(old(self)),
    {
        match self.phase {
            Phase::Dead => {
                self.phase = Phase::Idle;
                self.spawns = Ghost(self.spawns@ + 1);
                true
            },
            _ => false,
        }
    }

    /// Submits an item: revives the consumer if it is dead, then enqueues the
    /// item behind everything already waiting. Never waits for the handler.
    /// Tells whether a consumer had to be started.
    pub fn work_with(&mut self, msg: T) -> (spawned: bool)
        ensures
            final(self)@ == old(self)@.submit(msg),
            spawned == old(self)@.needs_spawn(),
            final(self).same_setup(old(self)),
    {
        let spawned = self.spawn();
        self.queue.push_back(msg);
        spawned
    }

    /// The consumer asks for work: it receives the oldest pending item if it is
    /// alive and idle, and is busy from then on until [`Self::settle`].
    pub fn take_next(&mut self) -> (item: Option<T>)
        ensures
            item == old(self)@.next_item(),
            final(self)@ == old(self)@.take(),
            final(self).same_setup(old(self)),
    {
        match self.phase {
            Phase::Idle => {
                let item = self.queue.pop_front();
                if let Some(taken) = &item {
                    self.phase = Phase::Busy;
                    self.handled = Ghost(self.handled@.push(*taken));
                    assert(self.queue@ =~= old(self).queue@.skip(1));
                }
                item
            },
            _ => None,
        }
    }

    /// The handler invocation that began with [`Self::take_next`] has ended.
    /// If it failed, the consumer is gone and the liveness flag is reset; the
    /// queue keeps what it holds for the next consumer.
    pub fn settle(&mut self, completed: bool)
        ensures
            final(self)@ == old(self)@.settle(completed),
            final(self).same_setup(old(self)),
    {
        match self.phase {
            Phase::Busy => {
                self.phase = if completed {
                    Phase::Idle
                } else {
                    Phase::Dead
                };
            },
            _ => {},
        }
    }

    /// The consumer's run loop has exited, for whatever reason: the liveness
    /// flag is reset. What waits in the queue stays for the next consumer.
    pub fn retire(&mut self)
        ensures
            final(self)@ == old(self)@.retire(),
            final(self).same_setup(old(self)),
    {
        self.phase = Phase::Dead;
    }

    /// One turn of the consumer's loop: takes the next item, applies the handler
    /// to it with the worker's parameters, and settles with what the handler
    /// reported. Returns that report, or `None` where there was nothing to take.
    pub fn run_next(&mut self) -> (outcome: Option<bool>)
        ensures
            outcome.is_some() == old(self)@.next_item().is_some(),
            outcome matches Some(completed) ==> old(self).reports(
                old(self)@.pending[0],
                completed,
            ),
            final(self)@ == match outcome {
                Some(completed) => old(self)@.take().settle(completed),
                None => old(self)@,
            },
            final(self).same_setup(old(self)),
    {
        match self.take_next() {
            Some(item) => {
                let completed = self.f.call(&self.parameters, item);
                self.settle(completed);
                Some(completed)
            },
            None => None,
        }
    }

    /// The consumer's loop: handles pending items oldest first, one at a time,
    /// until the queue is empty or the handler fails. Returns how many items
    /// the handler was given. Every invocation but the last completed; the
    /// last one failed if the consumer is dead afterwards, and then the items
    /// behind the failed one are still queued.
    pub fn run(&mut self) -> (count: usize)
        ensures
            count <= old(self)@.pending.len(),
            forall|i: int|
                0 <= i < count ==> old(self).reports(
                    #[trigger] old(self)@.pending[i],
                    i + 1 < count || final(self)@.live == 1,
                ),
            final(self)@.handled == old(self)@.handled + old(self)@.pending.take(count as int),
            final(self)@.pending == old(self)@.pending.skip(count as int),
            final(self)@.running == old(self)@.running,
            final(self)@.spawns == old(self)@.spawns,
            old(self)@.live == 0 || old(self)@.running == 1 ==> count == 0 && final(self)@.live
                == old(self)@.live,
            old(self)@.live == 1 && old(self)@.running == 0 ==> {
                ||| final(self)@.live == 1 && count == old(self)@.pending.len()
                ||| final(self)@.live == 0 && count >= 1
            },
            final(self).same_setup(old(self)),
    {
        let total: usize = self.pending();
        let mut count: usize = 0;
        proof {
            assert(self@.pending.take(0) =~= Seq::<T>::empty());
            assert(self@.pending.skip(0) =~= self@.pending);
            assert(self@.handled + Seq::<T>::empty() =~= self@.handled);
        }
        loop
            invariant_except_break
                old(self)@.live == 1 && old(self)@.running == 0 ==> self@.live == 1,
                forall|i: int|
                    0 <= i < count ==> old(self).reports(#[trigger] old(self)@.pending[i], true),
            invariant
                total == old(self)@.pending.len(),
                count <= total,
                self@.handled == old(self)@.handled + old(self)@.pending.take(count as int),
                self@.pending == old(self)@.pending.skip(count as int),
                self@.running == old(self)@.running,
                self@.spawns == old(self)@.spawns,
                old(self)@.live == 0 || old(self)@.running == 1 ==> count == 0 && self@.live
                    == old(self)@.live,
                self.same_setup(old(self)),
            ensures
                old(self)@.live == 1 && old(self)@.running == 0 ==> {
                    ||| self@.live == 1 && count == old(self)@.pending.len()
                    ||| self@.live == 0 && count >= 1
                },
                forall|i: int|
                    0 <= i < count ==> old(self).reports(
                        #[trigger] old(self)@.pending[i],
                        i + 1 < count || self@.live == 1,
                    ),
            decreases self@.pending.len(),
        {
            let ghost before = self@;
            match self.run_next() {
                None => {
                    break ;
                },
                Some(completed) => {
                    proof {
                        let all = old(self)@.pending;
                        assert(all.take(count as int).push(all[count as int]) =~= all.take(
                            count as int + 1,
                        ));
                        assert(before.pending.skip(1) =~= all.skip(count as int + 1));
                        assert(before.handled.push(before.pending[0]) =~= old(self)@.handled
                            + all.take(count as int + 1));
                    }
                    count = count + 1;
                    if !completed {
                        break ;
                    }
                },
            }
        }
        count
    }
}

} // verus!
