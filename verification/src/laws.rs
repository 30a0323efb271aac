//! What holds of every worker, whatever its producers and its handler do.

use crate::model::{submissions, submit_events, Event, WorkerModel};
use vstd::prelude::*;

verus! {

/// No single event breaks the invariant: at most one consumer is alive, and
/// at most one handler invocation executes, inside that consumer.
pub proof fn lemma_step_keeps_invariant<T>(s: WorkerModel<T>, event: Event<T>)
    requires
        s.wf(),
    ensures
        s.step(event).wf(),
{
}

/// At every instant of every history, at most one handler invocation is
/// executing and at most one consumer is alive. This holds even where
/// consumers ask for work while an invocation is in flight, and where
/// producers submit while the consumer is dead.
pub proof fn lemma_at_most_one_invocation<T>(s: WorkerModel<T>, events: Seq<Event<T>>)
    requires
        s.wf(),
    ensures
        s.run(events).wf(),
        s.run(events).running <= 1,
        s.run(events).live <= 1,
    decreases events.len(),
{
    if events.len() > 0 {
        lemma_at_most_one_invocation(s, events.drop_last());
        lemma_step_keeps_invariant(s.run(events.drop_last()), events.last());
    }
}

/// Items reach the handler in the order in which they were submitted: after
/// any history, what the handler has seen followed by what still waits is
/// what was there before followed by the submissions, in order. Nothing is
/// reordered, duplicated or dropped, whether or not consumers died on the way.
pub proof fn lemma_fifo<T>(s: WorkerModel<T>, events: Seq<Event<T>>)
    ensures
        s.run(events).timeline() == s.timeline() + submissions(events),
    decreases events.len(),
{
    if events.len() == 0 {
        assert(s.timeline() + Seq::<T>::empty() =~= s.timeline());
    } else {
        let before = s.run(events.drop_last());
        lemma_fifo(s, events.drop_last());
        match events.last() {
            Event::Submit(item) => {
                assert(before.submit(item).timeline() =~= before.timeline().push(item));
                assert(s.timeline() + submissions(events.drop_last()).push(item) =~= (s.timeline()
                    + submissions(events.drop_last())).push(item));
            },
            Event::Take => {
                if before.next_item().is_some() {
                    assert(before.take().timeline() =~= before.timeline());
                }
            },
            Event::Settle(_) => {},
            Event::Retire => {},
        }
    }
}

/// For a worker followed from its construction: what the handler has seen so
/// far is a prefix of what was submitted so far. The handler's first item is
/// the first submitted, its second the second, and so on.
pub proof fn lemma_handled_in_submission_order<T>(events: Seq<Event<T>>)
    ensures
        WorkerModel::<T>::started().run(events).handled.is_prefix_of(submissions(events)),
        forall|k: int|
            0 <= k < WorkerModel::<T>::started().run(events).handled.len() ==> (
            #[trigger] WorkerModel::<T>::started().run(events).handled[k]) == submissions(
                events,
            )[k],
{
    let s = WorkerModel::<T>::started();
    let end = s.run(events);
    lemma_fifo(s, events);
    assert(s.timeline() =~= Seq::<T>::empty());
    assert(s.timeline() + submissions(events) =~= submissions(events));
    assert(end.handled =~= end.timeline().take(end.handled.len() as int));
}

/// A live, idle consumer whose handler does not fail handles the `n` oldest
/// pending items, oldest first, and stays alive.
pub proof fn lemma_deliver<T>(s: WorkerModel<T>, n: nat)
    requires
        s.live == 1,
        s.running == 0,
        n <= s.pending.len(),
    ensures
        s.deliver(n).handled == s.handled + s.pending.take(n as int),
        s.deliver(n).pending == s.pending.skip(n as int),
        s.deliver(n).live == 1,
        s.deliver(n).running == 0,
        s.deliver(n).spawns == s.spawns,
    decreases n,
{
    if n == 0 {
        assert(s.handled + s.pending.take(0) =~= s.handled);
        assert(s.pending.skip(0) =~= s.pending);
    } else {
        let next = s.take().settle(true);
        lemma_deliver(next, (n - 1) as nat);
        assert(next.handled + next.pending.take(n - 1) =~= s.handled + s.pending.take(n as int));
        assert(next.pending.skip(n - 1) =~= s.pending.skip(n as int));
    }
}

/// A live, idle consumer whose handler does not fail empties the queue: every
/// pending item is handled exactly once, in order.
pub proof fn lemma_drained<T>(s: WorkerModel<T>)
    requires
        s.live == 1,
        s.running == 0,
    ensures
        s.drained().handled == s.timeline(),
        s.drained().pending.len() == 0,
        s.drained().live == 1,
        s.drained().spawns == s.spawns,
{
    lemma_deliver(s, s.pending.len());
    assert(s.pending.take(s.pending.len() as int) =~= s.pending);
}

/// Producers that submit one after the other start a consumer at most once:
/// the first to find the worker dead starts one, and every later one finds it alive.
pub proof fn lemma_submits<T>(s: WorkerModel<T>, items: Seq<T>)
    requires
        s.wf(),
    ensures
        s.run(submit_events(items)).pending == s.pending + items,
        s.run(submit_events(items)).handled == s.handled,
        s.run(submit_events(items)).running == s.running,
        s.run(submit_events(items)).live == (if items.len() > 0 {
            1
        } else {
            s.live
        }),
        s.run(submit_events(items)).spawns == (if items.len() > 0 && s.live == 0 {
            s.spawns + 1
        } else {
            s.spawns
        }),
    decreases items.len(),
{
    let events = submit_events(items);
    if items.len() == 0 {
        assert(s.pending + items =~= s.pending);
    } else {
        assert(events.drop_last() =~= submit_events(items.drop_last()));
        assert(events.last() == Event::Submit(items.last()));
        lemma_submits(s, items.drop_last());
        assert((s.pending + items.drop_last()).push(items.last()) =~= s.pending + items);
    }
}

/// A submission to a dead worker starts exactly one consumer, and the item
/// submitted is handled once that consumer has worked through the queue: it
/// is the last item the handler sees, behind everything that waited before.
pub proof fn lemma_submit_revives<T>(s: WorkerModel<T>, item: T)
    requires
        s.wf(),
        s.live == 0,
    ensures
        s.submit(item).live == 1,
        s.submit(item).spawns == s.spawns + 1,
        s.submit(item).pending == s.pending.push(item),
        s.submit(item).drained().handled == s.timeline().push(item),
        s.submit(item).drained().pending.len() == 0,
        s.submit(item).drained().live == 1,
{
    let revived = s.submit(item);
    lemma_drained(revived);
    assert(revived.timeline() =~= s.timeline().push(item));
}

/// When the handler fails on an item, the liveness flag is reset and the
/// queue keeps what it holds. The next submission starts exactly one new
/// consumer, which handles what waited and then the item submitted.
pub proof fn lemma_respawn_after_failure<T>(s: WorkerModel<T>, item: T)
    requires
        s.wf(),
        s.running == 1,
    ensures
        s.settle(false).live == 0,
        s.settle(false).running == 0,
        s.settle(false).timeline() == s.timeline(),
        s.settle(false).submit(item).live == 1,
        s.settle(false).submit(item).spawns == s.spawns + 1,
        s.settle(false).submit(item).pending == s.pending.push(item),
        s.settle(false).submit(item).drained().handled == s.timeline().push(item),
        s.settle(false).submit(item).drained().pending.len() == 0,
        s.settle(false).submit(item).drained().live == 1,
{
    lemma_submit_revives(s.settle(false), item);
}

/// However a consumer's run loop exits, the liveness flag is reset, nothing
/// that waits is lost, and the next submission starts a new consumer.
pub proof fn lemma_respawn_after_exit<T>(s: WorkerModel<T>, item: T)
    requires
        s.wf(),
    ensures
        s.retire().live == 0,
        s.retire().running == 0,
        s.retire().timeline() == s.timeline(),
        s.retire().submit(item).live == 1,
        s.retire().submit(item).spawns == s.spawns + 1,
        s.retire().submit(item).drained().handled == s.timeline().push(item),
{
    lemma_submit_revives(s.retire(), item);
}

/// Any number of producers that all submit to a dead worker start exactly one
/// consumer between them, in whatever order their submissions take effect.
/// Every one of their items is queued once, and that consumer handles each
/// exactly once unless the handler fails.
pub proof fn lemma_racing_submits_spawn_once<T>(s: WorkerModel<T>, items: Seq<T>)
    requires
        s.wf(),
        s.live == 0,
        items.len() > 0,
    ensures
        s.run(submit_events(items)).spawns == s.spawns + 1,
        s.run(submit_events(items)).live == 1,
        s.run(submit_events(items)).pending == s.pending + items,
        s.run(submit_events(items)).drained().handled == s.timeline() + items,
        s.run(submit_events(items)).drained().pending.len() == 0,
        s.run(submit_events(items)).drained().spawns == s.spawns + 1,
{
    let after = s.run(submit_events(items));
    lemma_submits(s, items);
    lemma_drained(after);
    assert(after.timeline() =~= s.timeline() + items);
}

} // verus!
