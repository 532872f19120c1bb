//! What holds of every run of a pool, whatever the order in which callers
//! submit, workers receive, jobs fail and shutdown begins.
//!
//! A run is a sequence of events. Each call of `execute`, `receive`, `fault`
//! or `shutdown` on a pool is one event, and takes the pool from one state to
//! the next as `PoolState::step` says. A pool behind a lock goes through its
//! calls one at a time, so whatever its threads do, what it goes through is
//! such a run, and what is proved here of every run holds of it.

use crate::history::{
    deliveries, delivered_by, exit_by, exits, jobs_of, messages_of, queued, queued_by,
    receive_count, stop_count, Delivery, Exit, ExitCause,
};
use crate::message::Message;
use crate::state::{running_count, stops, Event, PoolState};
use crate::worker::{Action, WorkerState};
use vstd::prelude::*;

verus! {

proof fn lemma_messages_of_concat<J>(a: Seq<Delivery<J>>, b: Seq<Delivery<J>>)
    ensures
        messages_of(a + b) == messages_of(a) + messages_of(b),
{
    assert(messages_of(a + b) =~= messages_of(a) + messages_of(b));
}

proof fn lemma_jobs_of_concat<J>(a: Seq<Message<J>>, b: Seq<Message<J>>)
    ensures
        jobs_of(a + b) == jobs_of(a) + jobs_of(b),
    decreases b.len(),
{
    if b.len() == 0 {
        assert(a + b =~= a);
        assert(jobs_of(a) + jobs_of(b) =~= jobs_of(a));
    } else {
        assert((a + b).drop_last() =~= a + b.drop_last());
        lemma_jobs_of_concat(a, b.drop_last());
        assert(jobs_of(a + b) =~= jobs_of(a) + jobs_of(b));
    }
}

/// One event keeps the books: what it hands out, followed by what is queued
/// after it, is what was queued before it followed by what it queues.
pub proof fn lemma_step_conserves_messages<J>(state: PoolState<J>, event: Event<J>)
    ensures
        messages_of(delivered_by(state, event)) + state.step(event).channel.queue
            == state.channel.queue + queued_by(state, event),
{
    assert(messages_of(delivered_by(state, event)) + state.step(event).channel.queue
        =~= state.channel.queue + queued_by(state, event));
}

/// The channel loses nothing, repeats nothing and reorders nothing: the
/// messages handed out so far, in the order of their delivery, followed by
/// the messages still queued, are the messages that were queued at the
/// start followed by the messages queued since, in the order of their
/// queueing.
pub proof fn lemma_channel_conserves_messages<J>(start: PoolState<J>, events: Seq<Event<J>>)
    ensures
        messages_of(deliveries(start, events)) + start.run(events).channel.queue
            == start.channel.queue + queued(start, events),
    decreases events.len(),
{
    if events.len() == 0 {
        assert(messages_of(deliveries(start, events)) + start.run(events).channel.queue
            =~= start.channel.queue + queued(start, events));
    } else {
        let earlier = events.drop_last();
        let state = start.run(earlier);
        let event = events.last();
        lemma_channel_conserves_messages(start, earlier);
        lemma_step_conserves_messages(state, event);
        lemma_messages_of_concat(deliveries(start, earlier), delivered_by(state, event));
        let handed = messages_of(deliveries(start, earlier));
        let taken = messages_of(delivered_by(state, event));
        assert(messages_of(deliveries(start, events)) + start.run(events).channel.queue
            =~= handed + (taken + state.step(event).channel.queue));
        assert(start.channel.queue + queued(start, events)
            =~= (start.channel.queue + queued(start, earlier)) + queued_by(state, event));
        assert(handed + (state.channel.queue + queued_by(state, event))
            =~= (handed + state.channel.queue) + queued_by(state, event));
    }
}

/// No message is delivered twice: in a pool that started with `size`
/// workers, the k-th delivery, to whichever worker it goes, is the k-th
/// message that was queued. So no two deliveries, and no two workers, share
/// a message, and what was not delivered yet is still queued, in order.
pub proof fn lemma_no_double_delivery<J>(size: nat, events: Seq<Event<J>>)
    ensures
        ({
            let start = PoolState::<J>::init(size);
            let sent = queued(start, events);
            let handed = deliveries(start, events);
            &&& handed.len() <= sent.len()
            &&& forall|k: int| 0 <= k < handed.len() ==> (#[trigger] handed[k]).message == sent[k]
            &&& start.run(events).channel.queue == sent.skip(handed.len() as int)
        }),
{
    let start = PoolState::<J>::init(size);
    let sent = queued(start, events);
    let handed = deliveries(start, events);
    let left = start.run(events).channel.queue;
    lemma_channel_conserves_messages(start, events);
    assert(start.channel.queue + sent =~= sent);
    assert(sent == messages_of(handed) + left);
    assert(sent.len() == handed.len() + left.len());
    assert forall|k: int| 0 <= k < handed.len() implies (#[trigger] handed[k]).message
        == sent[k] by {
        assert(messages_of(handed)[k] == handed[k].message);
    }
    assert(left =~= sent.skip(handed.len() as int));
}

/// Jobs are delivered in the order of their submission: in a pool that
/// started with `size` workers, the k-th job handed to a worker is the k-th
/// job that was accepted. So of two accepted jobs the later one is never
/// delivered before the earlier one.
pub proof fn lemma_jobs_delivered_in_submission_order<J>(size: nat, events: Seq<Event<J>>)
    ensures
        ({
            let start = PoolState::<J>::init(size);
            let accepted = jobs_of(queued(start, events));
            let handed = jobs_of(messages_of(deliveries(start, events)));
            &&& handed.len() <= accepted.len()
            &&& forall|k: int| 0 <= k < handed.len() ==> handed[k] == accepted[k]
        }),
{
    let start = PoolState::<J>::init(size);
    lemma_channel_conserves_messages(start, events);
    assert(start.channel.queue + queued(start, events) =~= queued(start, events));
    lemma_jobs_of_concat(
        messages_of(deliveries(start, events)),
        start.run(events).channel.queue,
    );
}

proof fn lemma_stop_count_concat<J>(a: Seq<Message<J>>, b: Seq<Message<J>>)
    ensures
        stop_count(a + b) == stop_count(a) + stop_count(b),
    decreases b.len(),
{
    if b.len() == 0 {
        assert(a + b =~= a);
    } else {
        assert((a + b).drop_last() =~= a + b.drop_last());
        lemma_stop_count_concat(a, b.drop_last());
    }
}

proof fn lemma_stop_count_of_stops<J>(count: nat)
    ensures
        stop_count(stops::<J>(count)) == count,
    decreases count,
{
    if count > 0 {
        assert(stops::<J>(count).drop_last() =~= stops::<J>((count - 1) as nat));
        lemma_stop_count_of_stops::<J>((count - 1) as nat);
    }
}

proof fn lemma_no_jobs_among_stops<J>(messages: Seq<Message<J>>)
    requires
        forall|i: int| 0 <= i < messages.len() ==> messages[i] is Terminate,
    ensures
        jobs_of(messages) == Seq::<J>::empty(),
    decreases messages.len(),
{
    if messages.len() > 0 {
        lemma_no_jobs_among_stops(messages.drop_last());
    }
}

proof fn lemma_no_stops_among_jobs<J>(messages: Seq<Message<J>>)
    requires
        forall|i: int| 0 <= i < messages.len() ==> messages[i] is NewJob,
    ensures
        stop_count(messages) == 0,
    decreases messages.len(),
{
    if messages.len() > 0 {
        lemma_no_stops_among_jobs(messages.drop_last());
    }
}

/// Whether some exit in `left` was not caused by a failing job.
spec fn some_orderly_exit(left: Seq<Exit>) -> bool {
    exists|k: int| 0 <= k < left.len() && (#[trigger] left[k]).cause != ExitCause::Fault
}

/// The shape that the queue keeps: no job stands behind a stop message, an
/// open channel holds no stop message, and once a worker has left other than
/// by a failing job the channel is closed and holds stop messages only.
spec fn stops_come_last<J>(state: PoolState<J>, left: Seq<Exit>) -> bool {
    let queue = state.channel.queue;
    &&& forall|i: int, j: int|
        0 <= i <= j < queue.len() && queue[i] is Terminate ==> queue[j] is Terminate
    &&& state.channel.open ==> forall|i: int| 0 <= i < queue.len() ==> queue[i] is NewJob
    &&& some_orderly_exit(left) ==> !state.channel.open && forall|i: int|
        0 <= i < queue.len() ==> queue[i] is Terminate
}

proof fn lemma_step_keeps_stops_last<J>(state: PoolState<J>, left: Seq<Exit>, event: Event<J>)
    requires
        stops_come_last(state, left),
    ensures
        stops_come_last(state.step(event), left + exit_by(state, event)),
{
    let after = state.step(event);
    let gone = exit_by(state, event);
    let queue = state.channel.queue;
    if some_orderly_exit(left + gone) {
        let k = choose|k: int|
            0 <= k < (left + gone).len() && (#[trigger] (left + gone)[k]).cause
                != ExitCause::Fault;
        if k < left.len() {
            assert(left[k] == (left + gone)[k]);
            assert(some_orderly_exit(left));
        } else {
            assert(gone.len() > 0);
            assert((left + gone)[k] == gone[k - left.len()]);
            assert(queue.len() > 0 ==> queue[0] is Terminate);
            assert(!state.channel.open);
        }
        assert(!after.channel.open);
        assert(forall|i: int|
            0 <= i < after.channel.queue.len() ==> after.channel.queue[i] is Terminate);
    }
}

proof fn lemma_stops_come_last<J>(size: nat, events: Seq<Event<J>>)
    ensures
        stops_come_last(
            PoolState::<J>::init(size).run(events),
            exits(PoolState::<J>::init(size), events),
        ),
    decreases events.len(),
{
    let start = PoolState::<J>::init(size);
    if events.len() > 0 {
        lemma_stops_come_last(size, events.drop_last());
        lemma_step_keeps_stops_last(
            start.run(events.drop_last()),
            exits(start, events.drop_last()),
            events.last(),
        );
    }
}

/// No job is lost to shutdown: in a pool that started with `size` workers,
/// once any worker has left because it took a stop message or found the
/// channel closed and empty, every job that was ever accepted has been
/// handed to a worker, each once and in the order of submission. Stop
/// messages are queued behind the jobs, so no worker sees one while a job
/// waits.
pub proof fn lemma_stop_follows_every_job<J>(size: nat, events: Seq<Event<J>>)
    requires
        ({
            let left = exits(PoolState::<J>::init(size), events);
            exists|k: int| 0 <= k < left.len() && (#[trigger] left[k]).cause != ExitCause::Fault
        }),
    ensures
        ({
            let start = PoolState::<J>::init(size);
            jobs_of(messages_of(deliveries(start, events))) == jobs_of(queued(start, events))
        }),
{
    let start = PoolState::<J>::init(size);
    let queue = start.run(events).channel.queue;
    let handed = messages_of(deliveries(start, events));
    lemma_stops_come_last(size, events);
    assert(some_orderly_exit(exits(start, events)));
    lemma_no_jobs_among_stops(queue);
    lemma_channel_conserves_messages(start, events);
    assert(start.channel.queue + queued(start, events) =~= queued(start, events));
    lemma_jobs_of_concat(handed, queue);
    assert(jobs_of(handed) + Seq::<J>::empty() =~= jobs_of(handed));
}

proof fn lemma_run_keeps_size<J>(start: PoolState<J>, events: Seq<Event<J>>)
    ensures
        start.run(events).workers.len() == start.workers.len(),
    decreases events.len(),
{
    if events.len() > 0 {
        lemma_run_keeps_size(start, events.drop_last());
    }
}

/// Exactly one stop message for each worker: in a pool that started with
/// `size` workers, no stop message has been queued while the pool is open,
/// and exactly `size` have been queued from the moment shutdown began,
/// however often shutdown is asked for.
pub proof fn lemma_one_stop_per_worker<J>(size: nat, events: Seq<Event<J>>)
    ensures
        ({
            let start = PoolState::<J>::init(size);
            stop_count(queued(start, events)) == if start.run(events).channel.open {
                0
            } else {
                size
            }
        }),
    decreases events.len(),
{
    let start = PoolState::<J>::init(size);
    if events.len() > 0 {
        let earlier = events.drop_last();
        let state = start.run(earlier);
        let event = events.last();
        lemma_one_stop_per_worker(size, earlier);
        lemma_run_keeps_size(start, earlier);
        lemma_stop_count_concat(queued(start, earlier), queued_by(state, event));
        match event {
            Event::Submit(job) => {
                if state.channel.open {
                    lemma_no_stops_among_jobs(seq![Message::NewJob(job)]);
                }
            },
            Event::Shutdown => {
                if state.channel.open {
                    lemma_stop_count_of_stops::<J>(size);
                }
            },
            _ => {},
        }
    }
}

proof fn lemma_running_count_of_new(size: nat)
    ensures
        running_count(Seq::new(size, |i: int| WorkerState::Running)) == size,
    decreases size,
{
    if size > 0 {
        assert(Seq::new(size, |i: int| WorkerState::Running).drop_last() =~= Seq::new(
            (size - 1) as nat,
            |i: int| WorkerState::Running,
        ));
        lemma_running_count_of_new((size - 1) as nat);
    }
}

proof fn lemma_running_count_after_exit(workers: Seq<WorkerState>, worker: int)
    requires
        0 <= worker < workers.len(),
        workers[worker] == WorkerState::Running,
    ensures
        running_count(workers.update(worker, WorkerState::Terminated)) + 1 == running_count(
            workers,
        ),
    decreases workers.len(),
{
    let after = workers.update(worker, WorkerState::Terminated);
    if worker == workers.len() - 1 {
        assert(after.drop_last() =~= workers.drop_last());
    } else {
        assert(after.drop_last() =~= workers.drop_last().update(worker, WorkerState::Terminated));
        lemma_running_count_after_exit(workers.drop_last(), worker);
    }
}

proof fn lemma_running_count_of_terminated(workers: Seq<WorkerState>)
    requires
        forall|i: int| 0 <= i < workers.len() ==> workers[i] == WorkerState::Terminated,
    ensures
        running_count(workers) == 0,
    decreases workers.len(),
{
    if workers.len() > 0 {
        lemma_running_count_of_terminated(workers.drop_last());
    }
}

/// What one event does to the workers: either it ends exactly one running
/// worker, the one that `exit_by` names, or it leaves every worker as it
/// was.
pub proof fn lemma_step_exits<J>(state: PoolState<J>, event: Event<J>)
    ensures
        exit_by(state, event).len() <= 1,
        exit_by(state, event).len() == 0 ==> state.step(event).workers == state.workers,
        exit_by(state, event).len() == 1 ==> {
            let worker = exit_by(state, event)[0].worker;
            &&& state.is_running(worker)
            &&& state.step(event).workers == state.workers.update(
                worker,
                WorkerState::Terminated,
            )
        },
{
    let after = state.step(event);
    if exit_by(state, event).len() == 0 {
        assert(after.workers =~= state.workers);
    } else {
        let worker = exit_by(state, event)[0].worker;
        assert(after.workers =~= state.workers.update(worker, WorkerState::Terminated));
    }
}

/// Every worker exits at most once, and the exits account for every worker
/// that is no longer running: in a pool that started with `size` workers,
/// the exits so far and the workers still running add up to `size`, no
/// worker appears in two exits, and every worker that exited is terminated.
/// Once the pool has terminated there have been exactly `size` exits.
pub proof fn lemma_each_worker_exits_once<J>(size: nat, events: Seq<Event<J>>)
    ensures
        ({
            let start = PoolState::<J>::init(size);
            let end = start.run(events);
            let left = exits(start, events);
            &&& end.workers.len() == size
            &&& left.len() + end.running() == size
            &&& forall|i: int, j: int|
                0 <= i < j < left.len() ==> (#[trigger] left[i]).worker != (
                #[trigger] left[j]).worker
            &&& forall|k: int|
                0 <= k < left.len() ==> end.has_worker((#[trigger] left[k]).worker)
                    && end.workers[left[k].worker] == WorkerState::Terminated
            &&& end.terminated() ==> left.len() == size
        }),
    decreases events.len(),
{
    let start = PoolState::<J>::init(size);
    let end = start.run(events);
    let left = exits(start, events);
    if events.len() == 0 {
        lemma_running_count_of_new(size);
    } else {
        let earlier = events.drop_last();
        let state = start.run(earlier);
        let event = events.last();
        let before = exits(start, earlier);
        lemma_each_worker_exits_once(size, earlier);
        lemma_step_exits(state, event);
        if exit_by(state, event).len() == 1 {
            let worker = exit_by(state, event)[0].worker;
            lemma_running_count_after_exit(state.workers, worker);
            assert forall|i: int, j: int| 0 <= i < j < left.len() implies (
            #[trigger] left[i]).worker != (#[trigger] left[j]).worker by {
                assert(left[i] == before[i]);
                if j < before.len() {
                    assert(left[j] == before[j]);
                }
            }
            assert forall|k: int| 0 <= k < left.len() implies end.has_worker(
                (#[trigger] left[k]).worker,
            ) && end.workers[left[k].worker] == WorkerState::Terminated by {
                if k < before.len() {
                    assert(left[k] == before[k]);
                }
            }
        } else {
            assert(left =~= before);
        }
    }
    if end.terminated() {
        lemma_running_count_of_terminated(end.workers);
    }
}

proof fn lemma_exits_without_faults<J>(start: PoolState<J>, events: Seq<Event<J>>)
    requires
        forall|k: int| 0 <= k < events.len() ==> !(events[k] is Fault),
    ensures
        forall|k: int|
            0 <= k < exits(start, events).len() ==> (#[trigger] exits(start, events)[k]).cause
                != ExitCause::Fault,
    decreases events.len(),
{
    if events.len() > 0 {
        let earlier = events.drop_last();
        let before = exits(start, earlier);
        let left = exits(start, events);
        assert forall|k: int| 0 <= k < earlier.len() implies !(earlier[k] is Fault) by {
            assert(earlier[k] == events[k]);
        }
        lemma_exits_without_faults(start, earlier);
        assert(!(events.last() is Fault));
        assert forall|k: int| 0 <= k < left.len() implies (#[trigger] left[k]).cause
            != ExitCause::Fault by {
            if k < before.len() {
                assert(left[k] == before[k]);
            }
        }
    }
}

/// No job is lost: in a pool that started with at least one worker and in
/// which no job failed, once every worker has exited, every job that was
/// ever accepted has been handed to a worker, each once and in the order of
/// submission.
pub proof fn lemma_no_job_lost<J>(size: nat, events: Seq<Event<J>>)
    requires
        size > 0,
        forall|k: int| 0 <= k < events.len() ==> !(events[k] is Fault),
        PoolState::<J>::init(size).run(events).terminated(),
    ensures
        ({
            let start = PoolState::<J>::init(size);
            jobs_of(messages_of(deliveries(start, events))) == jobs_of(queued(start, events))
        }),
{
    let start = PoolState::<J>::init(size);
    lemma_each_worker_exits_once(size, events);
    lemma_exits_without_faults(start, events);
    assert(exits(start, events)[0].cause != ExitCause::Fault);
    lemma_stop_follows_every_job(size, events);
}

/// A worker is told to run a job exactly when that job is the message handed
/// to it: the jobs among the deliveries are the jobs that the workers run.
pub proof fn lemma_run_is_a_delivery<J>(state: PoolState<J>, worker: int, job: J)
    ensures
        state.action(worker) == Action::Run(job) <==> delivered_by(state, Event::Receive(worker))
            == seq![Delivery { worker, message: Message::NewJob(job) }],
{
    let handed = delivered_by(state, Event::Receive(worker));
    if handed == seq![Delivery { worker, message: Message::NewJob(job) }] {
        assert(handed.len() == 1);
        assert(handed[0] == Delivery { worker, message: Message::NewJob(job) });
    }
}

/// Shutdown is for good: once the channel is closed it stays closed whatever
/// happens next, and nothing is queued any more. Every later submission is
/// rejected, and a later shutdown adds no stop message.
pub proof fn lemma_nothing_queued_after_shutdown<J>(state: PoolState<J>, events: Seq<Event<J>>)
    requires
        !state.channel.open,
    ensures
        !state.run(events).channel.open,
        queued(state, events) == Seq::<Message<J>>::empty(),
    decreases events.len(),
{
    if events.len() > 0 {
        lemma_nothing_queued_after_shutdown(state, events.drop_last());
    }
}

/// A worker waits only for work: it is told to wait exactly when it is
/// running, nothing is queued and the channel is open. So after shutdown no
/// worker waits: one that asks is handed a message or told to exit.
pub proof fn lemma_worker_waits_only_for_work<J>(state: PoolState<J>, worker: int)
    ensures
        state.action(worker) is Wait <==> state.is_running(worker) && state.channel.queue.len()
            == 0 && state.channel.open,
        !state.channel.open ==> !(state.action(worker) is Wait),
{
}

/// An exit is final: a worker that has exited stays terminated whatever
/// happens next, is told to exit whenever it asks, and is handed no message
/// again.
pub proof fn lemma_exit_is_final<J>(state: PoolState<J>, events: Seq<Event<J>>, worker: int)
    requires
        state.has_worker(worker),
        state.workers[worker] == WorkerState::Terminated,
    ensures
        state.run(events).has_worker(worker),
        state.run(events).workers[worker] == WorkerState::Terminated,
        state.run(events).action(worker) == Action::<J>::Exit,
        forall|k: int|
            0 <= k < deliveries(state, events).len() ==> (#[trigger] deliveries(
                state,
                events,
            )[k]).worker != worker,
    decreases events.len(),
{
    if events.len() > 0 {
        let earlier = events.drop_last();
        let before = deliveries(state, earlier);
        let handed = deliveries(state, events);
        lemma_exit_is_final(state, earlier, worker);
        assert forall|k: int| 0 <= k < handed.len() implies (#[trigger] handed[k]).worker
            != worker by {
            if k < before.len() {
                assert(handed[k] == before[k]);
            }
        }
    }
}

/// While `worker` runs on a closed channel, each of its receives takes one
/// message, and nothing is queued any more: so the messages still queued and
/// the receives it has made fit into what was queued when the run began.
proof fn lemma_receives_drain_closed_channel<J>(
    state: PoolState<J>,
    events: Seq<Event<J>>,
    worker: int,
)
    requires
        !state.channel.open,
        state.has_worker(worker),
    ensures
        !state.run(events).channel.open,
        state.run(events).has_worker(worker),
        state.run(events).workers[worker] == WorkerState::Running ==> state.run(
            events,
        ).channel.queue.len() + receive_count(events, worker) <= state.channel.queue.len(),
    decreases events.len(),
{
    if events.len() > 0 {
        lemma_receives_drain_closed_channel(state, events.drop_last(), worker);
    }
}

/// Shutdown ends every worker that keeps asking: once the channel is closed,
/// a worker that has asked for a message more often than messages were
/// queued at that moment has exited. It never has to wait, and `len + 1`
/// receives are enough whatever the other workers and callers do meanwhile.
pub proof fn lemma_worker_exits_after_shutdown<J>(
    state: PoolState<J>,
    events: Seq<Event<J>>,
    worker: int,
)
    requires
        !state.channel.open,
        state.has_worker(worker),
        receive_count(events, worker) > state.channel.queue.len(),
    ensures
        state.run(events).workers[worker] == WorkerState::Terminated,
{
    lemma_receives_drain_closed_channel(state, events, worker);
}

/// Shutdown terminates the pool: once the channel is closed and every worker
/// has asked for a message more often than messages were queued at that
/// moment, every worker has exited.
pub proof fn lemma_pool_terminates_after_shutdown<J>(state: PoolState<J>, events: Seq<Event<J>>)
    requires
        !state.channel.open,
        forall|worker: int|
            state.has_worker(worker) ==> #[trigger] receive_count(events, worker)
                > state.channel.queue.len(),
    ensures
        state.run(events).terminated(),
{
    let end = state.run(events);
    lemma_run_keeps_size(state, events);
    assert forall|worker: int| 0 <= worker < end.workers.len() implies end.workers[worker]
        == WorkerState::Terminated by {
        assert(state.has_worker(worker));
        assert(receive_count(events, worker) > state.channel.queue.len());
        lemma_worker_exits_after_shutdown(state, events, worker);
    }
}

} // verus!
