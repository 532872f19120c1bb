//! What a run of events put into the channel, what it handed out and to
//! whom, and which workers it ended.

use crate::message::Message;
use crate::state::{stops, Event, PoolState};
use vstd::prelude::*;

verus! {

/// One message handed to one worker.
pub struct Delivery<J> {
    pub worker: int,
    pub message: Message<J>,
}

/// Why a worker exited.
pub enum ExitCause {
    /// It took a stop message.
    Stopped,
    /// It found the channel closed and empty.
    Closed,
    /// The job it was running failed beyond recovery.
    Fault,
}

/// One worker's exit.
pub struct Exit {
    pub worker: int,
    pub cause: ExitCause,
}

/// The messages that `event` puts into the channel of `state`: one job for a
/// submission, one stop for each worker for a shutdown, and nothing once the
/// channel is closed.
pub open spec fn queued_by<J>(state: PoolState<J>, event: Event<J>) -> Seq<Message<J>> {
    match event {
        Event::Submit(job) => if state.channel.open {
            seq![Message::NewJob(job)]
        } else {
            Seq::empty()
        },
        Event::Shutdown => if state.channel.open {
            stops(state.workers.len())
        } else {
            Seq::empty()
        },
        _ => Seq::empty(),
    }
}

/// The message that `event` takes out of the channel of `state`, with the
/// worker that gets it: the oldest one, when a running worker receives.
pub open spec fn delivered_by<J>(state: PoolState<J>, event: Event<J>) -> Seq<Delivery<J>> {
    match event {
        Event::Receive(worker) => if state.is_running(worker) && state.channel.queue.len() > 0 {
            seq![Delivery { worker, message: state.channel.queue[0] }]
        } else {
            Seq::empty()
        },
        _ => Seq::empty(),
    }
}

/// The exit that `event` causes in `state`, if any: of a running worker that
/// receives a stop message or finds the channel closed and empty, or whose
/// job fails.
pub open spec fn exit_by<J>(state: PoolState<J>, event: Event<J>) -> Seq<Exit> {
    match event {
        Event::Receive(worker) => if !state.is_running(worker) {
            Seq::empty()
        } else if state.channel.queue.len() > 0 {
            if state.channel.queue[0] is Terminate {
                seq![Exit { worker, cause: ExitCause::Stopped }]
            } else {
                Seq::empty()
            }
        } else if state.channel.open {
            Seq::empty()
        } else {
            seq![Exit { worker, cause: ExitCause::Closed }]
        },
        Event::Fault(worker) => if state.is_running(worker) {
            seq![Exit { worker, cause: ExitCause::Fault }]
        } else {
            Seq::empty()
        },
        _ => Seq::empty(),
    }
}

/// Every message that `events` put into the channel, starting from `start`,
/// in the order in which they were queued.
pub open spec fn queued<J>(start: PoolState<J>, events: Seq<Event<J>>) -> Seq<Message<J>>
    decreases events.len(),
{
    if events.len() == 0 {
        Seq::empty()
    } else {
        queued(start, events.drop_last()) + queued_by(
            start.run(events.drop_last()),
            events.last(),
        )
    }
}

/// Every delivery that `events` made, starting from `start`, in the order in
/// which they were made.
pub open spec fn deliveries<J>(start: PoolState<J>, events: Seq<Event<J>>) -> Seq<Delivery<J>>
    decreases events.len(),
{
    if events.len() == 0 {
        Seq::empty()
    } else {
        deliveries(start, events.drop_last()) + delivered_by(
            start.run(events.drop_last()),
            events.last(),
        )
    }
}

/// Every exit that `events` caused, starting from `start`, in the order in
/// which they happened.
pub open spec fn exits<J>(start: PoolState<J>, events: Seq<Event<J>>) -> Seq<Exit>
    decreases events.len(),
{
    if events.len() == 0 {
        Seq::empty()
    } else {
        exits(start, events.drop_last()) + exit_by(start.run(events.drop_last()), events.last())
    }
}

/// The messages of `deliveries`, in order.
pub open spec fn messages_of<J>(deliveries: Seq<Delivery<J>>) -> Seq<Message<J>> {
    Seq::new(deliveries.len(), |k: int| deliveries[k].message)
}

/// The jobs among `messages`, in order.
pub open spec fn jobs_of<J>(messages: Seq<Message<J>>) -> Seq<J>
    decreases messages.len(),
{
    if messages.len() == 0 {
        Seq::empty()
    } else {
        match messages.last() {
            Message::NewJob(job) => jobs_of(messages.drop_last()).push(job),
            Message::Terminate => jobs_of(messages.drop_last()),
        }
    }
}

/// The number of stop messages among `messages`.
pub open spec fn stop_count<J>(messages: Seq<Message<J>>) -> nat
    decreases messages.len(),
{
    if messages.len() == 0 {
        0
    } else {
        match messages.last() {
            Message::NewJob(_) => stop_count(messages.drop_last()),
            Message::Terminate => stop_count(messages.drop_last()) + 1,
        }
    }
}

/// How often `worker` asks for a message in `events`.
pub open spec fn receive_count<J>(events: Seq<Event<J>>, worker: int) -> nat
    decreases events.len(),
{
    if events.len() == 0 {
        0
    } else {
        match events.last() {
            Event::Receive(w) => if w == worker {
                receive_count(events.drop_last(), worker) + 1
            } else {
                receive_count(events.drop_last(), worker)
            },
            _ => receive_count(events.drop_last(), worker),
        }
    }
}

} // verus!
