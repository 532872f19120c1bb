//! The pool as a mathematical value, and what each operation does to it.

use crate::channel::ChannelState;
use crate::message::Message;
use crate::worker::{poll_action, poll_channel, poll_state, Action, WorkerState};
use vstd::prelude::*;

verus! {

/// `count` stop messages in a row.
pub open spec fn stops<J>(count: nat) -> Seq<Message<J>> {
    Seq::new(count, |i: int| Message::Terminate)
}

/// The number of running workers among `workers`.
pub open spec fn running_count(workers: Seq<WorkerState>) -> nat
    decreases workers.len(),
{
    if workers.len() == 0 {
        0
    } else {
        match workers.last() {
            WorkerState::Running => running_count(workers.drop_last()) + 1,
            WorkerState::Terminated => running_count(workers.drop_last()),
        }
    }
}

/// One thing that happens to a pool. Whatever runs the pool, with however
/// many threads, what the pool goes through is a sequence of these.
pub enum Event<J> {
    /// A caller submits a job.
    Submit(J),
    /// The worker with this ordinal asks for its next message.
    Receive(int),
    /// The job that the worker with this ordinal was running failed beyond
    /// recovery.
    Fault(int),
    /// A caller begins shutdown.
    Shutdown,
}

/// A pool at one moment: its dispatch channel, and the state of each worker
/// at the index of its ordinal.
#[verifier::ext_equal]
pub struct PoolState<J> {
    pub channel: ChannelState<J>,
    pub workers: Seq<WorkerState>,
}

impl<J> PoolState<J> {
    /// A new pool: `size` running workers on an open, empty channel.
    pub open spec fn init(size: nat) -> Self {
        PoolState {
            channel: ChannelState::fresh(),
            workers: Seq::new(size, |i: int| WorkerState::Running),
        }
    }

    /// Whether `worker` is the ordinal of one of the pool's workers.
    pub open spec fn has_worker(self, worker: int) -> bool {
        0 <= worker < self.workers.len()
    }

    /// Whether `worker` is a worker of the pool that is still running.
    pub open spec fn is_running(self, worker: int) -> bool {
        self.has_worker(worker) && self.workers[worker] == WorkerState::Running
    }

    /// The number of workers that are still running.
    pub open spec fn running(self) -> nat {
        running_count(self.workers)
    }

    /// Whether every worker has exited.
    pub open spec fn terminated(self) -> bool {
        forall|worker: int|
            0 <= worker < self.workers.len() ==> self.workers[worker] == WorkerState::Terminated
    }

    /// A submission queues one job message behind everything queued so far.
    /// After shutdown it changes nothing.
    pub open spec fn submit(self, job: J) -> Self {
        PoolState { channel: self.channel.send(Message::NewJob(job)), workers: self.workers }
    }

    /// Shutdown queues one stop message for each worker of the pool behind
    /// everything queued so far, then closes the channel. A second shutdown
    /// changes nothing.
    pub open spec fn shutdown(self) -> Self {
        if self.channel.open {
            PoolState {
                channel: ChannelState {
                    queue: self.channel.queue + stops(self.workers.len()),
                    open: false,
                },
                workers: self.workers,
            }
        } else {
            self
        }
    }

    /// What `worker` is told when it asks for its next message. An ordinal
    /// that the pool does not have is told to exit.
    pub open spec fn action(self, worker: int) -> Action<J> {
        if self.has_worker(worker) {
            poll_action(self.workers[worker], self.channel)
        } else {
            Action::Exit
        }
    }

    /// The pool after `worker` has asked for its next message.
    pub open spec fn receive(self, worker: int) -> Self {
        if self.has_worker(worker) {
            PoolState {
                channel: poll_channel(self.workers[worker], self.channel),
                workers: self.workers.update(
                    worker,
                    poll_state(self.workers[worker], self.channel),
                ),
            }
        } else {
            self
        }
    }

    /// The pool after the job that `worker` was running has failed beyond
    /// recovery: that worker is gone, and nothing else changes.
    pub open spec fn fault(self, worker: int) -> Self {
        if self.has_worker(worker) {
            PoolState {
                channel: self.channel,
                workers: self.workers.update(worker, WorkerState::Terminated),
            }
        } else {
            self
        }
    }

    /// The pool after `event`.
    pub open spec fn step(self, event: Event<J>) -> Self {
        match event {
            Event::Submit(job) => self.submit(job),
            Event::Receive(worker) => self.receive(worker),
            Event::Fault(worker) => self.fault(worker),
            Event::Shutdown => self.shutdown(),
        }
    }

    /// The pool after each of `events` in turn.
    pub open spec fn run(self, events: Seq<Event<J>>) -> Self
        decreases events.len(),
    {
        if events.len() == 0 {
            self
        } else {
            self.run(events.drop_last()).step(events.last())
        }
    }
}

} // verus!
