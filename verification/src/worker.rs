//! A worker: it takes one message at a time from the dispatch channel, runs
//! the job it is given, and exits when it is told to stop.

use crate::channel::{ChannelState, DispatchChannel, Received};
use crate::message::Message;
use vstd::prelude::*;

verus! {

/// A worker is running until it stops, and never runs again.
#[derive(Clone, Copy, Debug, PartialEq, Eq, Structural)]
pub enum WorkerState {
    Running,
    Terminated,
}

/// What a worker does after one attempt to receive.
#[derive(Debug, PartialEq, Eq)]
pub enum Action<J> {
    /// Run this job to its end, then receive again.
    Run(J),
    /// Nothing is queued yet: wait until the channel changes, then receive
    /// again.
    Wait,
    /// Leave the loop for good.
    Exit,
}

/// The worker's rule: a job is run, a stop message and a closed channel both
/// end the worker, and an empty open channel makes it wait.
pub open spec fn decide<J>(received: Received<J>) -> Action<J> {
    match received {
        Received::Message(Message::NewJob(job)) => Action::Run(job),
        Received::Message(Message::Terminate) => Action::Exit,
        Received::Empty => Action::Wait,
        Received::Closed => Action::Exit,
    }
}

/// What a worker in `state` does when it polls `channel`. A terminated worker
/// exits again without receiving.
pub open spec fn poll_action<J>(state: WorkerState, channel: ChannelState<J>) -> Action<J> {
    match state {
        WorkerState::Running => decide(channel.front()),
        WorkerState::Terminated => Action::Exit,
    }
}

/// The worker's state after that poll.
pub open spec fn poll_state<J>(state: WorkerState, channel: ChannelState<J>) -> WorkerState {
    if poll_action(state, channel) is Exit {
        WorkerState::Terminated
    } else {
        WorkerState::Running
    }
}

/// The channel after that poll: a running worker takes the oldest message, a
/// terminated one takes nothing.
pub open spec fn poll_channel<J>(state: WorkerState, channel: ChannelState<J>) -> ChannelState<J> {
    match state {
        WorkerState::Running => channel.pop(),
        WorkerState::Terminated => channel,
    }
}

/// One worker of a pool, known by its ordinal.
pub struct Worker {
    id: usize,
    state: WorkerState,
}

impl Worker {
    /// The worker's ordinal, for use in contracts.
    pub closed spec fn spec_id(&self) -> usize {
        self.id
    }

    /// The worker's state, for use in contracts.
    pub closed spec fn spec_state(&self) -> WorkerState {
        self.state
    }

    /// A running worker with the ordinal `id`.
    pub fn new(id: usize) -> (worker: Worker)
        ensures
            worker.id() == id,
            worker.state() == WorkerState::Running,
    {
        Worker { id, state: WorkerState::Running }
    }

    /// The worker's ordinal.
    #[verifier::when_used_as_spec(spec_id)]
    pub fn id(&self) -> (id: usize)
        ensures
            id == self.id(),
    {
        self.id
    }

    /// The worker's state.
    #[verifier::when_used_as_spec(spec_state)]
    pub fn state(&self) -> (state: WorkerState)
        ensures
            state == self.state(),
    {
        self.state
    }

    /// Whether the worker is still running.
    pub fn is_running(&self) -> (running: bool)
        ensures
            running == (self.state() == WorkerState::Running),
    {
        match self.state {
            WorkerState::Running => true,
            WorkerState::Terminated => false,
        }
    }

    /// One turn of the worker's loop: receive once and decide. The job of a
    /// `Run` is the caller's to run before the next poll. After an `Exit` the
    /// worker is terminated, and every later poll exits again and leaves the
    /// channel alone.
    pub fn poll<J>(&mut self, channel: &mut DispatchChannel<J>) -> (action: Action<J>)
        ensures
            final(self).id() == old(self).id(),
            action == poll_action(old(self).state(), old(channel)@),
            final(self).state() == poll_state(old(self).state(), old(channel)@),
            final(channel)@ == poll_channel(old(self).state(), old(channel)@),
    {
        match self.state {
            WorkerState::Terminated => Action::Exit,
            WorkerState::Running => match channel.receive() {
                Received::Message(Message::NewJob(job)) => Action::Run(job),
                Received::Message(Message::Terminate) => {
                    self.state = WorkerState::Terminated;
                    Action::Exit
                },
                Received::Empty => Action::Wait,
                Received::Closed => {
                    self.state = WorkerState::Terminated;
                    Action::Exit
                },
            },
        }
    }

    /// The job that the worker was running failed beyond recovery: the worker
    /// is gone. The job is not retried and no message is taken.
    pub fn fault(&mut self)
        ensures
            final(self).id() == old(self).id(),
            final(self).state() == WorkerState::Terminated,
    {
        self.state = WorkerState::Terminated;
    }
}

} // verus!
