//! The dispatch channel: one first-in, first-out queue of messages with a
//! producer side that can be closed.

use crate::message::Message;
use std::collections::VecDeque;
use vstd::prelude::*;

verus! {

/// What one attempt to receive yields.
#[derive(Debug, PartialEq, Eq)]
pub enum Received<J> {
    /// The oldest message, now removed from the channel.
    Message(Message<J>),
    /// Nothing is queued, but the producer side is open: a receiver waits.
    Empty,
    /// Nothing is queued and the producer side is closed: nothing will come.
    Closed,
}

/// The contents of a channel: the queued messages, oldest first, and whether
/// the producer side is still open.
#[verifier::ext_equal]
pub struct ChannelState<J> {
    pub queue: Seq<Message<J>>,
    pub open: bool,
}

impl<J> ChannelState<J> {
    /// An open channel with nothing queued.
    pub open spec fn fresh() -> Self {
        ChannelState { queue: Seq::empty(), open: true }
    }

    /// Sending appends at the back while the channel is open, and changes
    /// nothing once it is closed.
    pub open spec fn send(self, message: Message<J>) -> Self {
        if self.open {
            ChannelState { queue: self.queue.push(message), open: true }
        } else {
            self
        }
    }

    /// What a receiver is handed.
    pub open spec fn front(self) -> Received<J> {
        if self.queue.len() > 0 {
            Received::Message(self.queue[0])
        } else if self.open {
            Received::Empty
        } else {
            Received::Closed
        }
    }

    /// The channel after one receive: without its oldest message.
    pub open spec fn pop(self) -> Self {
        if self.queue.len() > 0 {
            ChannelState { queue: self.queue.skip(1), open: self.open }
        } else {
            self
        }
    }

    /// Closing keeps what is queued.
    pub open spec fn close(self) -> Self {
        ChannelState { queue: self.queue, open: false }
    }
}

/// A first-in, first-out queue of messages. Its producer side can be closed;
/// what was queued before stays receivable.
pub struct DispatchChannel<J> {
    queue: VecDeque<Message<J>>,
    open: bool,
}

impl<J> View for DispatchChannel<J> {
    type V = ChannelState<J>;

    closed spec fn view(&self) -> ChannelState<J> {
        ChannelState { queue: self.queue@, open: self.open }
    }
}

impl<J> DispatchChannel<J> {
    /// An open channel with nothing queued.
    pub fn new() -> (channel: Self)
        ensures
            channel@ == ChannelState::<J>::fresh(),
    {
        DispatchChannel { queue: VecDeque::new(), open: true }
    }

    /// Appends `message` behind everything already queued. On a closed
    /// channel nothing is queued and the message comes back.
    pub fn send(&mut self, message: Message<J>) -> (result: Result<(), Message<J>>)
        ensures
            final(self)@ == old(self)@.send(message),
            old(self)@.open ==> result is Ok,
            !old(self)@.open ==> result == Err::<(), Message<J>>(message),
    {
        if self.open {
            self.queue.push_back(message);
            Ok(())
        } else {
            Err(message)
        }
    }

    /// Removes and returns the oldest message. With nothing queued it says
    /// whether more can still come.
    pub fn receive(&mut self) -> (received: Received<J>)
        ensures
            received == old(self)@.front(),
            final(self)@ == old(self)@.pop(),
    {
        match self.queue.pop_front() {
            Some(message) => Received::Message(message),
            None => if self.open {
                Received::Empty
            } else {
                Received::Closed
            },
        }
    }

    /// Closes the producer side: later sends fail.
    pub fn close(&mut self)
        ensures
            final(self)@ == old(self)@.close(),
    {
        self.open = false;
    }

    /// Whether the producer side is open.
    pub fn is_open(&self) -> (open: bool)
        ensures
            open == self@.open,
    {
        self.open
    }

    /// The number of queued messages.
    pub fn len(&self) -> (len: usize)
        ensures
            len == self@.queue.len(),
    {
        self.queue.len()
    }
}

} // verus!
