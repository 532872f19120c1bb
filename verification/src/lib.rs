//! A fixed-size pool of workers fed from one first-in, first-out dispatch
//! channel, with an orderly shutdown.
//!
//! The crate holds the protocol of the pool: what a submission does to the
//! channel, what a worker does with what it receives, and what shutdown
//! enqueues. The pool is a plain value; a caller that wants real threads puts
//! it behind a lock and lets each thread drive one worker.

pub mod channel;
pub mod guarantees;
pub mod history;
pub mod message;
pub mod state;
pub mod thread_pool;
pub mod worker;

pub use channel::{ChannelState, DispatchChannel, Received};
pub use message::Message;
pub use state::{Event, PoolState};
pub use thread_pool::{BuildError, Rejected, ThreadPool, ThreadPoolBuilder};
pub use worker::{Action, Worker, WorkerState};
