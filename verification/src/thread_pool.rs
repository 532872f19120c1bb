//! The pool: a fixed set of workers and the channel that feeds them.

use crate::channel::DispatchChannel;
use crate::message::Message;
use crate::state::{running_count, stops, PoolState};
use crate::worker::{Action, Worker, WorkerState};
use std::marker::PhantomData;
use vstd::prelude::*;

verus! {

/// A job that was submitted after shutdown. It was not queued and will not
/// run; it is handed back.
#[derive(Debug, PartialEq, Eq)]
pub struct Rejected<J> {
    pub job: J,
}

/// Why no pool was built.
#[derive(Clone, Copy, Debug, PartialEq, Eq, Structural)]
pub enum BuildError {
    /// A pool of zero workers was asked for: it could accept jobs and never
    /// run one.
    ZeroWorkers,
}

/// A fixed number of workers and the dispatch channel they share.
///
/// The pool decides; it runs nothing itself. `execute` queues a job,
/// `receive` hands the oldest message to the worker that asks, and `shutdown`
/// queues the stop messages. Whoever drives a worker runs the jobs that
/// `receive` returns.
pub struct ThreadPool<J> {
    workers: Vec<Worker>,
    channel: DispatchChannel<J>,
}

impl<J> View for ThreadPool<J> {
    type V = PoolState<J>;

    closed spec fn view(&self) -> PoolState<J> {
        PoolState {
            channel: self.channel@,
            workers: Seq::new(self.workers@.len(), |i: int| self.workers@[i].state()),
        }
    }
}

impl<J> ThreadPool<J> {
    /// Every pool that this module hands out is well formed: it has at least
    /// one worker, and each worker stands at the index of its ordinal.
    pub closed spec fn wf(&self) -> bool {
        &&& self.workers@.len() > 0
        &&& forall|i: int| 0 <= i < self.workers@.len() ==> (#[trigger] self.workers@[i]).id() == i
    }

    /// A pool of `size` running workers, with ordinals from 0 up, on an open
    /// and empty channel.
    pub fn new(size: usize) -> (pool: ThreadPool<J>)
        requires
            size > 0,
        ensures
            pool.wf(),
            pool@ == PoolState::<J>::init(size as nat),
    {
        let mut workers: Vec<Worker> = Vec::new();
        let mut id: usize = 0;
        while id < size
            invariant
                id <= size,
                workers@.len() == id,
                forall|i: int| 0 <= i < id ==> (#[trigger] workers@[i]).id() == i,
                forall|i: int|
                    0 <= i < id ==> (#[trigger] workers@[i]).state() == WorkerState::Running,
            decreases size - id,
        {
            workers.push(Worker::new(id));
            id += 1;
        }
        let pool = ThreadPool { workers, channel: DispatchChannel::new() };
        assert(pool@ =~~= PoolState::<J>::init(size as nat));
        pool
    }

    /// A builder for a pool: set a size, or leave it to the number of
    /// processors, then finalize.
    pub fn build() -> (builder: ThreadPoolBuilder<J>)
        ensures
            builder.requested() is None,
    {
        ThreadPoolBuilder::new()
    }

    /// Queues `job` behind everything queued so far. After shutdown the job
    /// is handed back and nothing changes.
    pub fn execute(&mut self, job: J) -> (result: Result<(), Rejected<J>>)
        ensures
            old(self).wf() ==> final(self).wf(),
            final(self)@ == old(self)@.submit(job),
            old(self)@.channel.open ==> result is Ok,
            !old(self)@.channel.open ==> result == Err::<(), Rejected<J>>(Rejected { job }),
    {
        if self.channel.is_open() {
            let _ = self.channel.send(Message::NewJob(job));
            Ok(())
        } else {
            Err(Rejected { job })
        }
    }

    /// Begins shutdown: queues one stop message for each worker behind
    /// everything queued so far, then closes the channel to submissions.
    /// What was queued before stays queued and is handed out first. Calling
    /// it again changes nothing.
    pub fn shutdown(&mut self)
        ensures
            old(self).wf() ==> final(self).wf(),
            final(self)@ == old(self)@.shutdown(),
    {
        if self.channel.is_open() {
            let size = self.workers.len();
            let mut sent: usize = 0;
            while sent < size
                invariant
                    sent <= size,
                    size == self.workers@.len(),
                    self.workers == old(self).workers,
                    self.channel@.open,
                    self.channel@.queue == old(self).channel@.queue + stops::<J>(sent as nat),
                decreases size - sent,
            {
                let _ = self.channel.send(Message::Terminate);
                sent += 1;
            }
            self.channel.close();
            assert(self@ =~~= old(self)@.shutdown());
        }
    }

    /// Hands the oldest queued message to `worker` and says what the worker
    /// does next. A job is removed from the channel as it is handed out, so
    /// no other worker can get it. A stop message, or a closed and empty
    /// channel, ends the worker. A worker that has exited, or an ordinal that
    /// the pool does not have, is told to exit and takes nothing.
    pub fn receive(&mut self, worker: usize) -> (action: Action<J>)
        ensures
            old(self).wf() ==> final(self).wf(),
            action == old(self)@.action(worker as int),
            final(self)@ == old(self)@.receive(worker as int),
    {
        if worker < self.workers.len() {
            let action = self.workers[worker].poll(&mut self.channel);
            assert(self@ =~~= old(self)@.receive(worker as int));
            action
        } else {
            Action::Exit
        }
    }

    /// Records that the job `worker` was running failed beyond recovery: the
    /// worker is gone, the job is not retried, and no other worker is
    /// touched.
    pub fn fault(&mut self, worker: usize)
        ensures
            old(self).wf() ==> final(self).wf(),
            final(self)@ == old(self)@.fault(worker as int),
    {
        if worker < self.workers.len() {
            self.workers[worker].fault();
            assert(self@ =~~= old(self)@.fault(worker as int));
        }
    }

    /// The number of workers that the pool was built with.
    pub fn size(&self) -> (size: usize)
        ensures
            size == self@.workers.len(),
            self.wf() ==> size > 0,
    {
        self.workers.len()
    }

    /// The number of messages, jobs and stops, that no worker has taken yet.
    pub fn pending(&self) -> (pending: usize)
        ensures
            pending == self@.channel.queue.len(),
    {
        self.channel.len()
    }

    /// Whether the pool still accepts jobs: true until shutdown begins.
    pub fn is_open(&self) -> (open: bool)
        ensures
            open == self@.channel.open,
    {
        self.channel.is_open()
    }

    /// The worker with the ordinal `worker`, or `None` for an ordinal that
    /// the pool does not have.
    pub fn worker(&self, worker: usize) -> (found: Option<&Worker>)
        ensures
            found is Some <==> self@.has_worker(worker as int),
            found matches Some(found) ==> {
                &&& found.state() == self@.workers[worker as int]
                &&& self.wf() ==> found.id() == worker
            },
    {
        if worker < self.workers.len() {
            Some(&self.workers[worker])
        } else {
            None
        }
    }

    /// The number of workers that are still running: what is left of the
    /// pool's capacity.
    pub fn running(&self) -> (running: usize)
        ensures
            running == self@.running(),
    {
        let mut running: usize = 0;
        let mut index: usize = 0;
        while index < self.workers.len()
            invariant
                index <= self.workers@.len(),
                running <= index,
                running == running_count(self@.workers.take(index as int)),
            decreases self.workers@.len() - index,
        {
            assert(self@.workers.take(index + 1).drop_last() =~= self@.workers.take(index as int));
            if self.workers[index].is_running() {
                running += 1;
            }
            index += 1;
        }
        assert(self@.workers.take(index as int) =~= self@.workers);
        running
    }

    /// Whether every worker has exited: what a caller that joins the workers
    /// waits for.
    pub fn is_terminated(&self) -> (terminated: bool)
        ensures
            terminated == self@.terminated(),
    {
        let mut index: usize = 0;
        while index < self.workers.len()
            invariant
                index <= self.workers@.len(),
                forall|i: int| 0 <= i < index ==> self@.workers[i] == WorkerState::Terminated,
            decreases self.workers@.len() - index,
        {
            if self.workers[index].is_running() {
                assert(self@.workers[index as int] == WorkerState::Running);
                return false;
            }
            index += 1;
        }
        true
    }
}

/// The size that a pool is built with: the size that was asked for, and
/// otherwise the number of processors that was detected, or one where none
/// was.
pub open spec fn resolved_size(requested: Option<usize>, detected: usize) -> usize {
    match requested {
        Some(size) => size,
        None => if detected == 0 {
            1
        } else {
            detected
        },
    }
}

/// Asks `num_cpus::get` for the number of logical processors that this
/// process may use. The answer depends on the machine and on how the process
/// is confined when the call is made, so two calls may differ. Its
/// documentation promises at least one; on some platforms its code passes on
/// what the operating system reports, so nothing is claimed of the count
/// here, and the caller treats zero as "none detected".
#[verifier::external_body]
fn detected_processors() -> (count: usize) {
    num_cpus::get()
}

/// Collects the settings of a pool before it is built.
pub struct ThreadPoolBuilder<J> {
    size: Option<usize>,
    job: PhantomData<J>,
}

impl<J> ThreadPoolBuilder<J> {
    /// The size that was asked for, if any.
    pub closed spec fn requested(&self) -> Option<usize> {
        self.size
    }

    /// A builder with no size asked for.
    pub fn new() -> (builder: Self)
        ensures
            builder.requested() is None,
    {
        ThreadPoolBuilder { size: None, job: PhantomData }
    }

    /// Asks for a pool of `size` workers. The last size asked for counts.
    pub fn with_size(self, size: usize) -> (builder: Self)
        ensures
            builder.requested() == Some(size),
    {
        ThreadPoolBuilder { size: Some(size), job: PhantomData }
    }

    /// Builds the pool, given the number of processors that was detected. A
    /// size that was asked for counts as it is, and zero is refused: it is
    /// not raised to one. With no size asked for the pool gets one worker for
    /// each detected processor, and one worker where none was detected.
    pub fn finalize_with(self, detected: usize) -> (result: Result<ThreadPool<J>, BuildError>)
        ensures
            match result {
                Ok(pool) => {
                    &&& resolved_size(self.requested(), detected) > 0
                    &&& pool.wf()
                    &&& pool@ == PoolState::<J>::init(
                        resolved_size(self.requested(), detected) as nat,
                    )
                },
                Err(error) => {
                    &&& self.requested() == Some(0usize)
                    &&& error == BuildError::ZeroWorkers
                },
            },
    {
        let size = match self.size {
            Some(size) => size,
            None => if detected == 0 {
                1
            } else {
                detected
            },
        };
        if size == 0 {
            Err(BuildError::ZeroWorkers)
        } else {
            Ok(ThreadPool::new(size))
        }
    }

    /// Builds the pool. A size that was asked for counts as it is, and zero is
    /// refused. With no size asked for the pool gets one worker for each
    /// processor that this process may use, and at least one.
    pub fn finalize(self) -> (result: Result<ThreadPool<J>, BuildError>)
        ensures
            result is Err <==> self.requested() == Some(0usize),
            result matches Err(error) ==> error == BuildError::ZeroWorkers,
            result matches Ok(pool) ==> {
                &&& pool.wf()
                &&& pool@ == PoolState::<J>::init(pool@.workers.len())
                &&& self.requested() matches Some(size) ==> pool@.workers.len() == size
                &&& exists|detected: usize|
                    pool@.workers.len() == #[trigger] resolved_size(self.requested(), detected)
            },
    {
        let detected = detected_processors();
        self.finalize_with(detected)
    }
}

} // verus!
