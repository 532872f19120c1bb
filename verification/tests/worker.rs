use thread_pool::{Action, DispatchChannel, Message, Worker, WorkerState};

#[test]
fn new_worker_is_running_under_its_ordinal() {
    let worker = Worker::new(4);
    assert_eq!(worker.id(), 4);
    assert_eq!(worker.state(), WorkerState::Running);
    assert!(worker.is_running());
}

#[test]
fn worker_runs_the_job_it_receives_and_stays_running() {
    let mut channel: DispatchChannel<u32> = DispatchChannel::new();
    assert_eq!(channel.send(Message::NewJob(11)), Ok(()));
    let mut worker = Worker::new(0);
    assert_eq!(worker.poll(&mut channel), Action::Run(11));
    assert_eq!(worker.state(), WorkerState::Running);
    assert_eq!(channel.len(), 0);
}

#[test]
fn worker_waits_while_nothing_is_queued() {
    let mut channel: DispatchChannel<u32> = DispatchChannel::new();
    let mut worker = Worker::new(0);
    assert_eq!(worker.poll(&mut channel), Action::Wait);
    assert!(worker.is_running());
    assert_eq!(channel.send(Message::NewJob(3)), Ok(()));
    assert_eq!(worker.poll(&mut channel), Action::Run(3));
}

#[test]
fn worker_exits_on_stop_message() {
    let mut channel: DispatchChannel<u32> = DispatchChannel::new();
    assert_eq!(channel.send(Message::Terminate), Ok(()));
    let mut worker = Worker::new(2);
    assert_eq!(worker.poll(&mut channel), Action::Exit);
    assert_eq!(worker.state(), WorkerState::Terminated);
    assert!(!worker.is_running());
    assert_eq!(worker.id(), 2);
    assert_eq!(channel.len(), 0);
}

#[test]
fn worker_exits_when_channel_is_closed_and_empty() {
    let mut channel: DispatchChannel<u32> = DispatchChannel::new();
    channel.close();
    let mut worker = Worker::new(0);
    assert_eq!(worker.poll(&mut channel), Action::Exit);
    assert_eq!(worker.state(), WorkerState::Terminated);
}

#[test]
fn worker_drains_closed_channel_before_it_exits() {
    let mut channel: DispatchChannel<u32> = DispatchChannel::new();
    assert_eq!(channel.send(Message::NewJob(1)), Ok(()));
    assert_eq!(channel.send(Message::NewJob(2)), Ok(()));
    channel.close();
    let mut worker = Worker::new(0);
    assert_eq!(worker.poll(&mut channel), Action::Run(1));
    assert_eq!(worker.poll(&mut channel), Action::Run(2));
    assert_eq!(worker.poll(&mut channel), Action::Exit);
    assert!(!worker.is_running());
}

#[test]
fn terminated_worker_takes_no_further_message() {
    let mut channel: DispatchChannel<u32> = DispatchChannel::new();
    assert_eq!(channel.send(Message::Terminate), Ok(()));
    assert_eq!(channel.send(Message::NewJob(8)), Ok(()));
    let mut worker = Worker::new(0);
    assert_eq!(worker.poll(&mut channel), Action::Exit);
    assert_eq!(worker.poll(&mut channel), Action::Exit);
    assert_eq!(worker.poll(&mut channel), Action::Exit);
    assert_eq!(channel.len(), 1);
    assert_eq!(worker.state(), WorkerState::Terminated);
}

#[test]
fn fault_ends_the_worker_and_takes_nothing() {
    let mut channel: DispatchChannel<u32> = DispatchChannel::new();
    assert_eq!(channel.send(Message::NewJob(1)), Ok(()));
    assert_eq!(channel.send(Message::NewJob(2)), Ok(()));
    let mut worker = Worker::new(7);
    assert_eq!(worker.poll(&mut channel), Action::Run(1));
    worker.fault();
    assert_eq!(worker.state(), WorkerState::Terminated);
    assert_eq!(worker.id(), 7);
    assert_eq!(worker.poll(&mut channel), Action::Exit);
    assert_eq!(channel.len(), 1);
}
