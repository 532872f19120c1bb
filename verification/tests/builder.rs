use thread_pool::{BuildError, ThreadPool, ThreadPoolBuilder};

#[test]
fn zero_size_is_refused() {
    let built = ThreadPool::<u32>::build().with_size(0).finalize();
    assert_eq!(built.err(), Some(BuildError::ZeroWorkers));
}

#[test]
fn zero_size_is_refused_whatever_was_detected() {
    let built = ThreadPoolBuilder::<u32>::new().with_size(0).finalize_with(8);
    assert_eq!(built.err(), Some(BuildError::ZeroWorkers));
    let built = ThreadPoolBuilder::<u32>::new().with_size(0).finalize_with(0);
    assert_eq!(built.err(), Some(BuildError::ZeroWorkers));
}

#[test]
fn requested_size_is_the_pool_size() {
    let pool = ThreadPool::<u32>::build().with_size(4).finalize().unwrap();
    assert_eq!(pool.size(), 4);
    assert_eq!(pool.running(), 4);
    assert_eq!(pool.pending(), 0);
    assert!(pool.is_open());
}

#[test]
fn requested_size_wins_over_detected_processors() {
    let pool = ThreadPoolBuilder::<u32>::new().with_size(3).finalize_with(16).unwrap();
    assert_eq!(pool.size(), 3);
}

#[test]
fn last_requested_size_counts() {
    let pool = ThreadPool::<u32>::build().with_size(0).with_size(2).finalize().unwrap();
    assert_eq!(pool.size(), 2);
    let built = ThreadPool::<u32>::build().with_size(2).with_size(0).finalize();
    assert_eq!(built.err(), Some(BuildError::ZeroWorkers));
}

#[test]
fn unset_size_takes_the_detected_processors() {
    let pool = ThreadPoolBuilder::<u32>::new().finalize_with(6).unwrap();
    assert_eq!(pool.size(), 6);
    let pool = ThreadPoolBuilder::<u32>::new().finalize_with(1).unwrap();
    assert_eq!(pool.size(), 1);
}

#[test]
fn unset_size_with_nothing_detected_is_one() {
    let pool = ThreadPoolBuilder::<u32>::new().finalize_with(0).unwrap();
    assert_eq!(pool.size(), 1);
}

#[test]
fn unset_size_asks_the_machine() {
    let pool = ThreadPool::<u32>::build().finalize().unwrap();
    let detected = num_cpus::get();
    let expected = if detected == 0 { 1 } else { detected };
    assert_eq!(pool.size(), expected);
    assert!(pool.size() >= 1);
    assert_eq!(pool.running(), pool.size());
}

#[test]
fn built_pool_has_workers_numbered_from_zero() {
    let pool = ThreadPool::<u32>::build().with_size(3).finalize().unwrap();
    for ordinal in 0..3usize {
        let worker = pool.worker(ordinal).unwrap();
        assert_eq!(worker.id(), ordinal);
        assert!(worker.is_running());
    }
    assert!(pool.worker(3).is_none());
}
