use first_fm::{EnqueueError, Outcome, RecordState, Resolution, ScrobbleQueue, Track};

fn song(name: &str, started: u64) -> Track {
    Track::new(name, "iamthemorning", 200).stamped(started)
}

fn ids(q: &ScrobbleQueue) -> Vec<u64> {
    q.records.iter().map(|r| r.id).collect()
}

#[test]
fn enqueue_appends_in_order() {
    let mut q = ScrobbleQueue::new(10, 3);
    assert!(matches!(q.enqueue(song("a", 1)), Ok(None)));
    assert!(matches!(q.enqueue(song("b", 2)), Ok(None)));
    assert!(matches!(q.enqueue(song("a", 3)), Ok(None)));
    assert_eq!(ids(&q), vec![0, 1, 2]);
    assert_eq!(q.records[2].track.name, "a");
    assert!(q.records.iter().all(|r| r.is_pending() && r.attempts == 0));
}

#[test]
fn enqueue_refuses_the_same_scrobble_twice() {
    let mut q = ScrobbleQueue::new(10, 3);
    assert!(q.enqueue(song("a", 1)).is_ok());
    assert_eq!(q.enqueue(song("a", 1)).err(), Some(EnqueueError::Duplicate));
    assert_eq!(q.len(), 1);
}

#[test]
fn full_queue_evicts_oldest_pending() {
    let mut q = ScrobbleQueue::new(2, 3);
    q.enqueue(song("a", 1)).unwrap();
    q.enqueue(song("b", 2)).unwrap();
    let evicted = q.enqueue(song("c", 3)).unwrap().unwrap();
    assert_eq!(evicted.track.name, "a");
    assert_eq!(ids(&q), vec![1, 2]);
}

#[test]
fn full_queue_skips_in_flight_records_when_evicting() {
    let mut q = ScrobbleQueue::new(2, 3);
    q.enqueue(song("a", 1)).unwrap();
    q.enqueue(song("b", 2)).unwrap();
    let batch = q.take_batch(1);
    assert_eq!(batch[0].id, 0);
    let evicted = q.enqueue(song("c", 3)).unwrap().unwrap();
    assert_eq!(evicted.id, 1);
    assert_eq!(ids(&q), vec![0, 2]);
}

#[test]
fn full_queue_of_in_flight_records_refuses() {
    let mut q = ScrobbleQueue::new(2, 3);
    q.enqueue(song("a", 1)).unwrap();
    q.enqueue(song("b", 2)).unwrap();
    assert_eq!(q.take_batch(5).len(), 2);
    assert_eq!(q.enqueue(song("c", 3)).err(), Some(EnqueueError::Full));
    assert_eq!(q.len(), 2);
}

#[test]
fn take_batch_takes_oldest_pending_up_to_max() {
    let mut q = ScrobbleQueue::new(10, 3);
    for i in 0..5u64 {
        q.enqueue(song("s", i)).unwrap();
    }
    let first = q.take_batch(2);
    assert_eq!(first.iter().map(|r| r.id).collect::<Vec<_>>(), vec![0, 1]);
    assert!(first.iter().all(|r| matches!(r.state, RecordState::InFlight)));
    let second = q.take_batch(2);
    assert_eq!(second.iter().map(|r| r.id).collect::<Vec<_>>(), vec![2, 3]);
    let third = q.take_batch(10);
    assert_eq!(third.iter().map(|r| r.id).collect::<Vec<_>>(), vec![4]);
    assert!(q.take_batch(10).is_empty());
    assert!(q.take_batch(0).is_empty());
}

#[test]
fn take_batch_never_hands_out_a_record_twice() {
    let mut q = ScrobbleQueue::new(10, 3);
    for i in 0..4u64 {
        q.enqueue(song("s", i)).unwrap();
    }
    let first = q.take_batch(3);
    let second = q.take_batch(3);
    for a in &first {
        for b in &second {
            assert_ne!(a.id, b.id);
        }
    }
    assert_eq!(first.len() + second.len(), 4);
}

#[test]
fn scrobbled_record_leaves_the_queue() {
    let mut q = ScrobbleQueue::new(10, 3);
    q.enqueue(song("a", 1)).unwrap();
    q.enqueue(song("b", 2)).unwrap();
    q.take_batch(1);
    assert!(matches!(q.resolve(0, Outcome::Scrobbled), Resolution::Scrobbled(r) if r.id == 0));
    assert_eq!(ids(&q), vec![1]);
}

#[test]
fn permanent_failure_leaves_the_queue_with_a_diagnostic() {
    let mut q = ScrobbleQueue::new(10, 3);
    q.enqueue(song("a", 1)).unwrap();
    q.take_batch(1);
    match q.resolve(0, Outcome::PermanentFailure) {
        Resolution::Failed(r) => assert_eq!(r.track.name, "a"),
        _ => panic!("expected a failure"),
    }
    assert_eq!(q.len(), 0);
}

#[test]
fn retryable_failure_counts_attempts_up_to_the_ceiling() {
    let mut q = ScrobbleQueue::new(10, 2);
    q.enqueue(song("a", 1)).unwrap();
    for attempt in 1..=2u32 {
        assert_eq!(q.take_batch(5).len(), 1);
        assert!(matches!(q.resolve(0, Outcome::RetryableFailure), Resolution::Retried));
        assert_eq!(q.records[0].attempts, attempt);
        assert!(q.records[0].is_pending());
    }
    assert_eq!(q.take_batch(5).len(), 1);
    match q.resolve(0, Outcome::RetryableFailure) {
        Resolution::Failed(r) => assert_eq!(r.attempts, 2),
        _ => panic!("expected a failure"),
    }
    assert_eq!(q.len(), 0);
}

#[test]
fn resolving_a_record_not_in_flight_changes_nothing() {
    let mut q = ScrobbleQueue::new(10, 2);
    q.enqueue(song("a", 1)).unwrap();
    assert!(matches!(q.resolve(0, Outcome::Scrobbled), Resolution::Unknown));
    assert!(matches!(q.resolve(7, Outcome::Scrobbled), Resolution::Unknown));
    assert_eq!(q.len(), 1);
    assert!(q.records[0].is_pending());
}

#[test]
fn resolve_all_applies_outcomes_in_order() {
    let mut q = ScrobbleQueue::new(10, 2);
    q.enqueue(song("a", 1)).unwrap();
    q.enqueue(song("b", 2)).unwrap();
    q.enqueue(song("c", 3)).unwrap();
    q.take_batch(3);
    let done = q.resolve_all(&vec![
        (0, Outcome::Scrobbled),
        (1, Outcome::RetryableFailure),
        (2, Outcome::PermanentFailure),
    ]);
    assert!(matches!(done[0], Resolution::Scrobbled(_)));
    assert!(matches!(done[1], Resolution::Retried));
    assert!(matches!(done[2], Resolution::Failed(_)));
    assert_eq!(ids(&q), vec![1]);
    assert_eq!(q.records[0].attempts, 1);
}
