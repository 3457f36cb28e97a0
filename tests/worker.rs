use first_fm::worker::{next_backoff, INITIAL_BACKOFF_SEC, MAX_BACKOFF_SEC, MAX_BATCH_SIZE};
use first_fm::{
    ItemOutcome, Resolution, ScrobbleQueue, SubmissionWorker, SubmitResponse, Track, WorkerAction,
    WorkerPhase,
};

fn queue_of(n: u64) -> ScrobbleQueue {
    let mut q = ScrobbleQueue::new(100, 3);
    for i in 0..n {
        q.enqueue(Track::new("song", "band", 200).stamped(i)).unwrap();
    }
    q
}

fn batch_ids(w: &SubmissionWorker) -> Vec<u64> {
    w.batch.iter().map(|r| r.id).collect()
}

#[test]
fn scenario_auth_expired_reauthenticates_and_resubmits_once() {
    let mut q = queue_of(2);
    let mut w = SubmissionWorker::new(50);
    assert_eq!(w.start_cycle(&mut q), WorkerAction::Submit);
    let sent = batch_ids(&w);
    assert_eq!(sent, vec![0, 1]);

    let (action, done) = w.on_response(&mut q, SubmitResponse::AuthExpired);
    assert_eq!(action, WorkerAction::Reauthenticate);
    assert!(done.is_empty());
    assert_eq!(w.phase, WorkerPhase::Reauthenticating);

    let (action, done) = w.on_reauth(&mut q, true);
    assert_eq!(action, WorkerAction::Submit);
    assert!(done.is_empty());
    assert_eq!(batch_ids(&w), sent);
    assert!(q.records.iter().all(|r| r.attempts == 0));

    let (action, done) = w.on_response(
        &mut q,
        SubmitResponse::Items(vec![ItemOutcome::Accepted, ItemOutcome::Accepted]),
    );
    assert_eq!(action, WorkerAction::Sleep(0));
    assert!(done.iter().all(|r| matches!(r, Resolution::Scrobbled(s) if s.attempts == 0)));
    assert_eq!(q.len(), 0);
    assert_eq!(w.phase, WorkerPhase::Idle);
}

#[test]
fn second_auth_expiry_backs_off() {
    let mut q = queue_of(1);
    let mut w = SubmissionWorker::new(50);
    w.start_cycle(&mut q);
    w.on_response(&mut q, SubmitResponse::AuthExpired);
    w.on_reauth(&mut q, true);
    let (action, done) = w.on_response(&mut q, SubmitResponse::AuthExpired);
    assert_eq!(action, WorkerAction::Sleep(INITIAL_BACKOFF_SEC));
    assert!(matches!(done[0], Resolution::Retried));
    assert_eq!(q.records[0].attempts, 1);
    assert!(q.records[0].is_pending());
}

#[test]
fn failed_reauthentication_retries_the_batch() {
    let mut q = queue_of(2);
    let mut w = SubmissionWorker::new(50);
    w.start_cycle(&mut q);
    w.on_response(&mut q, SubmitResponse::AuthExpired);
    let (action, done) = w.on_reauth(&mut q, false);
    assert_eq!(action, WorkerAction::Sleep(INITIAL_BACKOFF_SEC));
    assert_eq!(done.len(), 2);
    assert!(q.records.iter().all(|r| r.attempts == 1 && r.is_pending()));
    assert_eq!(w.phase, WorkerPhase::Idle);
}

#[test]
fn transport_failure_retries_everything_with_growing_backoff() {
    let mut q = queue_of(3);
    let mut w = SubmissionWorker::new(2);
    w.start_cycle(&mut q);
    assert_eq!(batch_ids(&w), vec![0, 1]);
    let (action, _) = w.on_response(&mut q, SubmitResponse::TransportFailure);
    assert_eq!(action, WorkerAction::Sleep(INITIAL_BACKOFF_SEC));
    assert_eq!(q.records[0].attempts, 1);
    assert_eq!(q.records[1].attempts, 1);
    assert_eq!(q.records[2].attempts, 0);
    w.start_cycle(&mut q);
    assert_eq!(batch_ids(&w), vec![0, 1]);
    let (action, _) = w.on_response(&mut q, SubmitResponse::TransportFailure);
    assert_eq!(action, WorkerAction::Sleep(2 * INITIAL_BACKOFF_SEC));
}

#[test]
fn per_item_outcomes_are_applied() {
    let mut q = queue_of(4);
    let mut w = SubmissionWorker::new(50);
    w.start_cycle(&mut q);
    let (action, done) = w.on_response(
        &mut q,
        SubmitResponse::Items(vec![
            ItemOutcome::Accepted,
            ItemOutcome::RejectedTransient,
            ItemOutcome::RejectedPermanent,
        ]),
    );
    assert_eq!(action, WorkerAction::Sleep(INITIAL_BACKOFF_SEC));
    assert!(matches!(done[0], Resolution::Scrobbled(_)));
    assert!(matches!(done[1], Resolution::Retried));
    assert!(matches!(done[2], Resolution::Failed(_)));
    assert!(matches!(done[3], Resolution::Retried));
    let left: Vec<(u64, u32)> = q.records.iter().map(|r| (r.id, r.attempts)).collect();
    assert_eq!(left, vec![(1, 1), (3, 1)]);
}

#[test]
fn fully_accepted_batch_resets_backoff() {
    let mut q = queue_of(2);
    let mut w = SubmissionWorker::new(1);
    w.start_cycle(&mut q);
    w.on_response(&mut q, SubmitResponse::TransportFailure);
    assert_eq!(w.backoff_sec, INITIAL_BACKOFF_SEC);
    w.start_cycle(&mut q);
    let (action, _) = w.on_response(&mut q, SubmitResponse::Items(vec![ItemOutcome::Accepted]));
    assert_eq!(action, WorkerAction::Sleep(0));
    assert_eq!(w.backoff_sec, 0);
    assert_eq!(q.len(), 1);
}

#[test]
fn empty_queue_waits() {
    let mut q = queue_of(0);
    let mut w = SubmissionWorker::new(50);
    assert_eq!(w.start_cycle(&mut q), WorkerAction::Wait);
    assert_eq!(w.phase, WorkerPhase::Idle);
}

#[test]
fn batch_size_is_capped() {
    assert_eq!(SubmissionWorker::new(500).batch_size, MAX_BATCH_SIZE);
    assert_eq!(SubmissionWorker::new(7).batch_size, 7);
}

#[test]
fn backoff_doubles_up_to_the_cap() {
    assert_eq!(next_backoff(0), INITIAL_BACKOFF_SEC);
    assert_eq!(next_backoff(10), 20);
    assert_eq!(next_backoff(300), 600);
    assert_eq!(next_backoff(320), MAX_BACKOFF_SEC);
    assert_eq!(next_backoff(MAX_BACKOFF_SEC), MAX_BACKOFF_SEC);
}
