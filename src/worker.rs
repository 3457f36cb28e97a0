use vstd::prelude::*;

use crate::queue::{
    resolve_all_spec, take_spec, Outcome, Resolution, ScrobbleQueue, ScrobbleRecord,
};

verus! {

/// The first wait after a failed submission.
pub const INITIAL_BACKOFF_SEC: u64 = 10;

/// The longest wait between failed submissions.
pub const MAX_BACKOFF_SEC: u64 = 600;

/// The most records the service takes in one submission.
pub const MAX_BATCH_SIZE: usize = 50;

/// What the service said of one submitted record.
#[derive(Clone, Copy, Debug, PartialEq, Eq, Structural)]
pub enum ItemOutcome {
    Accepted,
    /// Rejected for now (a rate limit, say); worth trying again.
    RejectedTransient,
    /// Rejected for good (a malformed track, say).
    RejectedPermanent,
}

/// The answer to one batch submission.
pub enum SubmitResponse {
    /// The service could not be reached.
    TransportFailure,
    /// The session is no longer valid.
    AuthExpired,
    /// One outcome per submitted record, in batch order.
    Items(Vec<ItemOutcome>),
}

#[derive(Clone, Copy, Debug, PartialEq, Eq, Structural)]
pub enum WorkerPhase {
    /// No batch is out.
    Idle,
    /// The batch is being submitted.
    Submitting,
    /// The session is being renewed before the batch goes out again.
    Reauthenticating,
}

/// What the worker's driver does next.
#[derive(Clone, Copy, Debug, PartialEq, Eq, Structural)]
pub enum WorkerAction {
    /// Nothing to send: wait until work arrives.
    Wait,
    /// Wait this many seconds, then start another cycle.
    Sleep(u64),
    /// Submit the worker's batch.
    Submit,
    /// Renew the session.
    Reauthenticate,
}

/// The decisions of the submission loop: which batch goes out, what its
/// outcome does to the queue, and how long to back off.
pub struct SubmissionWorker {
    pub phase: WorkerPhase,
    /// The records out for submission, oldest first.
    pub batch: Vec<ScrobbleRecord>,
    /// The session was renewed once for the current batch.
    pub reauthenticated: bool,
    pub backoff_sec: u64,
    pub batch_size: usize,
}

pub open spec fn to_outcome(o: ItemOutcome) -> Outcome {
    match o {
        ItemOutcome::Accepted => Outcome::Scrobbled,
        ItemOutcome::RejectedTransient => Outcome::RetryableFailure,
        ItemOutcome::RejectedPermanent => Outcome::PermanentFailure,
    }
}

/// Every record of the batch is to be tried again.
pub open spec fn retry_plan(batch: Seq<ScrobbleRecord>) -> Seq<(u64, Outcome)> {
    Seq::new(batch.len(), |i: int| (batch[i].id, Outcome::RetryableFailure))
}

/// Each record gets the outcome the service gave at its position; one the
/// service said nothing of is tried again.
pub open spec fn item_plan(batch: Seq<ScrobbleRecord>, items: Seq<ItemOutcome>) -> Seq<(u64, Outcome)> {
    Seq::new(
        batch.len(),
        |i: int|
            (batch[i].id, if i < items.len() {
                to_outcome(items[i])
            } else {
                Outcome::RetryableFailure
            }),
    )
}

/// Every record of a batch of `n` was accepted.
pub open spec fn all_accepted(n: nat, items: Seq<ItemOutcome>) -> bool {
    items.len() == n && forall|i: int| 0 <= i < items.len() ==> items[i] is Accepted
}

/// Exponential backoff with a cap.
pub open spec fn next_backoff_spec(cur: u64) -> u64 {
    if cur == 0 {
        INITIAL_BACKOFF_SEC
    } else if cur > MAX_BACKOFF_SEC / 2 {
        MAX_BACKOFF_SEC
    } else {
        (cur * 2) as u64
    }
}

/// Computes `next_backoff_spec`.
pub fn next_backoff(cur: u64) -> (r: u64)
    ensures
        r == next_backoff_spec(cur),
{
    if cur == 0 {
        INITIAL_BACKOFF_SEC
    } else if cur > MAX_BACKOFF_SEC / 2 {
        MAX_BACKOFF_SEC
    } else {
        cur * 2
    }
}

/// The backoff never passes its cap, and while below the cap it doubles.
pub proof fn lemma_backoff_capped(cur: u64)
    requires
        cur <= MAX_BACKOFF_SEC,
    ensures
        next_backoff_spec(cur) <= MAX_BACKOFF_SEC,
        next_backoff_spec(cur) >= cur,
        0 < cur <= MAX_BACKOFF_SEC / 2 ==> next_backoff_spec(cur) == 2 * cur,
{
}

fn to_outcome_exec(o: ItemOutcome) -> (r: Outcome)
    ensures
        r == to_outcome(o),
{
    match o {
        ItemOutcome::Accepted => Outcome::Scrobbled,
        ItemOutcome::RejectedTransient => Outcome::RetryableFailure,
        ItemOutcome::RejectedPermanent => Outcome::PermanentFailure,
    }
}

fn make_retry_plan(batch: &Vec<ScrobbleRecord>) -> (r: Vec<(u64, Outcome)>)
    ensures
        r@ == retry_plan(batch@),
{
    let mut plan: Vec<(u64, Outcome)> = Vec::new();
    let mut i: usize = 0;
    while i < batch.len()
        invariant
            i <= batch@.len(),
            plan@.len() == i,
            forall|j: int| 0 <= j < i ==> #[trigger] plan@[j] == (batch@[j].id, Outcome::RetryableFailure),
        decreases batch@.len() - i,
    {
        plan.push((batch[i].id, Outcome::RetryableFailure));
        i += 1;
    }
    assert(plan@ =~= retry_plan(batch@));
    plan
}

fn make_item_plan(batch: &Vec<ScrobbleRecord>, items: &Vec<ItemOutcome>) -> (r: Vec<(u64, Outcome)>)
    ensures
        r@ == item_plan(batch@, items@),
{
    let mut plan: Vec<(u64, Outcome)> = Vec::new();
    let mut i: usize = 0;
    while i < batch.len()
        invariant
            i <= batch@.len(),
            plan@.len() == i,
            forall|j: int| 0 <= j < i ==> #[trigger] plan@[j] == item_plan(batch@, items@)[j],
        decreases batch@.len() - i,
    {
        let outcome = if i < items.len() {
            to_outcome_exec(items[i])
        } else {
            Outcome::RetryableFailure
        };
        plan.push((batch[i].id, outcome));
        i += 1;
    }
    assert(plan@ =~= item_plan(batch@, items@));
    plan
}

fn every_item_accepted(n: usize, items: &Vec<ItemOutcome>) -> (r: bool)
    ensures
        r == all_accepted(n as nat, items@),
{
    if items.len() != n {
        return false;
    }
    let mut i: usize = 0;
    while i < items.len()
        invariant
            i <= items@.len(),
            forall|j: int| 0 <= j < i ==> #[trigger] items@[j] is Accepted,
        decreases items@.len() - i,
    {
        match items[i] {
            ItemOutcome::Accepted => {},
            _ => {
                return false;
            },
        }
        i += 1;
    }
    true
}

impl SubmissionWorker {
    /// An idle worker that sends at most `batch_size` records at a time,
    /// no more than the service takes.
    pub fn new(batch_size: usize) -> (r: SubmissionWorker)
        ensures
            r.phase == WorkerPhase::Idle,
            r.batch@.len() == 0,
            !r.reauthenticated,
            r.backoff_sec == 0,
            r.batch_size == if batch_size <= MAX_BATCH_SIZE {
                batch_size
            } else {
                MAX_BATCH_SIZE
            },
    {
        let size = if batch_size <= MAX_BATCH_SIZE {
            batch_size
        } else {
            MAX_BATCH_SIZE
        };
        SubmissionWorker {
            phase: WorkerPhase::Idle,
            batch: Vec::new(),
            reauthenticated: false,
            backoff_sec: 0,
            batch_size: size,
        }
    }

    /// Ends the cycle: every record of the batch is to be tried again, and
    /// the backoff grows.
    fn fail_batch(&mut self, queue: &mut ScrobbleQueue) -> (r: (WorkerAction, Vec<Resolution>))
        requires
            old(queue).wf(),
        ensures
            (final(queue).records@, r.1@) == resolve_all_spec(
                old(queue).records@,
                old(queue).max_retries,
                retry_plan(old(self).batch@),
            ),
            final(queue).wf(),
            final(queue).next_id == old(queue).next_id,
            final(queue).capacity == old(queue).capacity,
            final(queue).max_retries == old(queue).max_retries,
            final(self).backoff_sec == next_backoff_spec(old(self).backoff_sec),
            r.0 == WorkerAction::Sleep(final(self).backoff_sec),
            final(self).phase == WorkerPhase::Idle,
            final(self).batch@.len() == 0,
            !final(self).reauthenticated,
            final(self).batch_size == old(self).batch_size,
    {
        let plan = make_retry_plan(&self.batch);
        let done = queue.resolve_all(&plan);
        self.backoff_sec = next_backoff(self.backoff_sec);
        self.phase = WorkerPhase::Idle;
        self.batch = Vec::new();
        self.reauthenticated = false;
        (WorkerAction::Sleep(self.backoff_sec), done)
    }

    /// Starts a cycle: takes the oldest pending records as the batch to
    /// submit, or waits when there are none.
    pub fn start_cycle(&mut self, queue: &mut ScrobbleQueue) -> (r: WorkerAction)
        requires
            old(self).phase == WorkerPhase::Idle,
            old(queue).wf(),
        ensures
            (final(queue).records@, final(self).batch@) == take_spec(
                old(queue).records@,
                old(self).batch_size as nat,
            ),
            final(queue).wf(),
            final(queue).next_id == old(queue).next_id,
            final(queue).capacity == old(queue).capacity,
            final(queue).max_retries == old(queue).max_retries,
            final(self).batch@.len() == 0 ==> r == WorkerAction::Wait && final(self).phase
                == WorkerPhase::Idle,
            final(self).batch@.len() > 0 ==> r == WorkerAction::Submit && final(self).phase
                == WorkerPhase::Submitting,
            !final(self).reauthenticated,
            final(self).backoff_sec == old(self).backoff_sec,
            final(self).batch_size == old(self).batch_size,
    {
        self.batch = queue.take_batch(self.batch_size);
        self.reauthenticated = false;
        if self.batch.len() == 0 {
            WorkerAction::Wait
        } else {
            self.phase = WorkerPhase::Submitting;
            WorkerAction::Submit
        }
    }

    /// Folds the service's answer into the queue. An expired session is
    /// renewed once per batch before the same batch goes out again, with no
    /// attempt counted; a transport failure, or a second expiry, sends the
    /// whole batch back for retry and backs off; otherwise each record gets
    /// its own outcome, and the backoff is reset when all were accepted.
    /// Returns the next action and what became of each resolved record.
    pub fn on_response(&mut self, queue: &mut ScrobbleQueue, response: SubmitResponse) -> (r: (
        WorkerAction,
        Vec<Resolution>,
    ))
        requires
            old(self).phase == WorkerPhase::Submitting,
            old(queue).wf(),
        ensures
            final(queue).wf(),
            final(queue).next_id == old(queue).next_id,
            final(queue).capacity == old(queue).capacity,
            final(queue).max_retries == old(queue).max_retries,
            final(self).batch_size == old(self).batch_size,
            match response {
                SubmitResponse::AuthExpired if !old(self).reauthenticated => {
                    &&& r.0 == WorkerAction::Reauthenticate
                    &&& r.1@.len() == 0
                    &&& final(self).phase == WorkerPhase::Reauthenticating
                    &&& final(self).batch@ == old(self).batch@
                    &&& final(self).backoff_sec == old(self).backoff_sec
                    &&& *final(queue) == *old(queue)
                },
                SubmitResponse::Items(items) => {
                    let accepted = all_accepted(old(self).batch@.len(), items@);
                    &&& (final(queue).records@, r.1@) == resolve_all_spec(
                        old(queue).records@,
                        old(queue).max_retries,
                        item_plan(old(self).batch@, items@),
                    )
                    &&& final(self).backoff_sec == if accepted {
                        0
                    } else {
                        next_backoff_spec(old(self).backoff_sec)
                    }
                    &&& r.0 == WorkerAction::Sleep(final(self).backoff_sec)
                    &&& final(self).phase == WorkerPhase::Idle
                    &&& final(self).batch@.len() == 0
                },
                _ => {
                    &&& (final(queue).records@, r.1@) == resolve_all_spec(
                        old(queue).records@,
                        old(queue).max_retries,
                        retry_plan(old(self).batch@),
                    )
                    &&& final(self).backoff_sec == next_backoff_spec(old(self).backoff_sec)
                    &&& r.0 == WorkerAction::Sleep(final(self).backoff_sec)
                    &&& final(self).phase == WorkerPhase::Idle
                    &&& final(self).batch@.len() == 0
                },
            },
    {
        match response {
            SubmitResponse::AuthExpired => {
                if !self.reauthenticated {
                    self.phase = WorkerPhase::Reauthenticating;
                    (WorkerAction::Reauthenticate, Vec::new())
                } else {
                    self.fail_batch(queue)
                }
            },
            SubmitResponse::TransportFailure => self.fail_batch(queue),
            SubmitResponse::Items(items) => {
                let plan = make_item_plan(&self.batch, &items);
                let done = queue.resolve_all(&plan);
                if every_item_accepted(self.batch.len(), &items) {
                    self.backoff_sec = 0;
                } else {
                    self.backoff_sec = next_backoff(self.backoff_sec);
                }
                self.phase = WorkerPhase::Idle;
                self.batch = Vec::new();
                self.reauthenticated = false;
                (WorkerAction::Sleep(self.backoff_sec), done)
            },
        }
    }

    /// Continues after renewing the session: on success the same batch goes
    /// out again with no attempt counted; on failure the whole batch is
    /// sent back for retry and the worker backs off.
    pub fn on_reauth(&mut self, queue: &mut ScrobbleQueue, renewed: bool) -> (r: (
        WorkerAction,
        Vec<Resolution>,
    ))
        requires
            old(self).phase == WorkerPhase::Reauthenticating,
            old(queue).wf(),
        ensures
            final(queue).wf(),
            final(queue).next_id == old(queue).next_id,
            final(queue).capacity == old(queue).capacity,
            final(queue).max_retries == old(queue).max_retries,
            final(self).batch_size == old(self).batch_size,
            renewed ==> {
                &&& r.0 == WorkerAction::Submit
                &&& r.1@.len() == 0
                &&& final(self).phase == WorkerPhase::Submitting
                &&& final(self).reauthenticated
                &&& final(self).batch@ == old(self).batch@
                &&& final(self).backoff_sec == old(self).backoff_sec
                &&& *final(queue) == *old(queue)
            },
            !renewed ==> {
                &&& (final(queue).records@, r.1@) == resolve_all_spec(
                    old(queue).records@,
                    old(queue).max_retries,
                    retry_plan(old(self).batch@),
                )
                &&& final(self).backoff_sec == next_backoff_spec(old(self).backoff_sec)
                &&& r.0 == WorkerAction::Sleep(final(self).backoff_sec)
                &&& final(self).phase == WorkerPhase::Idle
                &&& final(self).batch@.len() == 0
            },
    {
        if renewed {
            self.phase = WorkerPhase::Submitting;
            self.reauthenticated = true;
            (WorkerAction::Submit, Vec::new())
        } else {
            self.fail_batch(queue)
        }
    }
}

} // verus!
