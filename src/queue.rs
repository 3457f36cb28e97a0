use vstd::prelude::*;

use crate::track::{same_track_spec, Track};

verus! {

/// Where a record stands while it is in the queue. Scrobbled and
/// permanently failed records leave the queue.
pub enum RecordState {
    /// Waiting to be submitted.
    Pending,
    /// Taken for submission; its outcome is not known yet.
    InFlight,
}

/// A track that became eligible, with its submission bookkeeping.
pub struct ScrobbleRecord {
    pub id: u64,
    pub track: Track,
    pub state: RecordState,
    /// Submission attempts that failed in a way worth retrying.
    pub attempts: u32,
}

/// The outcome of submitting one record.
#[derive(Clone, Copy, Debug, PartialEq, Eq, Structural)]
pub enum Outcome {
    Scrobbled,
    RetryableFailure,
    PermanentFailure,
}

/// What `resolve` did with a record.
pub enum Resolution {
    /// The record was accepted and left the queue.
    Scrobbled(ScrobbleRecord),
    /// The record went back to pending with one more attempt counted.
    Retried,
    /// The record failed for good and left the queue; a diagnostic.
    Failed(ScrobbleRecord),
    /// No record with that id was in flight; nothing changed.
    Unknown,
}

/// Why `enqueue` refused a track.
#[derive(Debug, PartialEq, Eq, Structural)]
pub enum EnqueueError {
    /// The same track with the same start time is already queued.
    Duplicate,
    /// The queue is full and every record in it is in flight.
    Full,
}

/// Pending scrobbles, oldest first, with retry bookkeeping.
pub struct ScrobbleQueue {
    pub records: Vec<ScrobbleRecord>,
    /// The id the next record gets; ids are never reused.
    pub next_id: u64,
    /// At most this many records are held.
    pub capacity: usize,
    /// A record whose retryable failures exceed this many fails for good.
    pub max_retries: u32,
}

/// Same track, started at the same time.
pub open spec fn same_scrobble(a: Track, b: Track) -> bool {
    same_track_spec(a, b) && a.timestamp_utc == b.timestamp_utc
}

pub open spec fn ids_unique(s: Seq<ScrobbleRecord>) -> bool {
    forall|i: int, j: int| 0 <= i < s.len() && 0 <= j < s.len() && i != j ==> s[i].id != s[j].id
}

pub open spec fn is_queued(s: Seq<ScrobbleRecord>, track: Track) -> bool {
    exists|i: int| 0 <= i < s.len() && same_scrobble(s[i].track, track)
}

pub open spec fn has_pending(s: Seq<ScrobbleRecord>) -> bool {
    exists|i: int| 0 <= i < s.len() && s[i].state is Pending
}

/// `i` is the index of the oldest pending record.
pub open spec fn is_first_pending(s: Seq<ScrobbleRecord>, i: int) -> bool {
    &&& 0 <= i < s.len()
    &&& s[i].state is Pending
    &&& forall|j: int| 0 <= j < i ==> s[j].state !is Pending
}

/// Index of the oldest pending record.
pub open spec fn first_pending(s: Seq<ScrobbleRecord>) -> int {
    choose|i: int| is_first_pending(s, i)
}

pub open spec fn has_in_flight(s: Seq<ScrobbleRecord>, id: u64) -> bool {
    exists|i: int| 0 <= i < s.len() && s[i].id == id && s[i].state is InFlight
}

pub open spec fn in_flight_index(s: Seq<ScrobbleRecord>, id: u64) -> int {
    choose|i: int| 0 <= i < s.len() && s[i].id == id && s[i].state is InFlight
}

pub open spec fn new_record(id: u64, track: Track) -> ScrobbleRecord {
    ScrobbleRecord { id, track, state: RecordState::Pending, attempts: 0 }
}

pub open spec fn in_flight(r: ScrobbleRecord) -> ScrobbleRecord {
    ScrobbleRecord { state: RecordState::InFlight, ..r }
}

/// The records after taking a batch of at most `max`, and the batch: the
/// oldest pending records, in queue order, now in flight.
pub open spec fn take_spec(s: Seq<ScrobbleRecord>, max: nat) -> (Seq<ScrobbleRecord>, Seq<ScrobbleRecord>)
    decreases s.len(),
{
    if s.len() == 0 {
        (s, s)
    } else {
        let (rest, batch) = take_spec(s.drop_last(), max);
        let last = s.last();
        if last.state is Pending && batch.len() < max {
            (rest.push(in_flight(last)), batch.push(in_flight(last)))
        } else {
            (rest.push(last), batch)
        }
    }
}

/// The records after applying `outcome` to the in-flight record `id`, and
/// what became of it.
pub open spec fn resolve_spec(s: Seq<ScrobbleRecord>, max_retries: u32, id: u64, outcome: Outcome) -> (
    Seq<ScrobbleRecord>,
    Resolution,
) {
    if !has_in_flight(s, id) {
        (s, Resolution::Unknown)
    } else {
        let i = in_flight_index(s, id);
        let r = s[i];
        match outcome {
            Outcome::Scrobbled => (s.remove(i), Resolution::Scrobbled(r)),
            Outcome::PermanentFailure => (s.remove(i), Resolution::Failed(r)),
            Outcome::RetryableFailure => if r.attempts >= max_retries {
                (s.remove(i), Resolution::Failed(r))
            } else {
                (
                    s.update(
                        i,
                        ScrobbleRecord { state: RecordState::Pending, attempts: (r.attempts + 1) as u32, ..r },
                    ),
                    Resolution::Retried,
                )
            },
        }
    }
}

/// At most `capacity` records, ids unique and below `next_id`, attempts
/// within the retry ceiling, and no scrobble queued twice.
pub open spec fn records_wf(s: Seq<ScrobbleRecord>, capacity: usize, next_id: u64, max_retries: u32) -> bool {
    &&& s.len() <= capacity
    &&& ids_unique(s)
    &&& forall|i: int| 0 <= i < s.len() ==> s[i].id < next_id
    &&& forall|i: int| 0 <= i < s.len() ==> s[i].attempts <= max_retries
    &&& forall|i: int, j: int|
        0 <= i < s.len() && 0 <= j < s.len() && i != j ==> !same_scrobble(s[i].track, s[j].track)
}

proof fn lemma_push_new(s: Seq<ScrobbleRecord>, capacity: usize, next_id: u64, max_retries: u32, track: Track)
    requires
        records_wf(s, capacity, next_id, max_retries),
        s.len() < capacity,
        next_id < u64::MAX,
        !is_queued(s, track),
    ensures
        records_wf(s.push(new_record(next_id, track)), capacity, (next_id + 1) as u64, max_retries),
{
    let t = s.push(new_record(next_id, track));
    assert forall|a: int, b: int| 0 <= a < t.len() && 0 <= b < t.len() && a != b implies t[a].id != t[b].id
        && !same_scrobble(t[a].track, t[b].track) by {
        if a == s.len() {
            assert(!same_scrobble(s[b].track, track));
        } else if b == s.len() {
            assert(!same_scrobble(s[a].track, track));
        }
    }
}

proof fn lemma_evict_push_new(
    s: Seq<ScrobbleRecord>,
    capacity: usize,
    next_id: u64,
    max_retries: u32,
    k: int,
    track: Track,
)
    requires
        records_wf(s, capacity, next_id, max_retries),
        0 <= k < s.len(),
        next_id < u64::MAX,
        !is_queued(s, track),
    ensures
        records_wf(s.remove(k).push(new_record(next_id, track)), capacity, (next_id + 1) as u64, max_retries),
{
    let u = s.remove(k);
    lemma_remove_keeps_wf(s, capacity, next_id, max_retries, k);
    assert(!is_queued(u, track)) by {
        if is_queued(u, track) {
            let a = choose|a: int| 0 <= a < u.len() && same_scrobble(u[a].track, track);
            assert(u[a] == s[if a < k { a } else { a + 1 }]);
        }
    }
    lemma_push_new(u, capacity, next_id, max_retries, track);
}

/// The records and next id after queueing `track`, and the result:
/// refused when the same scrobble is queued already; appended when there is
/// room; appended after evicting the oldest pending record when full;
/// refused when full with nothing pending.
pub open spec fn enqueue_spec(s: Seq<ScrobbleRecord>, capacity: usize, next_id: u64, track: Track) -> (
    Seq<ScrobbleRecord>,
    u64,
    Result<Option<ScrobbleRecord>, EnqueueError>,
) {
    let added = new_record(next_id, track);
    if is_queued(s, track) {
        (s, next_id, Err(EnqueueError::Duplicate))
    } else if s.len() < capacity {
        (s.push(added), (next_id + 1) as u64, Ok(None))
    } else if has_pending(s) {
        (s.remove(first_pending(s)).push(added), (next_id + 1) as u64, Ok(Some(s[first_pending(s)])))
    } else {
        (s, next_id, Err(EnqueueError::Full))
    }
}

/// Applies a plan of outcomes, in order, as `resolve` does one by one.
pub open spec fn resolve_all_spec(s: Seq<ScrobbleRecord>, max_retries: u32, plan: Seq<(u64, Outcome)>) -> (
    Seq<ScrobbleRecord>,
    Seq<Resolution>,
)
    decreases plan.len(),
{
    if plan.len() == 0 {
        (s, Seq::empty())
    } else {
        let (s0, done) = resolve_all_spec(s, max_retries, plan.drop_last());
        let (s1, r) = resolve_spec(s0, max_retries, plan.last().0, plan.last().1);
        (s1, done.push(r))
    }
}

/// `r` stands in `rest` as an in-flight record that was pending in `s`.
pub open spec fn was_taken(s: Seq<ScrobbleRecord>, rest: Seq<ScrobbleRecord>, r: ScrobbleRecord) -> bool {
    exists|j: int| 0 <= j < s.len() && j < rest.len() && rest[j] == r && rest[j].state is InFlight && s[j].state is Pending
}

/// Taking a batch keeps every record in its place, with its id, track and
/// attempts; each record of the batch is, in the new sequence, an in-flight
/// record that was pending before.
pub proof fn lemma_take_spec(s: Seq<ScrobbleRecord>, max: nat)
    ensures
        ({
            let (rest, batch) = take_spec(s, max);
            &&& rest.len() == s.len()
            &&& batch.len() <= max
            &&& forall|i: int|
                0 <= i < s.len() ==> (#[trigger] rest[i]).id == s[i].id && rest[i].track == s[i].track
                    && rest[i].attempts == s[i].attempts
                    && (rest[i].state is InFlight || rest[i] == s[i])
            &&& forall|k: int| 0 <= k < batch.len() ==> was_taken(s, rest, #[trigger] batch[k])
        }),
    decreases s.len(),
{
    if s.len() > 0 {
        let s0 = s.drop_last();
        lemma_take_spec(s0, max);
        let (rest0, batch0) = take_spec(s0, max);
        let (rest, batch) = take_spec(s, max);
        let n = s.len() - 1;
        let last = s.last();
        let pushed = last.state is Pending && batch0.len() < max;
        if pushed {
            assert(rest == rest0.push(in_flight(last)) && batch == batch0.push(in_flight(last)));
        } else {
            assert(rest == rest0.push(last) && batch == batch0);
        }
        assert forall|i: int| 0 <= i < s.len() implies (#[trigger] rest[i]).id == s[i].id && rest[i].track
            == s[i].track && rest[i].attempts == s[i].attempts && (rest[i].state is InFlight || rest[i]
            == s[i]) by {
            if i < n {
                assert(rest[i] == rest0[i]);
                assert(s[i] == s0[i]);
            }
        }
        assert forall|k: int| 0 <= k < batch.len() implies was_taken(s, rest, #[trigger] batch[k]) by {
            if k < batch0.len() {
                assert(was_taken(s0, rest0, batch0[k]));
                let j = choose|j: int|
                    0 <= j < s0.len() && rest0[j] == batch0[k] && rest0[j].state is InFlight
                        && s0[j].state is Pending;
                assert(batch[k] == batch0[k]);
                assert(rest[j] == rest0[j]);
                assert(s[j] == s0[j]);
            } else {
                assert(batch[k] == rest[n]);
            }
        }
    }
}

/// Two batches taken one after the other never share a record: a record
/// handed out stays in flight until it is resolved.
pub proof fn lemma_batches_disjoint(s: Seq<ScrobbleRecord>, first_max: nat, second_max: nat)
    requires
        ids_unique(s),
    ensures
        ({
            let (rest, first) = take_spec(s, first_max);
            let second = take_spec(rest, second_max).1;
            forall|a: int, b: int| 0 <= a < first.len() && 0 <= b < second.len() ==> first[a].id != second[b].id
        }),
{
    let (rest, first) = take_spec(s, first_max);
    let (rest2, second) = take_spec(rest, second_max);
    lemma_take_spec(s, first_max);
    lemma_take_spec(rest, second_max);
    assert forall|a: int, b: int| 0 <= a < first.len() && 0 <= b < second.len() implies first[a].id
        != second[b].id by {
        assert(was_taken(s, rest, first[a]));
        assert(was_taken(rest, rest2, second[b]));
        let ja = choose|j: int|
            0 <= j < s.len() && j < rest.len() && rest[j] == first[a] && rest[j].state is InFlight
                && s[j].state is Pending;
        let jb = choose|j: int|
            0 <= j < rest.len() && j < rest2.len() && rest2[j] == second[b] && rest2[j].state is InFlight
                && rest[j].state is Pending;
        assert(rest[ja].id == s[ja].id);
        assert(rest[jb].id == s[jb].id);
        assert(rest2[jb].id == rest[jb].id);
    }
}

/// A retryable failure puts the record back to pending with one more
/// attempt counted; once its attempts have reached the ceiling it fails for
/// good and leaves the queue.
pub proof fn lemma_retryable_failure(s: Seq<ScrobbleRecord>, max_retries: u32, id: u64)
    requires
        ids_unique(s),
        has_in_flight(s, id),
    ensures
        ({
            let i = in_flight_index(s, id);
            let r = s[i];
            let (t, res) = resolve_spec(s, max_retries, id, Outcome::RetryableFailure);
            &&& r.attempts < max_retries ==> {
                &&& res is Retried
                &&& t.len() == s.len()
                &&& t[i].id == id && t[i].track == r.track
                &&& t[i].state is Pending
                &&& t[i].attempts == r.attempts + 1
            }
            &&& r.attempts >= max_retries ==> {
                &&& res == Resolution::Failed(r)
                &&& t.len() == s.len() - 1
                &&& forall|j: int| 0 <= j < t.len() ==> #[trigger] t[j].id != id
            }
        }),
{
    let i = in_flight_index(s, id);
    let t = resolve_spec(s, max_retries, id, Outcome::RetryableFailure).0;
    if s[i].attempts >= max_retries {
        assert forall|j: int| 0 <= j < t.len() implies #[trigger] t[j].id != id by {
            assert(t[j] == s[if j < i { j } else { j + 1 }]);
        }
    }
}

proof fn lemma_remove_keeps_wf(s: Seq<ScrobbleRecord>, capacity: usize, next_id: u64, max_retries: u32, k: int)
    requires
        records_wf(s, capacity, next_id, max_retries),
        0 <= k < s.len(),
    ensures
        records_wf(s.remove(k), capacity, next_id, max_retries),
{
    let u = s.remove(k);
    assert forall|a: int| 0 <= a < u.len() implies #[trigger] u[a] == s[if a < k { a } else { a + 1 }] by {}
    assert forall|a: int, b: int| 0 <= a < u.len() && 0 <= b < u.len() && a != b implies u[a].id != u[b].id
        && !same_scrobble(u[a].track, u[b].track) by {
        assert(u[a] == s[if a < k { a } else { a + 1 }]);
        assert(u[b] == s[if b < k { b } else { b + 1 }]);
    }
}

proof fn lemma_retry_keeps_wf(s: Seq<ScrobbleRecord>, capacity: usize, next_id: u64, max_retries: u32, k: int)
    requires
        records_wf(s, capacity, next_id, max_retries),
        0 <= k < s.len(),
        s[k].attempts < max_retries,
    ensures
        records_wf(
            s.update(k, ScrobbleRecord { state: RecordState::Pending, attempts: (s[k].attempts + 1) as u32, ..s[k] }),
            capacity,
            next_id,
            max_retries,
        ),
{
    let u = s.update(k, ScrobbleRecord { state: RecordState::Pending, attempts: (s[k].attempts + 1) as u32, ..s[k] });
    assert forall|a: int| 0 <= a < u.len() implies #[trigger] u[a].id == s[a].id && u[a].track == s[a].track
        && u[a].attempts <= max_retries by {}
    assert forall|a: int, b: int| 0 <= a < u.len() && 0 <= b < u.len() && a != b implies u[a].id != u[b].id
        && !same_scrobble(u[a].track, u[b].track) by {
        assert(u[a].id == s[a].id && u[a].track == s[a].track);
        assert(u[b].id == s[b].id && u[b].track == s[b].track);
    }
}

proof fn lemma_first_pending_below(s: Seq<ScrobbleRecord>, w: int)
    requires
        0 <= w < s.len(),
        s[w].state is Pending,
    ensures
        exists|i: int| is_first_pending(s, i),
    decreases w,
{
    if exists|j: int| 0 <= j < w && s[j].state is Pending {
        let j = choose|j: int| 0 <= j < w && s[j].state is Pending;
        lemma_first_pending_below(s, j);
    } else {
        assert(is_first_pending(s, w));
    }
}

/// When a record is pending, there is an oldest pending one.
pub proof fn lemma_first_pending(s: Seq<ScrobbleRecord>)
    requires
        has_pending(s),
    ensures
        is_first_pending(s, first_pending(s)),
{
    let w = choose|i: int| 0 <= i < s.len() && s[i].state is Pending;
    lemma_first_pending_below(s, w);
}

impl ScrobbleRecord {
    /// A field-by-field copy.
    pub fn duplicate(&self) -> (r: ScrobbleRecord)
        ensures
            r == *self,
    {
        let state = match self.state {
            RecordState::Pending => RecordState::Pending,
            RecordState::InFlight => RecordState::InFlight,
        };
        ScrobbleRecord { id: self.id, track: self.track.duplicate(), state, attempts: self.attempts }
    }

    pub fn is_pending(&self) -> (r: bool)
        ensures
            r == (self.state is Pending),
    {
        match self.state {
            RecordState::Pending => true,
            RecordState::InFlight => false,
        }
    }
}

impl ScrobbleQueue {
    pub open spec fn wf(self) -> bool {
        records_wf(self.records@, self.capacity, self.next_id, self.max_retries)
    }

    /// An empty queue that holds at most `capacity` records and retries a
    /// record at most `max_retries` times.
    pub fn new(capacity: usize, max_retries: u32) -> (r: ScrobbleQueue)
        ensures
            r.wf(),
            r.records@.len() == 0,
            r.next_id == 0,
            r.capacity == capacity,
            r.max_retries == max_retries,
    {
        ScrobbleQueue { records: Vec::new(), next_id: 0, capacity, max_retries }
    }

    /// Whether a record of the same track with the same start time is queued.
    pub fn is_queued(&self, track: &Track) -> (r: bool)
        ensures
            r == is_queued(self.records@, *track),
    {
        let ghost s = self.records@;
        let mut i: usize = 0;
        while i < self.records.len()
            invariant
                s == self.records@,
                i <= s.len(),
                forall|j: int| 0 <= j < i ==> !same_scrobble(#[trigger] s[j].track, *track),
            decreases s.len() - i,
        {
            let other = &self.records[i].track;
            let same_start = match (other.timestamp_utc, track.timestamp_utc) {
                (Some(a), Some(b)) => a == b,
                (None, None) => true,
                _ => false,
            };
            if other.same_track(track) && same_start {
                return true;
            }
            i += 1;
        }
        false
    }

    /// Index of the oldest pending record, if there is one.
    pub fn first_pending_index(&self) -> (r: Option<usize>)
        ensures
            r is None <==> !has_pending(self.records@),
            r matches Some(k) ==> k == first_pending(self.records@) && k < self.records@.len()
                && self.records@[k as int].state is Pending,
    {
        let ghost s = self.records@;
        let mut k: usize = 0;
        while k < self.records.len()
            invariant
                s == self.records@,
                k <= s.len(),
                forall|j: int| 0 <= j < k ==> #[trigger] s[j].state !is Pending,
            decreases s.len() - k,
        {
            if self.records[k].is_pending() {
                assert(is_first_pending(s, k as int));
                let ghost c = first_pending(s);
                assert(is_first_pending(s, c));
                assert(c == k as int) by {
                    if c < k {
                        assert(s[c].state !is Pending);
                    } else if c > k {
                        assert(s[k as int].state !is Pending);
                    }
                }
                return Some(k);
            }
            k += 1;
        }
        None
    }

    /// Appends a pending record for `track`. When the queue is full, the
    /// oldest pending record is evicted to make room and handed back.
    pub fn enqueue(&mut self, track: Track) -> (r: Result<Option<ScrobbleRecord>, EnqueueError>)
        requires
            old(self).wf(),
            old(self).next_id < u64::MAX,
        ensures
            final(self).wf(),
            final(self).capacity == old(self).capacity,
            final(self).max_retries == old(self).max_retries,
            (final(self).records@, final(self).next_id, r) == enqueue_spec(
                old(self).records@,
                old(self).capacity,
                old(self).next_id,
                track,
            ),
    {
        if self.is_queued(&track) {
            return Err(EnqueueError::Duplicate);
        }
        let id = self.next_id;
        let added = ScrobbleRecord { id, track, state: RecordState::Pending, attempts: 0 };
        if self.records.len() < self.capacity {
            proof {
                lemma_push_new(self.records@, self.capacity, id, self.max_retries, track);
            }
            self.records.push(added);
            self.next_id = id + 1;
            return Ok(None);
        }
        let ghost s = self.records@;
        let k = match self.first_pending_index() {
            Some(k) => k,
            None => {
                return Err(EnqueueError::Full);
            },
        };
        proof {
            lemma_evict_push_new(s, self.capacity, id, self.max_retries, k as int, track);
        }
        let evicted = self.records.remove(k);
        self.records.push(added);
        self.next_id = id + 1;
        Ok(Some(evicted))
    }

    /// Takes the oldest pending records, at most `max` of them, marks them
    /// in flight and returns them, oldest first.
    pub fn take_batch(&mut self, max: usize) -> (r: Vec<ScrobbleRecord>)
        requires
            old(self).wf(),
        ensures
            (final(self).records@, r@) == take_spec(old(self).records@, max as nat),
            final(self).wf(),
            final(self).next_id == old(self).next_id,
            final(self).capacity == old(self).capacity,
            final(self).max_retries == old(self).max_retries,
    {
        let ghost s = self.records@;
        let mut batch: Vec<ScrobbleRecord> = Vec::new();
        let mut i: usize = 0;
        while i < self.records.len()
            invariant
                self.records@.len() == s.len(),
                i <= s.len(),
                (self.records@.take(i as int), batch@) == take_spec(s.take(i as int), max as nat),
                forall|j: int| i <= j < s.len() ==> #[trigger] self.records@[j] == s[j],
                self.next_id == old(self).next_id,
                self.capacity == old(self).capacity,
                self.max_retries == old(self).max_retries,
            decreases s.len() - i,
        {
            assert(s.take(i as int + 1).drop_last() =~= s.take(i as int));
            if batch.len() < max && self.records[i].is_pending() {
                let r = self.records[i].duplicate();
                let marked = ScrobbleRecord { state: RecordState::InFlight, ..r };
                batch.push(marked.duplicate());
                let ghost before = self.records@;
                self.records.set(i, marked);
                assert(self.records@.take(i as int + 1) =~= before.take(i as int).push(in_flight(s[i as int])));
            } else {
                assert(self.records@.take(i as int + 1) =~= self.records@.take(i as int).push(s[i as int]));
            }
            i += 1;
        }
        assert(s.take(s.len() as int) =~= s);
        assert(self.records@.take(s.len() as int) =~= self.records@);
        proof {
            lemma_take_spec(s, max as nat);
            let t = self.records@;
            assert forall|a: int, b: int| 0 <= a < t.len() && 0 <= b < t.len() && a != b implies t[a].id
                != t[b].id && !same_scrobble(t[a].track, t[b].track) by {
                assert(t[a].id == s[a].id && t[a].track == s[a].track);
                assert(t[b].id == s[b].id && t[b].track == s[b].track);
            }
            assert forall|a: int| 0 <= a < t.len() implies t[a].id < self.next_id && t[a].attempts
                <= self.max_retries by {
                assert(t[a].id == s[a].id && t[a].attempts == s[a].attempts);
            }
        }
        batch
    }

    /// Index of the in-flight record `id`, if there is one.
    fn in_flight_position(&self, id: u64) -> (r: Option<usize>)
        requires
            ids_unique(self.records@),
        ensures
            r is None <==> !has_in_flight(self.records@, id),
            r matches Some(k) ==> k == in_flight_index(self.records@, id),
    {
        let ghost s = self.records@;
        let mut k: usize = 0;
        while k < self.records.len()
            invariant
                s == self.records@,
                k <= s.len(),
                ids_unique(s),
                forall|j: int| 0 <= j < k ==> !(#[trigger] s[j].id == id && s[j].state is InFlight),
            decreases s.len() - k,
        {
            if self.records[k].id == id && !self.records[k].is_pending() {
                let ghost c = in_flight_index(s, id);
                assert(s[k as int].id == id && s[k as int].state is InFlight);
                assert(c == k as int);
                return Some(k);
            }
            k += 1;
        }
        None
    }

    /// Applies the outcome of a submission to the in-flight record `id`.
    /// A scrobbled record leaves the queue; a permanent failure leaves it
    /// too and is handed back; a retryable failure puts it back to pending
    /// with one more attempt, unless it has used up its retries, in which
    /// case it fails for good.
    pub fn resolve(&mut self, id: u64, outcome: Outcome) -> (r: Resolution)
        requires
            old(self).wf(),
        ensures
            (final(self).records@, r) == resolve_spec(old(self).records@, old(self).max_retries, id, outcome),
            final(self).wf(),
            final(self).next_id == old(self).next_id,
            final(self).capacity == old(self).capacity,
            final(self).max_retries == old(self).max_retries,
    {
        let ghost s = self.records@;
        let k = match self.in_flight_position(id) {
            Some(k) => k,
            None => {
                return Resolution::Unknown;
            },
        };
        match outcome {
            Outcome::Scrobbled => {
                proof {
                    lemma_remove_keeps_wf(s, self.capacity, self.next_id, self.max_retries, k as int);
                }
                Resolution::Scrobbled(self.records.remove(k))
            },
            Outcome::PermanentFailure => {
                proof {
                    lemma_remove_keeps_wf(s, self.capacity, self.next_id, self.max_retries, k as int);
                }
                Resolution::Failed(self.records.remove(k))
            },
            Outcome::RetryableFailure => {
                if self.records[k].attempts >= self.max_retries {
                    proof {
                        lemma_remove_keeps_wf(s, self.capacity, self.next_id, self.max_retries, k as int);
                    }
                    Resolution::Failed(self.records.remove(k))
                } else {
                    proof {
                        lemma_retry_keeps_wf(s, self.capacity, self.next_id, self.max_retries, k as int);
                    }
                    let r = self.records[k].duplicate();
                    let retried = ScrobbleRecord {
                        state: RecordState::Pending,
                        attempts: r.attempts + 1,
                        ..r
                    };
                    self.records.set(k, retried);
                    Resolution::Retried
                }
            },
        }
    }

    /// Resolves each `(id, outcome)` of `plan`, in order.
    pub fn resolve_all(&mut self, plan: &Vec<(u64, Outcome)>) -> (r: Vec<Resolution>)
        requires
            old(self).wf(),
        ensures
            (final(self).records@, r@) == resolve_all_spec(old(self).records@, old(self).max_retries, plan@),
            final(self).wf(),
            final(self).next_id == old(self).next_id,
            final(self).capacity == old(self).capacity,
            final(self).max_retries == old(self).max_retries,
    {
        let ghost s = self.records@;
        let mut done: Vec<Resolution> = Vec::new();
        let mut i: usize = 0;
        while i < plan.len()
            invariant
                i <= plan@.len(),
                (self.records@, done@) == resolve_all_spec(s, self.max_retries, plan@.take(i as int)),
                self.wf(),
                s == old(self).records@,
                self.next_id == old(self).next_id,
                self.capacity == old(self).capacity,
                self.max_retries == old(self).max_retries,
            decreases plan@.len() - i,
        {
            assert(plan@.take(i as int + 1).drop_last() =~= plan@.take(i as int));
            let id = plan[i].0;
            let outcome = plan[i].1;
            let r = self.resolve(id, outcome);
            done.push(r);
            i += 1;
        }
        assert(plan@.take(plan@.len() as int) =~= plan@);
        done
    }

    pub fn len(&self) -> (r: usize)
        ensures
            r == self.records@.len(),
    {
        self.records.len()
    }
}

} // verus!
