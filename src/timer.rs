use vstd::prelude::*;

use crate::track::{eligibility_threshold, scrobble_threshold, Track, MIN_SCROBBLE_DURATION_SEC};

verus! {

/// Measures the played time of one track and decides when it has been
/// listened to long enough to be scrobbled.
///
/// Times are whole seconds on a clock that never goes back. Played time is
/// `played`, plus the time since `running_since` while the timer runs.
pub struct EligibilityTimer {
    pub track: Track,
    /// Played seconds accumulated up to the last pause.
    pub played: u64,
    /// When the current unpaused interval began; `None` while paused.
    pub running_since: Option<u64>,
    /// Set once eligibility has been reported; the timer is inert after that.
    pub fired: bool,
}

impl EligibilityTimer {
    /// The timer is consistent at time `now`: no more was played than
    /// time went by, and a running interval began no later than `now`.
    pub open spec fn wf(self, now: u64) -> bool {
        &&& self.played <= now
        &&& self.running_since matches Some(s) ==> self.played <= s && s <= now
    }

    /// Played seconds at time `now`, paused intervals excluded.
    pub open spec fn played_at(self, now: u64) -> int {
        match self.running_since {
            Some(s) => self.played + (now - s),
            None => self.played as int,
        }
    }

    pub open spec fn threshold(self) -> Option<u64> {
        eligibility_threshold(self.track.duration_sec)
    }

    /// The timer has not fired yet and its track has been played long enough.
    pub open spec fn eligible_at(self, now: u64) -> bool {
        &&& !self.fired
        &&& self.threshold() matches Some(th)
        &&& self.played_at(now) >= th
    }

    pub open spec fn start_spec(track: Track, now: u64) -> EligibilityTimer {
        EligibilityTimer {
            track: Track { timestamp_utc: Some(now), ..track },
            played: 0,
            running_since: Some(now),
            fired: false,
        }
    }

    pub open spec fn pause_spec(self, now: u64) -> EligibilityTimer {
        if !self.fired && self.running_since is Some {
            EligibilityTimer { played: self.played_at(now) as u64, running_since: None, ..self }
        } else {
            self
        }
    }

    pub open spec fn resume_spec(self, now: u64) -> EligibilityTimer {
        if !self.fired && self.running_since is None {
            EligibilityTimer { running_since: Some(now), ..self }
        } else {
            self
        }
    }

    /// The timer after a check at `now`, and the track it reports, if any.
    pub open spec fn poll_spec(self, now: u64) -> (EligibilityTimer, Option<Track>) {
        if self.eligible_at(now) {
            (EligibilityTimer { fired: true, ..self }, Some(self.track))
        } else {
            (self, None)
        }
    }

    /// Seconds of further play until eligibility; `None` where the timer
    /// will never fire again.
    pub open spec fn remaining_spec(self, now: u64) -> Option<u64> {
        if self.fired {
            None
        } else {
            match self.threshold() {
                None => None,
                Some(th) => if self.played_at(now) >= th {
                    Some(0)
                } else {
                    Some((th - self.played_at(now)) as u64)
                },
            }
        }
    }

    /// Starts counting played time for `track`, stamping it with `now` as
    /// the moment playback began.
    pub fn start(track: Track, now: u64) -> (r: EligibilityTimer)
        ensures
            r == Self::start_spec(track, now),
            r.wf(now),
    {
        EligibilityTimer { track: track.stamped(now), played: 0, running_since: Some(now), fired: false }
    }

    fn played_now(&self, now: u64) -> (r: u64)
        requires
            self.wf(now),
        ensures
            r == self.played_at(now),
            r <= now,
    {
        match self.running_since {
            Some(s) => self.played + (now - s),
            None => self.played,
        }
    }

    /// Freezes the played time; a no-op while paused or once fired.
    pub fn pause(&mut self, now: u64)
        requires
            old(self).wf(now),
        ensures
            *final(self) == old(self).pause_spec(now),
            final(self).wf(now),
            final(self).played_at(now) == old(self).played_at(now),
    {
        if !self.fired && self.running_since.is_some() {
            self.played = self.played_now(now);
            self.running_since = None;
        }
    }

    /// Unfreezes the played time; a no-op while running or once fired.
    pub fn resume(&mut self, now: u64)
        requires
            old(self).wf(now),
        ensures
            *final(self) == old(self).resume_spec(now),
            final(self).wf(now),
            final(self).played_at(now) == old(self).played_at(now),
    {
        if !self.fired && self.running_since.is_none() {
            self.running_since = Some(now);
        }
    }

    /// Reports the track, exactly once, when its played time has reached
    /// the eligibility threshold. Never reports a track that is too short.
    pub fn poll(&mut self, now: u64) -> (r: Option<Track>)
        requires
            old(self).wf(now),
        ensures
            (*final(self), r) == old(self).poll_spec(now),
            final(self).wf(now),
            r is Some <==> old(self).eligible_at(now),
            r matches Some(t) ==> t.duration_sec >= MIN_SCROBBLE_DURATION_SEC,
    {
        if self.fired {
            return None;
        }
        match scrobble_threshold(self.track.duration_sec) {
            None => None,
            Some(th) => {
                if self.played_now(now) >= th {
                    self.fired = true;
                    Some(self.track.duplicate())
                } else {
                    None
                }
            },
        }
    }

    /// Seconds of further play until the timer fires.
    pub fn remaining(&self, now: u64) -> (r: Option<u64>)
        requires
            self.wf(now),
        ensures
            r == self.remaining_spec(now),
    {
        if self.fired {
            return None;
        }
        match scrobble_threshold(self.track.duration_sec) {
            None => None,
            Some(th) => {
                let p = self.played_now(now);
                if p >= th {
                    Some(0)
                } else {
                    Some(th - p)
                }
            },
        }
    }
}

/// Eligibility comes exactly when the played time reaches the threshold:
/// a running timer that has not fired is eligible at `now` if and only if
/// the seconds since its last resume make up what was missing.
pub proof fn lemma_eligible_exactly_at_threshold(t: EligibilityTimer, now: u64)
    requires
        t.wf(now),
        !t.fired,
        t.running_since is Some,
        t.threshold() is Some,
    ensures
        t.eligible_at(now) <==> now - t.running_since->0 >= t.threshold()->0 - t.played,
        t.played_at(now) == t.played + (now - t.running_since->0),
{
}

/// A track shorter than the minimum length never becomes eligible,
/// however long it plays.
pub proof fn lemma_short_track_never_eligible(t: EligibilityTimer, now: u64)
    requires
        t.track.duration_sec < MIN_SCROBBLE_DURATION_SEC,
    ensures
        !t.eligible_at(now),
        t.poll_spec(now).1 is None,
        t.remaining_spec(now) is None,
{
}

} // verus!
