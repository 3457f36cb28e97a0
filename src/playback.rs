use vstd::prelude::*;

use crate::timer::EligibilityTimer;
use crate::track::{eligibility_threshold, same_track_spec, Track, MIN_SCROBBLE_DURATION_SEC};

verus! {

/// What the media player reports.
pub enum PlayerEvent {
    /// A track plays: a new one, or the current one resumed.
    Play(Track),
    /// Playback stopped or paused.
    Stop,
    /// Nothing happened; time went by.
    Tick,
}

/// Follows what is playing and decides which tracks to scrobble.
///
/// Idle while `current` is `None`; otherwise tracking the timer's track,
/// which has been scrobbled once the timer has fired.
pub struct Playback {
    pub current: Option<EligibilityTimer>,
    /// Time of the last event handled.
    pub clock: u64,
}

impl Playback {
    pub open spec fn wf(self) -> bool {
        self.current matches Some(t) ==> t.wf(self.clock)
    }

    /// The state after handling `event` at time `now`, and the track that
    /// became eligible, if any. A track whose played time reached the
    /// threshold by `now` is reported before the event is applied.
    pub open spec fn handle_spec(self, event: PlayerEvent, now: u64) -> (Playback, Option<Track>) {
        let (cur, emitted) = match self.current {
            Some(t) => (Some(t.poll_spec(now).0), t.poll_spec(now).1),
            None => (None, None),
        };
        let next = match event {
            PlayerEvent::Play(track) => match cur {
                Some(t) => if same_track_spec(t.track, track) {
                    Some(t.resume_spec(now))
                } else {
                    Some(EligibilityTimer::start_spec(track, now))
                },
                None => Some(EligibilityTimer::start_spec(track, now)),
            },
            PlayerEvent::Stop => match cur {
                Some(t) => Some(t.pause_spec(now)),
                None => None,
            },
            PlayerEvent::Tick => cur,
        };
        (Playback { current: next, clock: now }, emitted)
    }

    /// Idle, at time `now`.
    pub fn new(now: u64) -> (r: Playback)
        ensures
            r.current is None,
            r.clock == now,
            r.wf(),
    {
        Playback { current: None, clock: now }
    }

    /// Handles one event at time `now`; returns the track to scrobble, if
    /// one became eligible. Events come in the order they happened.
    pub fn handle(&mut self, event: PlayerEvent, now: u64) -> (r: Option<Track>)
        requires
            old(self).wf(),
            old(self).clock <= now,
        ensures
            (*final(self), r) == old(self).handle_spec(event, now),
            final(self).wf(),
            r matches Some(t) ==> t.duration_sec >= MIN_SCROBBLE_DURATION_SEC,
    {
        let emitted = match &mut self.current {
            Some(t) => t.poll(now),
            None => None,
        };
        match event {
            PlayerEvent::Play(track) => {
                let resumes = match &self.current {
                    Some(t) => t.track.same_track(&track),
                    None => false,
                };
                if resumes {
                    match &mut self.current {
                        Some(t) => t.resume(now),
                        None => {},
                    }
                } else {
                    self.current = Some(EligibilityTimer::start(track, now));
                }
            },
            PlayerEvent::Stop => {
                match &mut self.current {
                    Some(t) => t.pause(now),
                    None => {},
                }
            },
            PlayerEvent::Tick => {},
        }
        self.clock = now;
        emitted
    }

    /// Whether the current track has already been scrobbled.
    pub fn is_scrobbled(&self) -> (r: bool)
        ensures
            r == (self.current matches Some(t) && t.fired),
    {
        match &self.current {
            Some(t) => t.fired,
            None => false,
        }
    }

    /// Seconds of further play until the current track becomes eligible;
    /// `None` when idle or when it never will.
    pub fn remaining(&self) -> (r: Option<u64>)
        requires
            self.wf(),
        ensures
            r == (match self.current {
                Some(t) => t.remaining_spec(self.clock),
                None => None,
            }),
    {
        match &self.current {
            Some(t) => t.remaining(self.clock),
            None => None,
        }
    }
}

/// Stopping and then playing the same track again keeps the played time:
/// the timer goes on from what was played before the stop, and the paused
/// interval does not count.
pub proof fn lemma_pause_resume_keeps_played(p: Playback, track: Track, stop_at: u64, play_at: u64)
    requires
        p.wf(),
        p.clock <= stop_at <= play_at,
        p.current matches Some(t) && !t.fired && !t.eligible_at(stop_at) && same_track_spec(
            t.track,
            track,
        ),
    ensures
        ({
            let stopped = p.handle_spec(PlayerEvent::Stop, stop_at).0;
            let (resumed, emitted) = stopped.handle_spec(PlayerEvent::Play(track), play_at);
            &&& emitted is None
            &&& resumed.current matches Some(timer) && timer.played_at(play_at) == p.current->0.played_at(stop_at)
            &&& forall|later: u64| later >= play_at ==> #[trigger] resumed.current->0.played_at(later)
                == p.current->0.played_at(stop_at) + (later - play_at)
        }),
{
}

/// A track played without a stop becomes eligible exactly when the time
/// since it started reaches its threshold, half its length and at most four
/// minutes; a track too short never does.
pub proof fn lemma_uninterrupted_play_fires_at_threshold(p: Playback, track: Track, start: u64, now: u64)
    requires
        p.wf(),
        p.clock <= start <= now,
        p.current matches Some(t) ==> !same_track_spec(t.track, track),
    ensures
        ({
            let started = p.handle_spec(PlayerEvent::Play(track), start).0;
            let emitted = started.handle_spec(PlayerEvent::Tick, now).1;
            &&& emitted is Some <==> (eligibility_threshold(track.duration_sec) matches Some(th) && now
                - start >= th)
            &&& emitted matches Some(e) ==> e == Track { timestamp_utc: Some(start), ..track }
        }),
{
}

/// Playing a different track before the current one became eligible drops
/// the current timer, reports nothing and starts afresh on the new track.
pub proof fn lemma_track_change_discards_timer(p: Playback, track: Track, now: u64)
    requires
        p.wf(),
        p.clock <= now,
        p.current matches Some(t) && !t.eligible_at(now) && !same_track_spec(t.track, track),
    ensures
        p.handle_spec(PlayerEvent::Play(track), now) == (Playback {
            current: Some(EligibilityTimer::start_spec(track, now)),
            clock: now,
        }, None::<Track>),
{
}

} // verus!
