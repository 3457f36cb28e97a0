use vstd::prelude::*;

use crate::playback::{Playback, PlayerEvent};
use crate::queue::{enqueue_spec, first_pending, lemma_first_pending, has_pending, is_queued, EnqueueError, ScrobbleQueue, ScrobbleRecord};
use crate::track::{Track, MIN_SCROBBLE_DURATION_SEC};

verus! {

/// Every queued record is of a track long enough to be scrobbled.
pub open spec fn all_scrobblable(s: Seq<ScrobbleRecord>) -> bool {
    forall|i: int| 0 <= i < s.len() ==> #[trigger] s[i].track.duration_sec >= MIN_SCROBBLE_DURATION_SEC
}

proof fn lemma_enqueue_keeps_scrobblable(s: Seq<ScrobbleRecord>, capacity: usize, next_id: u64, t: Track)
    requires
        all_scrobblable(s),
        t.duration_sec >= MIN_SCROBBLE_DURATION_SEC,
    ensures
        all_scrobblable(enqueue_spec(s, capacity, next_id, t).0),
{
    let u = enqueue_spec(s, capacity, next_id, t).0;
    if !is_queued(s, t) && s.len() >= capacity && has_pending(s) {
        lemma_first_pending(s);
        let k = first_pending(s);
        let r = s.remove(k);
        assert forall|i: int| 0 <= i < r.len() implies #[trigger] r[i].track.duration_sec >= MIN_SCROBBLE_DURATION_SEC by {
            assert(r[i] == s[if i < k { i } else { i + 1 }]);
        }
        assert forall|i: int| 0 <= i < u.len() implies #[trigger] u[i].track.duration_sec >= MIN_SCROBBLE_DURATION_SEC by {
            if i < r.len() {
                assert(u[i] == r[i]);
            }
        }
    }
}

/// The event a now-playing report stands for: a track plays, or playback
/// stopped.
pub open spec fn now_playing_event(track: Option<Track>) -> PlayerEvent {
    match track {
        Some(t) => PlayerEvent::Play(t),
        None => PlayerEvent::Stop,
    }
}

/// Computes `now_playing_event`.
pub fn player_event(track: Option<Track>) -> (r: PlayerEvent)
    ensures
        r == now_playing_event(track),
{
    match track {
        Some(t) => PlayerEvent::Play(t),
        None => PlayerEvent::Stop,
    }
}

/// Handles one player event at time `now` and queues the track that became
/// eligible, if any. Returns what `enqueue` answered, or `None` when nothing
/// became eligible. Only tracks long enough to be scrobbled are queued.
pub fn feed(playback: &mut Playback, queue: &mut ScrobbleQueue, event: PlayerEvent, now: u64) -> (r: Option<
    Result<Option<ScrobbleRecord>, EnqueueError>,
>)
    requires
        old(playback).wf(),
        old(playback).clock <= now,
        old(queue).wf(),
        old(queue).next_id < u64::MAX,
    ensures
        *final(playback) == old(playback).handle_spec(event, now).0,
        final(playback).wf(),
        final(queue).wf(),
        final(queue).capacity == old(queue).capacity,
        final(queue).max_retries == old(queue).max_retries,
        all_scrobblable(old(queue).records@) ==> all_scrobblable(final(queue).records@),
        match old(playback).handle_spec(event, now).1 {
            None => r is None && *final(queue) == *old(queue),
            Some(t) => {
                &&& t.duration_sec >= MIN_SCROBBLE_DURATION_SEC
                &&& r matches Some(res) && (final(queue).records@, final(queue).next_id, res)
                    == enqueue_spec(old(queue).records@, old(queue).capacity, old(queue).next_id, t)
            },
        },
{
    match playback.handle(event, now) {
        None => None,
        Some(t) => {
            proof {
                if all_scrobblable(queue.records@) {
                    lemma_enqueue_keeps_scrobblable(queue.records@, queue.capacity, queue.next_id, t);
                }
            }
            Some(queue.enqueue(t))
        },
    }
}

} // verus!
