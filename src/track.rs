use vstd::prelude::*;

verus! {

/// Tracks shorter than this many seconds are never scrobbled.
pub const MIN_SCROBBLE_DURATION_SEC: u32 = 30;

/// Played time after which any long enough track becomes eligible.
pub const MAX_ELIGIBILITY_SEC: u64 = 240;

/// A played track, as handed in by a media player.
#[derive(Debug, Hash)]
pub struct Track {
    pub name: String,
    pub artist: String,
    pub duration_sec: u32,
    pub album: Option<String>,
    pub album_artist: Option<String>,
    pub track_number: Option<u32>,
    /// When playback of the track began, in seconds since the Unix epoch;
    /// stamped by the playback state machine, not by the constructor.
    pub timestamp_utc: Option<u64>,
}

/// Played seconds after which a track of `duration_sec` seconds becomes
/// eligible: half its length, at most four minutes; `None` for a track
/// too short to be scrobbled at all.
pub open spec fn eligibility_threshold(duration_sec: u32) -> Option<u64> {
    if duration_sec < MIN_SCROBBLE_DURATION_SEC {
        None
    } else if (duration_sec / 2) as u64 <= MAX_ELIGIBILITY_SEC {
        Some((duration_sec / 2) as u64)
    } else {
        Some(MAX_ELIGIBILITY_SEC)
    }
}

/// Two tracks are the same logical track when name, artist and album agree.
pub open spec fn same_track_spec(a: Track, b: Track) -> bool {
    &&& a.name@ == b.name@
    &&& a.artist@ == b.artist@
    &&& opt_str_view(a.album) == opt_str_view(b.album)
}

pub open spec fn opt_str_view(s: Option<String>) -> Option<Seq<char>> {
    match s {
        Some(x) => Some(x@),
        None => None,
    }
}

/// Computes `eligibility_threshold`.
pub fn scrobble_threshold(duration_sec: u32) -> (r: Option<u64>)
    ensures
        r == eligibility_threshold(duration_sec),
{
    if duration_sec < MIN_SCROBBLE_DURATION_SEC {
        None
    } else {
        let half = (duration_sec / 2) as u64;
        if half <= MAX_ELIGIBILITY_SEC {
            Some(half)
        } else {
            Some(MAX_ELIGIBILITY_SEC)
        }
    }
}

fn clone_opt_string(s: &Option<String>) -> (r: Option<String>)
    ensures
        r == *s,
{
    match s {
        Some(x) => Some(x.clone()),
        None => None,
    }
}

fn opt_string_eq(a: &Option<String>, b: &Option<String>) -> (r: bool)
    ensures
        r == (opt_str_view(*a) == opt_str_view(*b)),
{
    match (a, b) {
        (Some(x), Some(y)) => *x == *y,
        (None, None) => true,
        _ => false,
    }
}

impl Track {
    /// A track with the given name, artist and length, and nothing else set.
    pub fn new(name: &str, artist: &str, duration_sec: u32) -> (r: Track)
        ensures
            r.name@ == name@,
            r.artist@ == artist@,
            r.duration_sec == duration_sec,
            r.album is None,
            r.album_artist is None,
            r.track_number is None,
            r.timestamp_utc is None,
    {
        Track {
            name: name.to_owned(),
            artist: artist.to_owned(),
            duration_sec: duration_sec,
            album: None,
            album_artist: None,
            track_number: None,
            timestamp_utc: None,
        }
    }

    /// Sets the album.
    pub fn album(self, album: &str) -> (r: Track)
        ensures
            r == (Track { album: r.album, ..self }),
            r.album matches Some(a) && a@ == album@,
    {
        let mut t = self;
        t.album = Some(album.to_owned());
        t
    }

    /// Sets the album artist.
    pub fn album_artist(self, album_artist: &str) -> (r: Track)
        ensures
            r == (Track { album_artist: r.album_artist, ..self }),
            r.album_artist matches Some(a) && a@ == album_artist@,
    {
        let mut t = self;
        t.album_artist = Some(album_artist.to_owned());
        t
    }

    /// Sets the position of the track on its album.
    pub fn track_number(self, track_number: u32) -> (r: Track)
        ensures
            r == (Track { track_number: Some(track_number), ..self }),
    {
        let mut t = self;
        t.track_number = Some(track_number);
        t
    }

    /// The time playback began, once the track has been played.
    pub fn timestamp_utc(&self) -> (r: Option<u64>)
        ensures
            r == self.timestamp_utc,
    {
        self.timestamp_utc
    }

    /// Whether `other` is the same logical track (name, artist and album).
    pub fn same_track(&self, other: &Track) -> (r: bool)
        ensures
            r == same_track_spec(*self, *other),
    {
        self.name == other.name && self.artist == other.artist && opt_string_eq(
            &self.album,
            &other.album,
        )
    }

    /// A field-by-field copy.
    pub fn duplicate(&self) -> (r: Track)
        ensures
            r == *self,
    {
        Track {
            name: self.name.clone(),
            artist: self.artist.clone(),
            duration_sec: self.duration_sec,
            album: clone_opt_string(&self.album),
            album_artist: clone_opt_string(&self.album_artist),
            track_number: self.track_number,
            timestamp_utc: self.timestamp_utc,
        }
    }

    /// The same track with its playback start time set.
    pub fn stamped(self, started_at: u64) -> (r: Track)
        ensures
            r == (Track { timestamp_utc: Some(started_at), ..self }),
    {
        let mut t = self;
        t.timestamp_utc = Some(started_at);
        t
    }
}

} // verus!
