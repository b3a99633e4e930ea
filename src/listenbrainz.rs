use vstd::prelude::*;
use crate::track::{Track, TrackView, opt_chars, copy_opt};

verus! {

/// The two kinds of submission ListenBrainz accepts here.
#[derive(Debug, Clone, Copy, PartialEq, Eq, Structural)]
pub enum ListenType {
    /// A now-playing notice; it carries no time.
    PlayingNow,
    /// One finished listen, with the time it began.
    Single,
}

pub open spec fn listen_type_text(t: ListenType) -> Seq<char> {
    match t {
        ListenType::PlayingNow => "playing_now"@,
        ListenType::Single => "single"@,
    }
}

impl ListenType {
    /// The name the API gives this kind.
    pub fn as_text(&self) -> (r: String)
        ensures
            r@ == listen_type_text(*self),
    {
        match self {
            ListenType::PlayingNow => String::from_str("playing_now"),
            ListenType::Single => String::from_str("single"),
        }
    }
}

/// What one submission holds, before it is written as JSON.
pub struct ListenPayload {
    pub listen_type: ListenType,
    /// Unix time of the listen; absent for a now-playing notice.
    pub listened_at: Option<i64>,
    pub artist_name: String,
    pub track_name: String,
    pub release_name: Option<String>,
}

pub ghost struct PayloadView {
    pub listen_type: ListenType,
    pub listened_at: Option<i64>,
    pub artist_name: Seq<char>,
    pub track_name: Seq<char>,
    pub release_name: Option<Seq<char>>,
}

impl View for ListenPayload {
    type V = PayloadView;

    open spec fn view(&self) -> PayloadView {
        PayloadView {
            listen_type: self.listen_type,
            listened_at: self.listened_at,
            artist_name: self.artist_name@,
            track_name: self.track_name@,
            release_name: opt_chars(self.release_name),
        }
    }
}

/// The payload for a track: a single listen is stamped with `timestamp`, or
/// with `now` when no time is given.
pub open spec fn payload_spec(
    listen_type: ListenType,
    t: TrackView,
    timestamp: Option<i64>,
    now: i64,
) -> PayloadView {
    PayloadView {
        listen_type,
        listened_at: match listen_type {
            ListenType::PlayingNow => None,
            ListenType::Single => Some(
                match timestamp {
                    Some(ts) => ts,
                    None => now,
                },
            ),
        },
        artist_name: t.artist,
        track_name: t.title,
        release_name: t.album,
    }
}

/// One ListenBrainz account.
pub struct ListenBrainzScrobbler {
    pub name: String,
    pub token: String,
    pub api_url: String,
}

impl ListenBrainzScrobbler {
    pub fn new(name: String, token: String, api_url: String) -> (r: Self)
        ensures
            r.name@ == name@,
            r.token@ == token@,
            r.api_url@ == api_url@,
    {
        ListenBrainzScrobbler { name, token, api_url }
    }

    /// Where submissions are posted.
    pub fn submit_url(&self) -> (r: String)
        ensures
            r@ == self.api_url@ + "/1/submit-listens"@,
    {
        let mut s = self.api_url.clone();
        s.append("/1/submit-listens");
        s
    }

    /// The value of the Authorization header.
    pub fn authorization(&self) -> (r: String)
        ensures
            r@ == "Token "@ + self.token@,
    {
        let mut s = String::from_str("Token ");
        s.append(self.token.as_str());
        s
    }

    /// The payload of a submission of `track`.
    pub fn submit_listen(
        &self,
        listen_type: ListenType,
        track: &Track,
        timestamp: Option<i64>,
        now: i64,
    ) -> (r: ListenPayload)
        ensures
            r@ == payload_spec(listen_type, track@, timestamp, now),
    {
        let listened_at = match listen_type {
            ListenType::PlayingNow => None,
            ListenType::Single => Some(
                match timestamp {
                    Some(ts) => ts,
                    None => now,
                },
            ),
        };
        ListenPayload {
            listen_type,
            listened_at,
            artist_name: track.artist.clone(),
            track_name: track.title.clone(),
            release_name: copy_opt(&track.album),
        }
    }

    /// The payload of a now-playing notice.
    pub fn now_playing(&self, track: &Track) -> (r: ListenPayload)
        ensures
            r@ == payload_spec(ListenType::PlayingNow, track@, None, 0),
    {
        self.submit_listen(ListenType::PlayingNow, track, None, 0)
    }

    /// The payload of a listen that began at `timestamp`.
    pub fn scrobble(&self, track: &Track, timestamp: i64) -> (r: ListenPayload)
        ensures
            r@ == payload_spec(ListenType::Single, track@, Some(timestamp), timestamp),
    {
        self.submit_listen(ListenType::Single, track, Some(timestamp), timestamp)
    }
}

} // verus!
