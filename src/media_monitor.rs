use vstd::prelude::*;
use crate::config::{AppFilteringConfig, AppFilteringView, list_contains, recorded};
use crate::ui::AppChoice;
use crate::text_cleanup::{TextCleaner, TextCleanerView, clean_spec, clean_opt_spec};
use crate::track::{Track, TrackView, opt_chars, same_track, copy_opt};

verus! {

/// Tracks shorter than this many seconds are never scrobbled.
pub const MIN_TRACK_DURATION: u64 = 30;

/// A track is scrobbled after at most this many seconds of play.
pub const SCROBBLE_TIME_THRESHOLD: u64 = 240;

/// What to do with playback from a source application.
#[derive(Debug, Clone, Copy, PartialEq, Eq, Structural)]
pub enum AppFilterAction {
    Allow,
    Ignore,
    PromptUser,
}

/// The filter's decision for a source application.
pub open spec fn classify(app_id: Option<Seq<char>>, f: AppFilteringView) -> AppFilterAction {
    match app_id {
        Some(id) if id.len() > 0 => {
            if f.allowed_apps.contains(id) {
                AppFilterAction::Allow
            } else if f.ignored_apps.contains(id) {
                AppFilterAction::Ignore
            } else if f.prompt_for_new_apps {
                AppFilterAction::PromptUser
            } else {
                AppFilterAction::Allow
            }
        },
        _ => if f.scrobble_unknown {
            AppFilterAction::Allow
        } else {
            AppFilterAction::Ignore
        },
    }
}

/// One snapshot of what the media source reports as playing.
pub struct NowPlayingInfo {
    pub is_playing: Option<bool>,
    pub title: Option<String>,
    pub artist: Option<String>,
    pub album: Option<String>,
    /// Duration in whole seconds.
    pub duration: Option<u64>,
    /// Identifier of the application that plays.
    pub bundle_id: Option<String>,
    /// Token that the source changes whenever it reports a new playback.
    pub update_token: Option<u64>,
}

pub ghost struct InfoView {
    pub is_playing: Option<bool>,
    pub title: Option<Seq<char>>,
    pub artist: Option<Seq<char>>,
    pub album: Option<Seq<char>>,
    pub duration: Option<u64>,
    pub bundle_id: Option<Seq<char>>,
    pub update_token: Option<u64>,
}

impl View for NowPlayingInfo {
    type V = InfoView;

    open spec fn view(&self) -> InfoView {
        InfoView {
            is_playing: self.is_playing,
            title: opt_chars(self.title),
            artist: opt_chars(self.artist),
            album: opt_chars(self.album),
            duration: self.duration,
            bundle_id: opt_chars(self.bundle_id),
            update_token: self.update_token,
        }
    }
}

pub open spec fn opt_info_view(i: Option<NowPlayingInfo>) -> Option<InfoView> {
    match i {
        Some(i) => Some(i@),
        None => None,
    }
}

/// The track that a snapshot describes, once cleaned; none without title or artist.
pub open spec fn info_track(c: TextCleanerView, i: InfoView) -> Option<TrackView> {
    match (i.title, i.artist) {
        (Some(t), Some(a)) => Some(
            TrackView {
                title: clean_spec(c, t),
                artist: clean_spec(c, a),
                album: clean_opt_spec(c, i.album),
                duration: i.duration,
            },
        ),
        _ => None,
    }
}

/// The record of one continuous playback of one track.
pub struct PlaySession {
    pub track: Track,
    pub bundle_id: Option<String>,
    /// Unix time, in seconds, at which the session began.
    pub started_at: i64,
    /// Track duration in seconds; 0 when unknown.
    pub duration: u64,
    pub scrobbled: bool,
    pub now_playing_sent: bool,
    pub update_token: Option<u64>,
}

pub ghost struct SessionView {
    pub track: TrackView,
    pub bundle_id: Option<Seq<char>>,
    pub started_at: i64,
    pub duration: u64,
    pub scrobbled: bool,
    pub now_playing_sent: bool,
    pub update_token: Option<u64>,
}

impl View for PlaySession {
    type V = SessionView;

    open spec fn view(&self) -> SessionView {
        SessionView {
            track: self.track@,
            bundle_id: opt_chars(self.bundle_id),
            started_at: self.started_at,
            duration: self.duration,
            scrobbled: self.scrobbled,
            now_playing_sent: self.now_playing_sent,
            update_token: self.update_token,
        }
    }
}

pub open spec fn opt_session_view(s: Option<PlaySession>) -> Option<SessionView> {
    match s {
        Some(s) => Some(s@),
        None => None,
    }
}

/// Seconds from `started_at` to `now`, never negative.
pub open spec fn elapsed_spec(started_at: i64, now: i64) -> int {
    if now > started_at {
        now - started_at
    } else {
        0
    }
}

/// Seconds of play after which a track of `duration` seconds counts as listened:
/// `threshold_percent` of the track, but never more than four minutes.
pub open spec fn scrobble_point(duration: u64, threshold_percent: u8) -> int {
    let part = (duration * threshold_percent) / 100;
    if part < SCROBBLE_TIME_THRESHOLD {
        part
    } else {
        SCROBBLE_TIME_THRESHOLD as int
    }
}

/// Whether the session is owed its scrobble at time `now`.
pub open spec fn scrobble_due(s: SessionView, threshold_percent: u8, now: i64) -> bool {
    &&& !s.scrobbled
    &&& s.duration >= MIN_TRACK_DURATION
    &&& elapsed_spec(s.started_at, now) >= scrobble_point(s.duration, threshold_percent)
}

/// Whether a track reported with `token` starts a new session.
pub open spec fn starts_new_session(s: Option<SessionView>, t: TrackView, token: Option<u64>) -> bool {
    match s {
        None => true,
        Some(s) => !same_track(s.track, t) || s.update_token != token,
    }
}

impl PlaySession {
    /// A fresh, unscrobbled session that began at `started_at`.
    pub fn new(
        track: Track,
        bundle_id: Option<String>,
        duration: u64,
        started_at: i64,
        update_token: Option<u64>,
    ) -> (r: Self)
        ensures
            r@ == (SessionView {
                track: track@,
                bundle_id: opt_chars(bundle_id),
                started_at,
                duration,
                scrobbled: false,
                now_playing_sent: false,
                update_token,
            }),
    {
        PlaySession {
            track,
            bundle_id,
            started_at,
            duration,
            scrobbled: false,
            now_playing_sent: false,
            update_token,
        }
    }

    /// Seconds of play at time `now`.
    pub fn elapsed_seconds(&self, now: i64) -> (r: u64)
        ensures
            r == elapsed_spec(self.started_at, now),
    {
        if now > self.started_at {
            (now as i128 - self.started_at as i128) as u64
        } else {
            0
        }
    }

    /// Whether the track should be scrobbled now.
    pub fn should_scrobble(&self, threshold_percent: u8, now: i64) -> (r: bool)
        ensures
            r == scrobble_due(self@, threshold_percent, now),
    {
        if self.scrobbled {
            return false;
        }
        if self.duration < MIN_TRACK_DURATION {
            return false;
        }
        let elapsed = self.elapsed_seconds(now);
        let d = self.duration as u128;
        let pct = threshold_percent as u128;
        assert(d * pct <= 0xFFFF_FFFF_FFFF_FFFFu128 * 255) by (nonlinear_arith)
            requires
                d <= 0xFFFF_FFFF_FFFF_FFFFu128,
                pct <= 255,
        ;
        let part: u128 = (d * pct) / 100;
        let scrobble_at: u64 = if part < SCROBBLE_TIME_THRESHOLD as u128 {
            part as u64
        } else {
            SCROBBLE_TIME_THRESHOLD
        };
        elapsed >= scrobble_at
    }

    /// Whether the now-playing notice is still owed.
    pub fn should_send_now_playing(&self) -> (r: bool)
        ensures
            r == !self.now_playing_sent,
    {
        !self.now_playing_sent
    }
}

/// The notifications that one poll produces.
pub struct MediaEvents {
    /// A track began: the track and the application that plays it.
    pub now_playing: Option<(Track, Option<String>)>,
    /// A track was listened to: the track, when its session began, and the application.
    pub scrobble: Option<(Track, i64, Option<String>)>,
    /// An application that the user should be asked about.
    pub unknown_app: Option<String>,
}

pub ghost struct EventsView {
    pub now_playing: Option<(TrackView, Option<Seq<char>>)>,
    pub scrobble: Option<(TrackView, i64, Option<Seq<char>>)>,
    pub unknown_app: Option<Seq<char>>,
}

impl View for MediaEvents {
    type V = EventsView;

    open spec fn view(&self) -> EventsView {
        EventsView {
            now_playing: match self.now_playing {
                Some((t, b)) => Some((t@, opt_chars(b))),
                None => None,
            },
            scrobble: match self.scrobble {
                Some((t, at, b)) => Some((t@, at, opt_chars(b))),
                None => None,
            },
            unknown_app: opt_chars(self.unknown_app),
        }
    }
}

pub open spec fn no_events() -> EventsView {
    EventsView { now_playing: None, scrobble: None, unknown_app: None }
}

/// One poll of the play-session state machine: the next session and the events.
pub open spec fn poll_step(
    session: Option<SessionView>,
    threshold_percent: u8,
    c: TextCleanerView,
    f: AppFilteringView,
    info: Option<InfoView>,
    now: i64,
) -> (Option<SessionView>, EventsView) {
    match info {
        None => (None, no_events()),
        Some(i) => if i.is_playing != Some(true) {
            (session, no_events())
        } else {
            match info_track(c, i) {
                None => (session, no_events()),
                Some(t) => match classify(i.bundle_id, f) {
                    AppFilterAction::Ignore => (session, no_events()),
                    AppFilterAction::PromptUser => (
                        session,
                        EventsView { unknown_app: i.bundle_id, ..no_events() },
                    ),
                    AppFilterAction::Allow => if starts_new_session(session, t, i.update_token) {
                        (
                            Some(
                                SessionView {
                                    track: t,
                                    bundle_id: i.bundle_id,
                                    started_at: now,
                                    duration: match t.duration {
                                        Some(d) => d,
                                        None => 0,
                                    },
                                    scrobbled: false,
                                    now_playing_sent: true,
                                    update_token: i.update_token,
                                },
                            ),
                            EventsView { now_playing: Some((t, i.bundle_id)), ..no_events() },
                        )
                    } else {
                        let s = session->0;
                        if scrobble_due(s, threshold_percent, now) {
                            (
                                Some(SessionView { scrobbled: true, ..s }),
                                EventsView {
                                    scrobble: Some((s.track, s.started_at, s.bundle_id)),
                                    ..no_events()
                                },
                            )
                        } else if !s.now_playing_sent {
                            (
                                Some(SessionView { now_playing_sent: true, ..s }),
                                EventsView {
                                    now_playing: Some((s.track, s.bundle_id)),
                                    ..no_events()
                                },
                            )
                        } else {
                            (session, no_events())
                        }
                    },
                },
            }
        },
    }
}

/// Mathematical model of a [`MediaMonitor`].
pub ghost struct MonitorView {
    pub threshold_percent: u8,
    pub session: Option<SessionView>,
    pub cleaner: TextCleanerView,
    pub filtering: AppFilteringView,
}

/// The play-session decision engine: it owns at most one session and turns
/// snapshots into now-playing, scrobble and ask-the-user events.
pub struct MediaMonitor {
    scrobble_threshold: u8,
    current_session: Option<PlaySession>,
    text_cleaner: TextCleaner,
    app_filtering: AppFilteringConfig,
}

impl View for MediaMonitor {
    type V = MonitorView;

    closed spec fn view(&self) -> MonitorView {
        MonitorView {
            threshold_percent: self.scrobble_threshold,
            session: opt_session_view(self.current_session),
            cleaner: self.text_cleaner@,
            filtering: self.app_filtering@,
        }
    }
}

impl MediaMonitor {
    /// An engine with no session.
    pub fn new(
        _refresh_interval: std::time::Duration,
        scrobble_threshold: u8,
        text_cleaner: TextCleaner,
        app_filtering: AppFilteringConfig,
    ) -> (r: Self)
        ensures
            r@ == (MonitorView {
                threshold_percent: scrobble_threshold,
                session: None,
                cleaner: text_cleaner@,
                filtering: app_filtering@,
            }),
    {
        MediaMonitor { scrobble_threshold, current_session: None, text_cleaner, app_filtering }
    }

    /// The current session, if any.
    pub fn current_session(&self) -> (r: &Option<PlaySession>)
        ensures
            opt_session_view(*r) == self@.session,
    {
        &self.current_session
    }

    /// The application filter in force.
    pub fn app_filtering(&self) -> (r: &AppFilteringConfig)
        ensures
            r@ == self@.filtering,
    {
        &self.app_filtering
    }

    /// Records the user's decision on an application; later polls follow it.
    pub fn record_app_choice(&mut self, bundle_id: String, choice: AppChoice)
        ensures
            final(self)@ == (MonitorView {
                filtering: recorded(old(self)@.filtering, bundle_id@, choice),
                ..old(self)@
            }),
    {
        self.app_filtering.record_choice(bundle_id, choice);
    }

    /// Decides whether playback from the application is scrobbled.
    pub fn should_scrobble_app(&self, bundle_id: &Option<String>) -> (r: AppFilterAction)
        ensures
            r == classify(opt_chars(*bundle_id), self@.filtering),
    {
        match bundle_id {
            Some(id) if id.unicode_len() > 0 => {
                if list_contains(&self.app_filtering.allowed_apps, id) {
                    return AppFilterAction::Allow;
                }
                if list_contains(&self.app_filtering.ignored_apps, id) {
                    return AppFilterAction::Ignore;
                }
                if self.app_filtering.prompt_for_new_apps {
                    AppFilterAction::PromptUser
                } else {
                    AppFilterAction::Allow
                }
            },
            _ => {
                if self.app_filtering.scrobble_unknown {
                    AppFilterAction::Allow
                } else {
                    AppFilterAction::Ignore
                }
            },
        }
    }

    /// The cleaned track that a snapshot describes, if it names title and artist.
    pub fn media_info_to_track(&self, info: &NowPlayingInfo) -> (r: Option<Track>)
        ensures
            match r {
                Some(t) => info_track(self@.cleaner, info@) == Some(t@),
                None => info_track(self@.cleaner, info@) is None,
            },
    {
        let title = match &info.title {
            Some(t) => t,
            None => return None,
        };
        let artist = match &info.artist {
            Some(a) => a,
            None => return None,
        };
        let title = self.text_cleaner.clean(title.as_str());
        let artist = self.text_cleaner.clean(artist.as_str());
        let album = self.text_cleaner.clean_option(copy_opt(&info.album));
        Some(Track { title, artist, album, duration: info.duration })
    }

    /// Takes one snapshot (none when no media source answers) at Unix time `now`
    /// and returns the events it produces.
    pub fn poll(&mut self, info: Option<NowPlayingInfo>, now: i64) -> (r: MediaEvents)
        ensures
            final(self)@.threshold_percent == old(self)@.threshold_percent,
            final(self)@.cleaner == old(self)@.cleaner,
            final(self)@.filtering == old(self)@.filtering,
            (final(self)@.session, r@) == poll_step(
                old(self)@.session,
                old(self)@.threshold_percent,
                old(self)@.cleaner,
                old(self)@.filtering,
                opt_info_view(info),
                now,
            ),
    {
        let mut events = MediaEvents { now_playing: None, scrobble: None, unknown_app: None };
        assert(events@ == no_events());
        let info = match info {
            Some(i) => i,
            None => {
                self.current_session = None;
                return events;
            },
        };
        let is_playing = match info.is_playing {
            Some(p) => p,
            None => false,
        };
        if !is_playing {
            return events;
        }
        let track = match self.media_info_to_track(&info) {
            Some(t) => t,
            None => return events,
        };
        let duration = match track.duration {
            Some(d) => d,
            None => 0,
        };
        match self.should_scrobble_app(&info.bundle_id) {
            AppFilterAction::Ignore => {
                return events;
            },
            AppFilterAction::PromptUser => {
                events.unknown_app = copy_opt(&info.bundle_id);
                return events;
            },
            AppFilterAction::Allow => {},
        }
        let is_new_track = match &self.current_session {
            None => true,
            Some(session) => !session.track.same_as(&track) || session.update_token
                != info.update_token,
        };
        if is_new_track {
            let mut new_session = PlaySession::new(
                track.clone(),
                copy_opt(&info.bundle_id),
                duration,
                now,
                info.update_token,
            );
            new_session.now_playing_sent = true;
            self.current_session = Some(new_session);
            events.now_playing = Some((track, info.bundle_id));
        } else {
            let threshold = self.scrobble_threshold;
            match &mut self.current_session {
                Some(session) => {
                    if session.should_scrobble(threshold, now) {
                        events.scrobble = Some(
                            (session.track.clone(), session.started_at, copy_opt(&session.bundle_id)),
                        );
                        session.scrobbled = true;
                    } else if session.should_send_now_playing() {
                        events.now_playing = Some(
                            (session.track.clone(), copy_opt(&session.bundle_id)),
                        );
                        session.now_playing_sent = true;
                    }
                },
                None => {},
            }
        }
        events
    }
}

impl MediaEvents {
    /// Whether a now-playing or scrobble event is present.
    pub fn has_events(&self) -> (r: bool)
        ensures
            r == (self.now_playing is Some || self.scrobble is Some),
    {
        self.now_playing.is_some() || self.scrobble.is_some()
    }
}

/// The events of a run of polls, each a snapshot and the time it was taken.
pub open spec fn poll_events(
    session: Option<SessionView>,
    threshold_percent: u8,
    c: TextCleanerView,
    f: AppFilteringView,
    polls: Seq<(Option<InfoView>, i64)>,
) -> Seq<EventsView>
    decreases polls.len(),
{
    if polls.len() == 0 {
        Seq::empty()
    } else {
        let (next, ev) = poll_step(session, threshold_percent, c, f, polls[0].0, polls[0].1);
        seq![ev] + poll_events(next, threshold_percent, c, f, polls.drop_first())
    }
}

/// How many of the events are scrobbles.
pub open spec fn scrobble_count(evs: Seq<EventsView>) -> nat
    decreases evs.len(),
{
    if evs.len() == 0 {
        0
    } else {
        (if evs[0].scrobble is Some {
            1nat
        } else {
            0nat
        }) + scrobble_count(evs.drop_first())
    }
}

proof fn lemma_poll_events_unfold(
    session: Option<SessionView>,
    threshold_percent: u8,
    c: TextCleanerView,
    f: AppFilteringView,
    polls: Seq<(Option<InfoView>, i64)>,
)
    requires
        polls.len() > 0,
    ensures
        ({
            let (next, ev) = poll_step(session, threshold_percent, c, f, polls[0].0, polls[0].1);
            let evs = poll_events(session, threshold_percent, c, f, polls);
            scrobble_count(evs) == (if ev.scrobble is Some {
                1nat
            } else {
                0nat
            }) + scrobble_count(poll_events(next, threshold_percent, c, f, polls.drop_first()))
        }),
{
    let (next, ev) = poll_step(session, threshold_percent, c, f, polls[0].0, polls[0].1);
    let evs = poll_events(session, threshold_percent, c, f, polls);
    let rest = poll_events(next, threshold_percent, c, f, polls.drop_first());
    assert(evs[0] == ev);
    assert(evs.drop_first() =~= rest);
}

/// A playing snapshot that reports track `t` with update token `token`.
pub open spec fn plays(c: TextCleanerView, i: Option<InfoView>, t: TrackView, token: Option<u64>) -> bool {
    i matches Some(x) && x.is_playing == Some(true) && info_track(c, x) == Some(t) && x.update_token
        == token
}

/// A scrobbled session for the track that keeps being reported yields no further scrobble.
proof fn lemma_settled_session(
    s: SessionView,
    threshold_percent: u8,
    c: TextCleanerView,
    f: AppFilteringView,
    t: TrackView,
    token: Option<u64>,
    polls: Seq<(Option<InfoView>, i64)>,
)
    requires
        s.scrobbled,
        same_track(s.track, t),
        s.update_token == token,
        forall|k: int| 0 <= k < polls.len() ==> plays(c, (#[trigger] polls[k]).0, t, token),
    ensures
        scrobble_count(poll_events(Some(s), threshold_percent, c, f, polls)) == 0,
    decreases polls.len(),
{
    if polls.len() > 0 {
        lemma_poll_events_unfold(Some(s), threshold_percent, c, f, polls);
        let (next, ev) = poll_step(Some(s), threshold_percent, c, f, polls[0].0, polls[0].1);
        let rest = polls.drop_first();
        assert forall|k: int| 0 <= k < rest.len() implies plays(c, (#[trigger] rest[k]).0, t, token) by {
            assert(rest[k] == polls[k + 1]);
        }
        assert(plays(c, polls[0].0, t, token));
        assert(ev.scrobble is None);
        let ns = next->0;
        assert(next is Some);
        assert(ns.scrobbled);
        assert(ns.track == s.track && ns.update_token == s.update_token);
        lemma_settled_session(ns, threshold_percent, c, f, t, token, rest);
    }
}

/// However often a playing snapshot of the same track (with the same update
/// token) is polled, and whatever the times and the reporting application,
/// at most one scrobble comes out.
pub proof fn lemma_at_most_one_scrobble(
    session: Option<SessionView>,
    threshold_percent: u8,
    c: TextCleanerView,
    f: AppFilteringView,
    t: TrackView,
    token: Option<u64>,
    polls: Seq<(Option<InfoView>, i64)>,
)
    requires
        forall|k: int| 0 <= k < polls.len() ==> plays(c, (#[trigger] polls[k]).0, t, token),
    ensures
        scrobble_count(poll_events(session, threshold_percent, c, f, polls)) <= 1,
    decreases polls.len(),
{
    if polls.len() > 0 {
        lemma_poll_events_unfold(session, threshold_percent, c, f, polls);
        let (next, ev) = poll_step(session, threshold_percent, c, f, polls[0].0, polls[0].1);
        let rest = polls.drop_first();
        assert forall|k: int| 0 <= k < rest.len() implies plays(c, (#[trigger] rest[k]).0, t, token) by {
            assert(rest[k] == polls[k + 1]);
        }
        assert(plays(c, polls[0].0, t, token));
        if ev.scrobble is Some {
            let ns = next->0;
            assert(next is Some);
            assert(ns.scrobbled);
            lemma_settled_session(ns, threshold_percent, c, f, t, token, rest);
        } else {
            lemma_at_most_one_scrobble(next, threshold_percent, c, f, t, token, rest);
        }
    }
}

/// A session, or its absence, that is too short to be scrobbled.
pub open spec fn short_or_none(s: Option<SessionView>) -> bool {
    s matches Some(s) ==> s.duration < MIN_TRACK_DURATION
}

/// A snapshot that reports no duration, or one too short to be scrobbled.
pub open spec fn short_snapshot(i: Option<InfoView>) -> bool {
    i matches Some(i) ==> (i.duration matches Some(d) ==> d < MIN_TRACK_DURATION)
}

/// While every snapshot reports a track shorter than the minimum length, no
/// scrobble comes out, however long it plays.
pub proof fn lemma_short_tracks_never_scrobble(
    session: Option<SessionView>,
    threshold_percent: u8,
    c: TextCleanerView,
    f: AppFilteringView,
    polls: Seq<(Option<InfoView>, i64)>,
)
    requires
        short_or_none(session),
        forall|k: int| 0 <= k < polls.len() ==> short_snapshot((#[trigger] polls[k]).0),
    ensures
        scrobble_count(poll_events(session, threshold_percent, c, f, polls)) == 0,
    decreases polls.len(),
{
    if polls.len() > 0 {
        lemma_poll_events_unfold(session, threshold_percent, c, f, polls);
        let (next, ev) = poll_step(session, threshold_percent, c, f, polls[0].0, polls[0].1);
        let rest = polls.drop_first();
        assert forall|k: int| 0 <= k < rest.len() implies short_snapshot((#[trigger] rest[k]).0) by {
            assert(rest[k] == polls[k + 1]);
        }
        assert(short_snapshot(polls[0].0));
        assert(ev.scrobble is None);
        assert(short_or_none(next));
        lemma_short_tracks_never_scrobble(next, threshold_percent, c, f, rest);
    }
}

/// A different track replaces a scrobbled session: the new session is not
/// scrobbled, and a now-playing event for the new track comes out.
pub proof fn lemma_track_change_resets(
    s: SessionView,
    threshold_percent: u8,
    c: TextCleanerView,
    f: AppFilteringView,
    i: InfoView,
    now: i64,
)
    requires
        s.scrobbled,
        i.is_playing == Some(true),
        classify(i.bundle_id, f) == AppFilterAction::Allow,
        info_track(c, i) matches Some(b) && !same_track(s.track, b),
    ensures
        ({
            let b = info_track(c, i)->0;
            let (next, ev) = poll_step(Some(s), threshold_percent, c, f, Some(i), now);
            &&& next matches Some(n) && n.track == b && !n.scrobbled && n.started_at == now
            &&& ev.now_playing == Some((b, i.bundle_id))
            &&& ev.scrobble is None
        }),
{
}

/// The poll that emits a scrobble marks its session as scrobbled itself, so
/// the flag does not depend on how the delivery to the services turns out.
pub proof fn lemma_scrobble_marks_session(
    session: Option<SessionView>,
    threshold_percent: u8,
    c: TextCleanerView,
    f: AppFilteringView,
    info: Option<InfoView>,
    now: i64,
)
    ensures
        ({
            let (next, ev) = poll_step(session, threshold_percent, c, f, info, now);
            ev.scrobble is Some ==> {
                &&& next is Some && next->0.scrobbled
                &&& session is Some
                &&& ev.scrobble == Some(
                    (session->0.track, session->0.started_at, session->0.bundle_id),
                )
            }
        }),
{
}

/// A paused snapshot leaves the session as it was and yields nothing; when the
/// same track plays again, the same session goes on, with its start time and
/// scrobbled flag.
pub proof fn lemma_pause_preserves_session(
    s: SessionView,
    threshold_percent: u8,
    c: TextCleanerView,
    f: AppFilteringView,
    paused: InfoView,
    resumed: InfoView,
    paused_at: i64,
    resumed_at: i64,
)
    requires
        paused.is_playing != Some(true),
        resumed.is_playing == Some(true),
        info_track(c, resumed) matches Some(t) && same_track(s.track, t),
        resumed.update_token == s.update_token,
    ensures
        poll_step(Some(s), threshold_percent, c, f, Some(paused), paused_at) == (
            Some(s),
            no_events(),
        ),
        ({
            let (next, ev) = poll_step(Some(s), threshold_percent, c, f, Some(resumed), resumed_at);
            &&& next matches Some(n) && n.started_at == s.started_at && n.track == s.track
            &&& s.scrobbled ==> next->0.scrobbled && ev.scrobble is None
            &&& ev.now_playing is Some ==> !s.now_playing_sent
        }),
{
}

} // verus!
