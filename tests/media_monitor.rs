use osx_scrobbler::config::{AppFilteringConfig, CleanupConfig};
use osx_scrobbler::media_monitor::{AppFilterAction, MediaMonitor, NowPlayingInfo, PlaySession};
use osx_scrobbler::track::Track;
use osx_scrobbler::text_cleanup::TextCleaner;
use osx_scrobbler::ui::AppChoice;
use std::time::Duration;

fn filtering() -> AppFilteringConfig {
    AppFilteringConfig {
        prompt_for_new_apps: true,
        scrobble_unknown: true,
        allowed_apps: vec!["com.apple.Music".to_string()],
        ignored_apps: vec!["com.apple.Safari".to_string()],
    }
}

fn monitor(threshold: u8) -> MediaMonitor {
    let cleaner = TextCleaner::new(&CleanupConfig::default());
    MediaMonitor::new(Duration::from_secs(5), threshold, cleaner, filtering())
}

fn snapshot(title: &str, duration: u64, playing: bool) -> NowPlayingInfo {
    NowPlayingInfo {
        is_playing: Some(playing),
        title: Some(title.to_string()),
        artist: Some("Artist".to_string()),
        album: Some("Album [Explicit]".to_string()),
        duration: Some(duration),
        bundle_id: Some("com.apple.Music".to_string()),
        update_token: None,
    }
}

#[test]
fn new_track_emits_now_playing_with_cleaned_fields() {
    let mut m = monitor(50);
    let ev = m.poll(Some(snapshot("Song [Explicit]", 200, true)), 1000);
    let (track, bundle) = ev.now_playing.expect("now playing");
    assert_eq!(track.title, "Song");
    assert_eq!(track.album.as_deref(), Some("Album"));
    assert_eq!(bundle.as_deref(), Some("com.apple.Music"));
    assert!(ev.scrobble.is_none());
    let s = m.current_session().as_ref().expect("session");
    assert_eq!(s.started_at, 1000);
    assert!(s.now_playing_sent);
    assert!(!s.scrobbled);
}

#[test]
fn threshold_half_of_two_hundred_seconds() {
    let mut m = monitor(50);
    m.poll(Some(snapshot("A", 200, true)), 0);
    assert!(m.poll(Some(snapshot("A", 200, true)), 99).scrobble.is_none());
    let ev = m.poll(Some(snapshot("A", 200, true)), 100);
    let (track, at, _) = ev.scrobble.expect("scrobble");
    assert_eq!(track.title, "A");
    assert_eq!(at, 0);
}

#[test]
fn threshold_capped_at_four_minutes() {
    let mut m = monitor(80);
    m.poll(Some(snapshot("A", 600, true)), 0);
    assert!(m.poll(Some(snapshot("A", 600, true)), 239).scrobble.is_none());
    assert!(m.poll(Some(snapshot("A", 600, true)), 240).scrobble.is_some());
}

#[test]
fn short_track_never_scrobbles() {
    let mut m = monitor(50);
    m.poll(Some(snapshot("Jingle", 20, true)), 0);
    for t in [10, 100, 1_000, 100_000] {
        assert!(m.poll(Some(snapshot("Jingle", 20, true)), t).scrobble.is_none());
    }
}

#[test]
fn at_most_one_scrobble_per_session() {
    let mut m = monitor(50);
    let mut count = 0;
    for t in (0..2000).step_by(5) {
        if m.poll(Some(snapshot("A", 200, true)), t).scrobble.is_some() {
            count += 1;
        }
    }
    assert_eq!(count, 1);
}

#[test]
fn track_change_starts_fresh_session() {
    let mut m = monitor(50);
    m.poll(Some(snapshot("A", 200, true)), 0);
    assert!(m.poll(Some(snapshot("A", 200, true)), 150).scrobble.is_some());
    let ev = m.poll(Some(snapshot("B", 200, true)), 160);
    let (track, _) = ev.now_playing.expect("now playing for B");
    assert_eq!(track.title, "B");
    let s = m.current_session().as_ref().unwrap();
    assert!(!s.scrobbled);
    assert_eq!(s.started_at, 160);
}

#[test]
fn pause_preserves_session() {
    let mut m = monitor(50);
    m.poll(Some(snapshot("A", 200, true)), 0);
    let ev = m.poll(Some(snapshot("A", 200, false)), 50);
    assert!(ev.now_playing.is_none() && ev.scrobble.is_none() && ev.unknown_app.is_none());
    let s = m.current_session().as_ref().unwrap();
    assert_eq!(s.started_at, 0);
    assert!(!s.scrobbled);
    let ev = m.poll(Some(snapshot("A", 200, true)), 60);
    assert!(ev.now_playing.is_none());
    assert_eq!(m.current_session().as_ref().unwrap().started_at, 0);
}

#[test]
fn absent_snapshot_clears_session() {
    let mut m = monitor(50);
    m.poll(Some(snapshot("A", 200, true)), 0);
    let ev = m.poll(None, 10);
    assert!(!ev.has_events());
    assert!(m.current_session().is_none());
}

#[test]
fn new_update_token_restarts_same_track() {
    let mut m = monitor(50);
    let mut s = snapshot("A", 200, true);
    s.update_token = Some(1);
    m.poll(Some(s), 0);
    let mut again = snapshot("A", 200, true);
    again.update_token = Some(2);
    let ev = m.poll(Some(again), 150);
    assert!(ev.now_playing.is_some());
    assert!(ev.scrobble.is_none());
    assert_eq!(m.current_session().as_ref().unwrap().started_at, 150);
}

#[test]
fn missing_artist_is_ignored() {
    let mut m = monitor(50);
    let mut s = snapshot("A", 200, true);
    s.artist = None;
    assert!(!m.poll(Some(s), 0).has_events());
    assert!(m.current_session().is_none());
}

#[test]
fn unknown_app_asks_user_then_allowed() {
    let cleaner = TextCleaner::new(&CleanupConfig::default());
    let mut m = MediaMonitor::new(Duration::from_secs(5), 50, cleaner, AppFilteringConfig::default());
    let mut s = snapshot("A", 200, true);
    s.bundle_id = Some("com.spotify.client".to_string());
    let ev = m.poll(Some(s), 0);
    assert_eq!(ev.unknown_app.as_deref(), Some("com.spotify.client"));
    assert!(m.current_session().is_none());
    m.record_app_choice("com.spotify.client".to_string(), AppChoice::Allow);
    let mut s = snapshot("A", 200, true);
    s.bundle_id = Some("com.spotify.client".to_string());
    assert!(m.poll(Some(s), 5).now_playing.is_some());
}

#[test]
fn ignored_app_yields_nothing() {
    let mut m = monitor(50);
    let mut s = snapshot("A", 200, true);
    s.bundle_id = Some("com.apple.Safari".to_string());
    assert!(!m.poll(Some(s), 0).has_events());
}

#[test]
fn filter_rules_in_order() {
    let m = monitor(50);
    assert_eq!(m.should_scrobble_app(&None), AppFilterAction::Allow);
    assert_eq!(m.should_scrobble_app(&Some(String::new())), AppFilterAction::Allow);
    assert_eq!(m.should_scrobble_app(&Some("com.apple.Music".to_string())), AppFilterAction::Allow);
    assert_eq!(m.should_scrobble_app(&Some("com.apple.Safari".to_string())), AppFilterAction::Ignore);
    assert_eq!(m.should_scrobble_app(&Some("x.y".to_string())), AppFilterAction::PromptUser);
    let mut f = filtering();
    f.scrobble_unknown = false;
    f.prompt_for_new_apps = false;
    let m = MediaMonitor::new(Duration::from_secs(5), 50, TextCleaner::new(&CleanupConfig::default()), f);
    assert_eq!(m.should_scrobble_app(&None), AppFilterAction::Ignore);
    assert_eq!(m.should_scrobble_app(&Some("x.y".to_string())), AppFilterAction::Allow);
}

#[test]
fn now_playing_not_repeated_within_session() {
    let mut m = monitor(50);
    m.poll(Some(snapshot("A", 200, true)), 0);
    assert!(m.poll(Some(snapshot("A", 200, true)), 10).now_playing.is_none());
}

#[test]
fn elapsed_time_at_the_extremes() {
    let track = Track { title: "T".to_string(), artist: "A".to_string(), album: None, duration: None };
    let s = PlaySession::new(track, None, 600, i64::MIN, None);
    assert_eq!(s.elapsed_seconds(i64::MAX), u64::MAX);
    assert_eq!(s.elapsed_seconds(i64::MIN), 0);
    assert!(s.should_scrobble(100, i64::MAX));
    assert!(s.should_send_now_playing());
    let late = PlaySession::new(s.track.clone(), None, 600, 100, None);
    assert_eq!(late.elapsed_seconds(50), 0);
    assert!(!late.should_scrobble(1, 50));
}
