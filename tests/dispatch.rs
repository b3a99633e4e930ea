use osx_scrobbler::config::{AppFilteringConfig, CleanupConfig};
use osx_scrobbler::dispatch::{Dispatcher, EventKind, RetryPolicy, Step};
use osx_scrobbler::media_monitor::{MediaMonitor, NowPlayingInfo};
use osx_scrobbler::text_cleanup::TextCleaner;

#[test]
fn policies_differ_by_event() {
    let np = RetryPolicy::for_event(EventKind::NowPlaying);
    let sc = RetryPolicy::for_event(EventKind::Scrobble);
    assert_eq!(np.max_elapsed_ms, 10_000);
    assert_eq!(sc.max_elapsed_ms, 30_000);
    assert_eq!(sc.delay_for(0), 500);
    assert_eq!(sc.delay_for(3), 4_000);
    assert_eq!(sc.delay_for(100), u64::MAX);
}

#[test]
fn one_failing_one_succeeding_service() {
    let mut d = Dispatcher::new(EventKind::Scrobble, 2);
    assert_eq!(d.record(1, Ok(()), 0), Step::Done);
    let mut elapsed = 0u64;
    loop {
        match d.record(0, Err("down".to_string()), elapsed) {
            Step::RetryAfter(ms) => elapsed += ms,
            Step::Done => break,
        }
    }
    assert!(elapsed <= 30_000);
    assert!(d.is_complete());
    let report = d.report();
    assert_eq!(report.len(), 2);
    assert_eq!(report[0], (0, Err("down".to_string())));
    assert_eq!(report[1], (1, Ok(())));
}

#[test]
fn now_playing_budget_gives_up_sooner() {
    let mut d = Dispatcher::new(EventKind::NowPlaying, 1);
    assert_eq!(d.record(0, Err("e".to_string()), 0), Step::RetryAfter(500));
    assert_eq!(d.record(0, Err("e".to_string()), 500), Step::RetryAfter(1_000));
    assert_eq!(d.record(0, Err("e".to_string()), 1_500), Step::RetryAfter(2_000));
    assert_eq!(d.record(0, Err("e".to_string()), 3_500), Step::RetryAfter(4_000));
    assert_eq!(d.record(0, Err("e".to_string()), 7_500), Step::Done);
    assert!(!d.is_pending(0));
}

#[test]
fn success_after_retry_is_delivered() {
    let mut d = Dispatcher::new(EventKind::Scrobble, 1);
    assert!(d.is_pending(0));
    assert_eq!(d.record(0, Err("timeout".to_string()), 0), Step::RetryAfter(500));
    assert_eq!(d.record(0, Ok(()), 500), Step::Done);
    assert_eq!(d.report(), vec![(0, Ok(()))]);
}

#[test]
fn scrobbled_flag_set_whatever_dispatch_does() {
    let info = || NowPlayingInfo {
        is_playing: Some(true),
        title: Some("T".to_string()),
        artist: Some("A".to_string()),
        album: None,
        duration: Some(100),
        bundle_id: None,
        update_token: None,
    };
    let mut m = MediaMonitor::new(
        std::time::Duration::from_secs(5),
        50,
        TextCleaner::new(&CleanupConfig::default()),
        AppFilteringConfig::default(),
    );
    m.poll(Some(info()), 0);
    assert!(m.poll(Some(info()), 60).scrobble.is_some());
    let mut d = Dispatcher::new(EventKind::Scrobble, 2);
    d.record(1, Ok(()), 0);
    while let Step::RetryAfter(_) = d.record(0, Err("x".to_string()), 40_000) {}
    assert!(m.current_session().as_ref().unwrap().scrobbled);
    assert!(m.poll(Some(info()), 120).scrobble.is_none());
}
