use osx_scrobbler::track::Track;
use osx_scrobbler::ui::TrayState;

#[test]
fn menu_lines() {
    let mut state = TrayState::new();
    assert_eq!(state.update_now_playing(Some("A - T".to_string())), "Now Playing: A - T");
    assert_eq!(state.now_playing.as_deref(), Some("A - T"));
    assert_eq!(state.update_last_scrobbled(None), "Last Scrobbled: None");
    assert_eq!(state.now_playing.as_deref(), Some("A - T"));
    assert_eq!(state.update_now_playing(None), "Now Playing: None");
}

#[test]
fn track_label_and_identity() {
    let a = Track { title: "T".to_string(), artist: "A".to_string(), album: None, duration: Some(3) };
    let b = Track { duration: None, ..a.clone() };
    assert_eq!(a.label(), "A - T");
    assert_eq!(a, b);
    let c = Track { album: Some("X".to_string()), ..a.clone() };
    assert_ne!(a, c);
}
