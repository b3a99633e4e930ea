use osx_scrobbler::apple_music::{AppleMusic, SongRepeatMode};
use osx_scrobbler::decimal::decimal_text;

#[test]
fn commands_name_the_application() {
    let music = AppleMusic::default();
    assert_eq!(music.play(), "Application('Music').play()");
    assert_eq!(music.pause(), "Application('Music').pause()");
    assert_eq!(music.next_track(), "Application('Music').nextTrack()");
    assert_eq!(music.previous_track(), "Application('Music').previousTrack()");
    assert_eq!(music.back_track(), "Application('Music').backTrack()");
    assert_eq!(music.fast_forward(), "Application('Music').fastForward()");
    assert_eq!(music.playpause(), "Application('Music').playpause()");
    assert_eq!(music.resume(), "Application('Music').resume()");
    assert_eq!(music.rewind(), "Application('Music').rewind()");
    assert_eq!(music.stop(), "Application('Music').stop()");
    assert_eq!(music.quit(), "Application('Music').quit()");
    assert_eq!(AppleMusic::new("iTunes".to_string()).run(), "Application('iTunes').run()");
}

#[test]
fn property_setters() {
    let music = AppleMusic::default();
    assert_eq!(music.set_mute(true), "Application('Music').mute = true");
    assert_eq!(music.set_shuffle(false), "Application('Music').shuffleEnabled = false");
    assert_eq!(music.set_sound_volume(75), "Application('Music').soundVolume = 75");
    assert_eq!(
        music.set_song_repeat_mode(SongRepeatMode::ONE),
        "Application('Music').songRepeat = \"one\""
    );
    assert_eq!(SongRepeatMode::ALL.to_string(), "all");
    assert_eq!(SongRepeatMode::OFF.to_string(), "off");
}

#[test]
fn item_commands_use_ids() {
    let music = AppleMusic::default();
    assert_eq!(
        music.play_track(1234),
        "Application('Music').play(Application('Music').tracks.byId(1234))"
    );
    assert_eq!(
        music.play_playlist(-7),
        "Application('Music').play(Application('Music').playlists.byId(-7))"
    );
    assert_eq!(
        music.convert_track(0),
        "Application('Music').convert(Application('Music').tracks.byId(0))"
    );
}

#[test]
fn decimal_rendering() {
    assert_eq!(decimal_text(0), "0");
    assert_eq!(decimal_text(10), "10");
    assert_eq!(decimal_text(-128), "-128");
    assert_eq!(decimal_text(i64::MIN), i64::MIN.to_string());
    assert_eq!(decimal_text(i64::MAX), i64::MAX.to_string());
}
