use osx_scrobbler::config::{AppFilteringConfig, Config, ConfigError, LastFmConfig, ListenBrainzConfig};
use osx_scrobbler::ui::AppChoice;

fn lb(enabled: bool, name: &str, token: &str, url: &str) -> ListenBrainzConfig {
    ListenBrainzConfig {
        enabled,
        name: name.to_string(),
        token: token.to_string(),
        api_url: url.to_string(),
    }
}

#[test]
fn default_config_is_valid() {
    let c = Config::default();
    assert_eq!(c.refresh_interval, 5);
    assert_eq!(c.scrobble_threshold, 50);
    assert_eq!(c.cleanup.patterns.len(), 6);
    assert_eq!(c.listenbrainz[0].name, "Primary");
    assert!(c.validate().is_ok());
}

#[test]
fn app_in_both_lists_is_rejected() {
    let mut c = Config::default();
    c.app_filtering.allowed_apps = vec!["a".to_string(), "com.x".to_string()];
    c.app_filtering.ignored_apps = vec!["com.x".to_string()];
    match c.validate() {
        Err(ConfigError::AppInBothLists(id)) => assert_eq!(id, "com.x"),
        other => panic!("unexpected {:?}", other),
    }
}

#[test]
fn zero_refresh_interval_is_rejected() {
    let mut c = Config::default();
    c.refresh_interval = 0;
    assert!(matches!(c.validate(), Err(ConfigError::ZeroRefreshInterval)));
}

#[test]
fn threshold_outside_range_is_rejected() {
    let mut c = Config::default();
    c.scrobble_threshold = 0;
    assert!(matches!(c.validate(), Err(ConfigError::ThresholdOutOfRange)));
    c.scrobble_threshold = 101;
    assert!(matches!(c.validate(), Err(ConfigError::ThresholdOutOfRange)));
    c.scrobble_threshold = 100;
    assert!(c.validate().is_ok());
}

#[test]
fn enabled_lastfm_needs_key_and_secret() {
    let mut c = Config::default();
    c.lastfm = Some(LastFmConfig {
        enabled: true,
        api_key: String::new(),
        api_secret: "s".to_string(),
        session_key: String::new(),
    });
    assert!(matches!(c.validate(), Err(ConfigError::LastFmApiKeyMissing)));
    c.lastfm.as_mut().unwrap().api_key = "k".to_string();
    c.lastfm.as_mut().unwrap().api_secret = String::new();
    assert!(matches!(c.validate(), Err(ConfigError::LastFmApiSecretMissing)));
}

#[test]
fn enabled_listenbrainz_needs_token_and_url() {
    let mut c = Config::default();
    c.listenbrainz = vec![lb(false, "off", "", ""), lb(true, "Home", "", "u")];
    match c.validate() {
        Err(ConfigError::ListenBrainzTokenMissing(n)) => assert_eq!(n, "Home"),
        other => panic!("unexpected {:?}", other),
    }
    c.listenbrainz = vec![lb(true, "Work", "t", "")];
    match c.validate() {
        Err(ConfigError::ListenBrainzApiUrlMissing(n)) => assert_eq!(n, "Work"),
        other => panic!("unexpected {:?}", other),
    }
}

#[test]
fn recorded_choice_is_added_once() {
    let mut f = AppFilteringConfig::default();
    f.record_choice("com.a".to_string(), AppChoice::Allow);
    f.record_choice("com.a".to_string(), AppChoice::Allow);
    f.record_choice("com.b".to_string(), AppChoice::Ignore);
    assert_eq!(f.allowed_apps, vec!["com.a".to_string()]);
    assert_eq!(f.ignored_apps, vec!["com.b".to_string()]);
}
