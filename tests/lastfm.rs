use osx_scrobbler::config::{Config, LastFmConfig, LastFmSetupError, ListenBrainzConfig};
use osx_scrobbler::icon::note_icon_rgba;
use osx_scrobbler::lastfm::{
    is_failed_response, session_request_params, str_less, token_request_params, LastFmScrobbler, Params,
};
use osx_scrobbler::listenbrainz::{ListenBrainzScrobbler, ListenType};
use osx_scrobbler::scrobbler::{configured_services, Service};
use osx_scrobbler::track::Track;

fn pairs(p: &Params) -> Vec<(String, String)> {
    p.entries().clone()
}

fn track(album: Option<&str>, duration: Option<u64>) -> Track {
    Track {
        title: "T".to_string(),
        artist: "A".to_string(),
        album: album.map(|a| a.to_string()),
        duration,
    }
}

#[test]
fn params_stay_sorted_and_unique() {
    let mut p = Params::new();
    for (k, v) in [("track", "1"), ("artist", "2"), ("album", "3"), ("artist", "4"), ("api_key", "5")] {
        p.insert(k.to_string(), v.to_string());
    }
    let keys: Vec<String> = pairs(&p).into_iter().map(|(k, _)| k).collect();
    assert_eq!(keys, vec!["album", "api_key", "artist", "track"]);
    assert_eq!(p.get(&"artist".to_string()), Some("4".to_string()));
    assert_eq!(p.get(&"missing".to_string()), None);
}

#[test]
fn string_order_is_by_code_point() {
    assert!(str_less("api_key", "api_sig"));
    assert!(str_less("", "a"));
    assert!(str_less("ab", "abc"));
    assert!(!str_less("b", "abc"));
    assert!(!str_less("same", "same"));
    assert!(str_less("Z", "a"));
}

#[test]
fn now_playing_request_is_signed() {
    let lf = LastFmScrobbler::new("key".to_string(), "secret".to_string(), "sk".to_string());
    let p = lf.now_playing_params(&track(Some("Al"), Some(200)));
    let got = pairs(&p);
    let expected: Vec<(String, String)> = [
        ("album", "Al"),
        ("api_key", "key"),
        ("api_sig", "10bccb0f06760523fe0fd0275a37210a"),
        ("artist", "A"),
        ("duration", "200"),
        ("method", "track.updateNowPlaying"),
        ("sk", "sk"),
        ("track", "T"),
    ]
    .iter()
    .map(|(k, v)| (k.to_string(), v.to_string()))
    .collect();
    assert_eq!(got, expected);
}

#[test]
fn scrobble_request_carries_timestamp() {
    let lf = LastFmScrobbler::new("key".to_string(), "s".to_string(), "x".to_string());
    let p = lf.scrobble_params(&track(None, None), -5);
    assert_eq!(p.get(&"timestamp".to_string()), Some("-5".to_string()));
    assert_eq!(p.get(&"method".to_string()), Some("track.scrobble".to_string()));
    assert_eq!(
        p.get(&"api_sig".to_string()),
        Some("8fd0290c1f039cbf7b19666c2532cffa".to_string())
    );
    assert_eq!(p.get(&"album".to_string()), None);
}

#[test]
fn signature_of_non_ascii_text() {
    let lf = LastFmScrobbler::new(String::new(), String::new(), String::new());
    let mut p = Params::new();
    p.insert(String::new(), "é".to_string());
    assert_eq!(lf.generate_signature(&p), "66ddcd97cfdeabb2f6fb8a999b4bc76f");
}

#[test]
fn auth_requests() {
    let p = token_request_params("key", "secret");
    assert_eq!(p.get(&"api_sig".to_string()), Some("b4705499705a550b07ca058a15bde9b0".to_string()));
    assert_eq!(p.get(&"format".to_string()), Some("json".to_string()));
    let p = session_request_params("key", "secret", "tok");
    assert_eq!(p.get(&"token".to_string()), Some("tok".to_string()));
    assert_eq!(p.get(&"method".to_string()), Some("auth.getSession".to_string()));
}

#[test]
fn failed_reply_detection() {
    assert!(is_failed_response("<?xml?><lfm status=\"failed\"><error/></lfm>"));
    assert!(!is_failed_response("<lfm status=\"ok\"></lfm>"));
    assert!(!is_failed_response(""));
}

#[test]
fn listenbrainz_payloads() {
    let lb = ListenBrainzScrobbler::new("Home".to_string(), "tok".to_string(), "https://lb".to_string());
    assert_eq!(lb.submit_url(), "https://lb/1/submit-listens");
    assert_eq!(lb.authorization(), "Token tok");
    let np = lb.now_playing(&track(Some("Al"), None));
    assert_eq!(np.listen_type, ListenType::PlayingNow);
    assert_eq!(np.listened_at, None);
    assert_eq!(np.release_name.as_deref(), Some("Al"));
    let sc = lb.scrobble(&track(None, None), 1_700_000_000);
    assert_eq!(sc.listened_at, Some(1_700_000_000));
    assert_eq!(sc.listen_type.as_text(), "single");
    let later = lb.submit_listen(ListenType::Single, &track(None, None), None, 42);
    assert_eq!(later.listened_at, Some(42));
}

#[test]
fn services_from_config() {
    let mut c = Config::default();
    assert!(configured_services(&c).is_empty());
    c.lastfm = Some(LastFmConfig {
        enabled: true,
        api_key: "k".to_string(),
        api_secret: "s".to_string(),
        session_key: String::new(),
    });
    c.listenbrainz.push(ListenBrainzConfig {
        enabled: true,
        name: "Second".to_string(),
        token: "t".to_string(),
        api_url: "u".to_string(),
    });
    let s = configured_services(&c);
    assert_eq!(s.len(), 1);
    assert!(matches!(&s[0], Service::ListenBrainz(lb) if lb.name == "Second"));
    c.set_lastfm_session("session".to_string());
    let s = configured_services(&c);
    assert_eq!(s.len(), 2);
    assert!(matches!(&s[0], Service::LastFm(lf) if lf.session_key == "session"));
}

#[test]
fn lastfm_credentials_checks() {
    let mut c = Config::default();
    assert_eq!(c.lastfm_credentials().unwrap_err(), LastFmSetupError::MissingCredentials);
    c.lastfm = None;
    assert_eq!(c.lastfm_credentials().unwrap_err(), LastFmSetupError::NotConfigured);
    c.lastfm = Some(LastFmConfig {
        enabled: false,
        api_key: "k".to_string(),
        api_secret: "s".to_string(),
        session_key: String::new(),
    });
    assert_eq!(c.lastfm_credentials().unwrap(), ("k".to_string(), "s".to_string()));
}

#[test]
fn icon_pattern() {
    let rgba = note_icon_rgba();
    assert_eq!(rgba.len(), 16 * 16 * 4);
    let at = |x: usize, y: usize| rgba[(y * 16 + x) * 4];
    assert_eq!(at(6, 3), 255);
    assert_eq!(at(10, 5), 255);
    assert_eq!(at(4, 15), 255);
    assert_eq!(at(0, 0), 0);
    assert_eq!(at(11, 5), 0);
    assert_eq!(rgba[(3 * 16 + 6) * 4 + 3], 255);
}
