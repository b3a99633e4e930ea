use vstd::prelude::*;
use crate::ui::AppChoice;

verus! {

/// The characters of each string of a list.
pub open spec fn strings_view(v: Seq<String>) -> Seq<Seq<char>> {
    v.map_values(|s: String| s@)
}

/// Main configuration.
pub struct Config {
    /// Refresh interval in seconds for polling the now-playing status.
    pub refresh_interval: u64,
    /// Scrobble after playing this percentage of the track.
    pub scrobble_threshold: u8,
    pub cleanup: CleanupConfig,
    pub app_filtering: AppFilteringConfig,
    pub lastfm: Option<LastFmConfig>,
    /// Several ListenBrainz instances may be configured at once.
    pub listenbrainz: Vec<ListenBrainzConfig>,
}

/// Patterns removed from track, artist and album names.
pub struct CleanupConfig {
    pub enabled: bool,
    /// Regular expressions, applied in order; each match is removed.
    pub patterns: Vec<String>,
}

pub struct LastFmConfig {
    pub enabled: bool,
    pub api_key: String,
    pub api_secret: String,
    pub session_key: String,
}

pub struct ListenBrainzConfig {
    pub enabled: bool,
    pub name: String,
    pub token: String,
    pub api_url: String,
}

/// Which source applications are scrobbled.
pub struct AppFilteringConfig {
    /// Ask the user when a new application is seen.
    pub prompt_for_new_apps: bool,
    /// Scrobble from sources that give no application identifier.
    pub scrobble_unknown: bool,
    /// Application identifiers to scrobble from.
    pub allowed_apps: Vec<String>,
    /// Application identifiers to ignore.
    pub ignored_apps: Vec<String>,
}

/// Mathematical model of an [`AppFilteringConfig`].
pub ghost struct AppFilteringView {
    pub prompt_for_new_apps: bool,
    pub scrobble_unknown: bool,
    pub allowed_apps: Seq<Seq<char>>,
    pub ignored_apps: Seq<Seq<char>>,
}

impl View for AppFilteringConfig {
    type V = AppFilteringView;

    open spec fn view(&self) -> AppFilteringView {
        AppFilteringView {
            prompt_for_new_apps: self.prompt_for_new_apps,
            scrobble_unknown: self.scrobble_unknown,
            allowed_apps: strings_view(self.allowed_apps@),
            ignored_apps: strings_view(self.ignored_apps@),
        }
    }
}

/// True when the list holds an entry equal to `x`.
pub fn list_contains(v: &Vec<String>, x: &String) -> (r: bool)
    ensures
        r == strings_view(v@).contains(x@),
{
    let mut i: usize = 0;
    while i < v.len()
        invariant
            0 <= i <= v@.len(),
            forall|k: int| 0 <= k < i ==> v@[k]@ != x@,
        decreases v@.len() - i,
    {
        if v[i] == *x {
            assert(strings_view(v@)[i as int] == x@);
            return true;
        }
        i = i + 1;
    }
    assert(!strings_view(v@).contains(x@)) by {
        if strings_view(v@).contains(x@) {
            let k = choose|k: int| 0 <= k < strings_view(v@).len() && strings_view(v@)[k] == x@;
            assert(v@[k]@ == x@);
        }
    }
    false
}

/// Why a configuration is rejected.
#[derive(Debug)]
pub enum ConfigError {
    ZeroRefreshInterval,
    ThresholdOutOfRange,
    LastFmApiKeyMissing,
    LastFmApiSecretMissing,
    /// An enabled ListenBrainz instance, by name, has no token.
    ListenBrainzTokenMissing(String),
    /// An enabled ListenBrainz instance, by name, has no API URL.
    ListenBrainzApiUrlMissing(String),
    /// An application identifier stands in both the allowed and the ignored list.
    AppInBothLists(String),
}

pub ghost enum ConfigErrorView {
    ZeroRefreshInterval,
    ThresholdOutOfRange,
    LastFmApiKeyMissing,
    LastFmApiSecretMissing,
    ListenBrainzTokenMissing(Seq<char>),
    ListenBrainzApiUrlMissing(Seq<char>),
    AppInBothLists(Seq<char>),
}

impl View for ConfigError {
    type V = ConfigErrorView;

    open spec fn view(&self) -> ConfigErrorView {
        match self {
            ConfigError::ZeroRefreshInterval => ConfigErrorView::ZeroRefreshInterval,
            ConfigError::ThresholdOutOfRange => ConfigErrorView::ThresholdOutOfRange,
            ConfigError::LastFmApiKeyMissing => ConfigErrorView::LastFmApiKeyMissing,
            ConfigError::LastFmApiSecretMissing => ConfigErrorView::LastFmApiSecretMissing,
            ConfigError::ListenBrainzTokenMissing(n) => ConfigErrorView::ListenBrainzTokenMissing(n@),
            ConfigError::ListenBrainzApiUrlMissing(n) => ConfigErrorView::ListenBrainzApiUrlMissing(n@),
            ConfigError::AppInBothLists(id) => ConfigErrorView::AppInBothLists(id@),
        }
    }
}

/// What is wrong with one ListenBrainz instance, if anything.
pub open spec fn listenbrainz_problem(lb: ListenBrainzConfig) -> Option<ConfigErrorView> {
    if !lb.enabled {
        None
    } else if lb.token@.len() == 0 {
        Some(ConfigErrorView::ListenBrainzTokenMissing(lb.name@))
    } else if lb.api_url@.len() == 0 {
        Some(ConfigErrorView::ListenBrainzApiUrlMissing(lb.name@))
    } else {
        None
    }
}

/// The problem of the first of the first `n` instances that has one.
pub open spec fn first_listenbrainz_problem(lbs: Seq<ListenBrainzConfig>, n: int) -> Option<
    ConfigErrorView,
>
    decreases n,
{
    if n <= 0 {
        None
    } else {
        match first_listenbrainz_problem(lbs, n - 1) {
            Some(e) => Some(e),
            None => listenbrainz_problem(lbs[n - 1]),
        }
    }
}

/// The first of the first `n` allowed identifiers that is also ignored.
pub open spec fn first_conflict(allowed: Seq<Seq<char>>, ignored: Seq<Seq<char>>, n: int) -> Option<
    Seq<char>,
>
    decreases n,
{
    if n <= 0 {
        None
    } else {
        match first_conflict(allowed, ignored, n - 1) {
            Some(id) => Some(id),
            None => if ignored.contains(allowed[n - 1]) {
                Some(allowed[n - 1])
            } else {
                None
            },
        }
    }
}

/// The outcome of validating a configuration: the first rule it breaks, in this order.
pub open spec fn validation(c: Config) -> Result<(), ConfigErrorView> {
    let f = c.app_filtering@;
    if c.refresh_interval == 0 {
        Err(ConfigErrorView::ZeroRefreshInterval)
    } else if c.scrobble_threshold == 0 || c.scrobble_threshold > 100 {
        Err(ConfigErrorView::ThresholdOutOfRange)
    } else if c.lastfm matches Some(l) && l.enabled && l.api_key@.len() == 0 {
        Err(ConfigErrorView::LastFmApiKeyMissing)
    } else if c.lastfm matches Some(l) && l.enabled && l.api_secret@.len() == 0 {
        Err(ConfigErrorView::LastFmApiSecretMissing)
    } else if first_listenbrainz_problem(c.listenbrainz@, c.listenbrainz@.len() as int) is Some {
        Err(first_listenbrainz_problem(c.listenbrainz@, c.listenbrainz@.len() as int)->0)
    } else if first_conflict(f.allowed_apps, f.ignored_apps, f.allowed_apps.len() as int) is Some {
        Err(
            ConfigErrorView::AppInBothLists(
                first_conflict(f.allowed_apps, f.ignored_apps, f.allowed_apps.len() as int)->0,
            ),
        )
    } else {
        Ok(())
    }
}

proof fn lemma_first_conflict_none(allowed: Seq<Seq<char>>, ignored: Seq<Seq<char>>, n: int, k: int)
    requires
        0 <= k < n <= allowed.len(),
        first_conflict(allowed, ignored, n) is None,
    ensures
        !ignored.contains(allowed[k]),
    decreases n,
{
    if k < n - 1 {
        lemma_first_conflict_none(allowed, ignored, n - 1, k);
    }
}

proof fn lemma_first_problem_stays(lbs: Seq<ListenBrainzConfig>, m: int, n: int)
    requires
        0 <= m <= n,
        first_listenbrainz_problem(lbs, m) is Some,
    ensures
        first_listenbrainz_problem(lbs, n) == first_listenbrainz_problem(lbs, m),
    decreases n - m,
{
    if m < n {
        lemma_first_problem_stays(lbs, m, n - 1);
    }
}

proof fn lemma_first_conflict_stays(allowed: Seq<Seq<char>>, ignored: Seq<Seq<char>>, m: int, n: int)
    requires
        0 <= m <= n,
        first_conflict(allowed, ignored, m) is Some,
    ensures
        first_conflict(allowed, ignored, n) == first_conflict(allowed, ignored, m),
    decreases n - m,
{
    if m < n {
        lemma_first_conflict_stays(allowed, ignored, m, n - 1);
    }
}

/// Exec counterpart of `text@.len() == 0`.
fn is_blank(s: &String) -> (r: bool)
    ensures
        r == (s@.len() == 0),
{
    s.as_str().unicode_len() == 0
}

impl Config {
    /// Checks the configuration, returning the first rule that it breaks.
    pub fn validate(&self) -> (r: Result<(), ConfigError>)
        ensures
            match r {
                Ok(()) => validation(*self) == Ok::<(), ConfigErrorView>(()),
                Err(e) => validation(*self) == Err::<(), ConfigErrorView>(e@),
            },
            (exists|id: Seq<char>|
                self.app_filtering@.allowed_apps.contains(id) && self.app_filtering@.ignored_apps.contains(
                    id,
                )) ==> r is Err,
    {
        proof {
            let f = self.app_filtering@;
            if exists|id: Seq<char>| f.allowed_apps.contains(id) && f.ignored_apps.contains(id) {
                let id = choose|id: Seq<char>| f.allowed_apps.contains(id) && f.ignored_apps.contains(id);
                let k = choose|k: int| 0 <= k < f.allowed_apps.len() && f.allowed_apps[k] == id;
                if first_conflict(f.allowed_apps, f.ignored_apps, f.allowed_apps.len() as int) is None {
                    lemma_first_conflict_none(f.allowed_apps, f.ignored_apps, f.allowed_apps.len() as int, k);
                }
            }
        }
        if self.refresh_interval == 0 {
            return Err(ConfigError::ZeroRefreshInterval);
        }
        if self.scrobble_threshold == 0 || self.scrobble_threshold > 100 {
            return Err(ConfigError::ThresholdOutOfRange);
        }
        match &self.lastfm {
            Some(lastfm) => {
                if lastfm.enabled {
                    if is_blank(&lastfm.api_key) {
                        return Err(ConfigError::LastFmApiKeyMissing);
                    }
                    if is_blank(&lastfm.api_secret) {
                        return Err(ConfigError::LastFmApiSecretMissing);
                    }
                }
            },
            None => {},
        }
        let mut i: usize = 0;
        while i < self.listenbrainz.len()
            invariant
                0 <= i <= self.listenbrainz@.len(),
                first_listenbrainz_problem(self.listenbrainz@, i as int) is None,
                self.refresh_interval != 0,
                !(self.scrobble_threshold == 0 || self.scrobble_threshold > 100),
                !(self.lastfm matches Some(l) && l.enabled && l.api_key@.len() == 0),
                !(self.lastfm matches Some(l) && l.enabled && l.api_secret@.len() == 0),
            decreases self.listenbrainz@.len() - i,
        {
            let lb = &self.listenbrainz[i];
            proof {
                let n = self.listenbrainz@.len() as int;
                assert(first_listenbrainz_problem(self.listenbrainz@, i + 1) == listenbrainz_problem(*lb));
                if listenbrainz_problem(*lb) is Some {
                    lemma_first_problem_stays(self.listenbrainz@, i + 1, n);
                }
            }
            if lb.enabled {
                if is_blank(&lb.token) {
                    return Err(ConfigError::ListenBrainzTokenMissing(lb.name.clone()));
                }
                if is_blank(&lb.api_url) {
                    return Err(ConfigError::ListenBrainzApiUrlMissing(lb.name.clone()));
                }
            }
            i = i + 1;
        }
        let ghost f = self.app_filtering@;
        let mut j: usize = 0;
        while j < self.app_filtering.allowed_apps.len()
            invariant
                0 <= j <= self.app_filtering.allowed_apps@.len(),
                f == self.app_filtering@,
                first_conflict(f.allowed_apps, f.ignored_apps, j as int) is None,
                first_listenbrainz_problem(self.listenbrainz@, self.listenbrainz@.len() as int) is None,
                self.refresh_interval != 0,
                !(self.scrobble_threshold == 0 || self.scrobble_threshold > 100),
                !(self.lastfm matches Some(l) && l.enabled && l.api_key@.len() == 0),
                !(self.lastfm matches Some(l) && l.enabled && l.api_secret@.len() == 0),
            decreases self.app_filtering.allowed_apps@.len() - j,
        {
            let id = &self.app_filtering.allowed_apps[j];
            assert(f.allowed_apps[j as int] == id@);
            proof {
                if f.ignored_apps.contains(id@) {
                    assert(first_conflict(f.allowed_apps, f.ignored_apps, j + 1) == Some(id@));
                    lemma_first_conflict_stays(f.allowed_apps, f.ignored_apps, j + 1, f.allowed_apps.len() as int);
                }
            }
            if list_contains(&self.app_filtering.ignored_apps, id) {
                return Err(ConfigError::AppInBothLists(id.clone()));
            }
            j = j + 1;
        }
        Ok(())
    }
}

/// The list with `x` appended, unless it already holds it.
pub open spec fn with_entry(v: Seq<Seq<char>>, x: Seq<char>) -> Seq<Seq<char>> {
    if v.contains(x) {
        v
    } else {
        v.push(x)
    }
}

/// The filter after the user's choice on `id` has been recorded.
pub open spec fn recorded(f: AppFilteringView, id: Seq<char>, choice: AppChoice) -> AppFilteringView {
    match choice {
        AppChoice::Allow => AppFilteringView { allowed_apps: with_entry(f.allowed_apps, id), ..f },
        AppChoice::Ignore => AppFilteringView { ignored_apps: with_entry(f.ignored_apps, id), ..f },
    }
}

impl AppFilteringConfig {
    /// Records the user's decision on an application, adding it to the allowed
    /// or the ignored list unless it already stands there.
    pub fn record_choice(&mut self, bundle_id: String, choice: AppChoice)
        ensures
            final(self)@ == recorded(old(self)@, bundle_id@, choice),
    {
        match choice {
            AppChoice::Allow => {
                if !list_contains(&self.allowed_apps, &bundle_id) {
                    self.allowed_apps.push(bundle_id);
                    assert(strings_view(self.allowed_apps@) =~= strings_view(old(self).allowed_apps@).push(bundle_id@));
                }
            },
            AppChoice::Ignore => {
                if !list_contains(&self.ignored_apps, &bundle_id) {
                    self.ignored_apps.push(bundle_id);
                    assert(strings_view(self.ignored_apps@) =~= strings_view(old(self).ignored_apps@).push(bundle_id@));
                }
            },
        }
    }
}

impl Default for CleanupConfig {
    fn default() -> (r: Self)
        ensures
            r.enabled,
            strings_view(r.patterns@) == seq![
                "\\s*\\[Explicit\\]"@,
                "\\s*\\[Clean\\]"@,
                "\\s*\\(Explicit\\)"@,
                "\\s*\\(Clean\\)"@,
                "\\s*- Explicit"@,
                "\\s*- Clean"@,
            ],
    {
        let patterns = vec![
            String::from_str("\\s*\\[Explicit\\]"),
            String::from_str("\\s*\\[Clean\\]"),
            String::from_str("\\s*\\(Explicit\\)"),
            String::from_str("\\s*\\(Clean\\)"),
            String::from_str("\\s*- Explicit"),
            String::from_str("\\s*- Clean"),
        ];
        let r = CleanupConfig { enabled: true, patterns };
        assert(strings_view(r.patterns@) =~= seq![
            "\\s*\\[Explicit\\]"@,
            "\\s*\\[Clean\\]"@,
            "\\s*\\(Explicit\\)"@,
            "\\s*\\(Clean\\)"@,
            "\\s*- Explicit"@,
            "\\s*- Clean"@,
        ]);
        r
    }
}

impl Default for AppFilteringConfig {
    fn default() -> (r: Self)
        ensures
            r@ == (AppFilteringView {
                prompt_for_new_apps: true,
                scrobble_unknown: true,
                allowed_apps: Seq::empty(),
                ignored_apps: Seq::empty(),
            }),
    {
        let r = AppFilteringConfig {
            prompt_for_new_apps: true,
            scrobble_unknown: true,
            allowed_apps: Vec::new(),
            ignored_apps: Vec::new(),
        };
        assert(r@.allowed_apps =~= Seq::empty());
        assert(r@.ignored_apps =~= Seq::empty());
        r
    }
}

impl Default for Config {
    /// Polls every 5 seconds and scrobbles at half a track; both services are
    /// present but disabled.
    fn default() -> (r: Self)
        ensures
            r.refresh_interval == 5,
            r.scrobble_threshold == 50,
            r.cleanup.enabled,
            r.app_filtering@.prompt_for_new_apps,
            r.app_filtering@.scrobble_unknown,
            r.app_filtering@.allowed_apps.len() == 0,
            r.app_filtering@.ignored_apps.len() == 0,
            r.lastfm matches Some(l) && !l.enabled && l.api_key@.len() == 0
                && l.api_secret@.len() == 0 && l.session_key@.len() == 0,
            r.listenbrainz@.len() == 1,
            !r.listenbrainz@[0].enabled,
            r.listenbrainz@[0].name@ == "Primary"@,
            r.listenbrainz@[0].token@.len() == 0,
            r.listenbrainz@[0].api_url@ == "https://api.listenbrainz.org"@,
            validation(r) == Ok::<(), ConfigErrorView>(()),
    {
        let r = Config {
            refresh_interval: 5,
            scrobble_threshold: 50,
            cleanup: CleanupConfig::default(),
            app_filtering: AppFilteringConfig::default(),
            lastfm: Some(
                LastFmConfig {
                    enabled: false,
                    api_key: String::new(),
                    api_secret: String::new(),
                    session_key: String::new(),
                },
            ),
            listenbrainz: vec![
                ListenBrainzConfig {
                    enabled: false,
                    name: String::from_str("Primary"),
                    token: String::new(),
                    api_url: String::from_str("https://api.listenbrainz.org"),
                },
            ],
        };
        assert(first_listenbrainz_problem(r.listenbrainz@, 0) is None);
        assert(first_listenbrainz_problem(r.listenbrainz@, 1) is None);
        assert(first_conflict(r.app_filtering@.allowed_apps, r.app_filtering@.ignored_apps, 0) is None);
        r
    }
}

/// Why Last.fm authentication cannot start.
#[derive(Debug, Clone, Copy, PartialEq, Eq, Structural)]
pub enum LastFmSetupError {
    /// The configuration has no Last.fm section.
    NotConfigured,
    /// The API key or the secret is empty.
    MissingCredentials,
}

impl Config {
    /// The API key and secret to authenticate with.
    pub fn lastfm_credentials(&self) -> (r: Result<(String, String), LastFmSetupError>)
        ensures
            match self.lastfm {
                None => r == Err::<(String, String), LastFmSetupError>(LastFmSetupError::NotConfigured),
                Some(l) => if l.api_key@.len() == 0 || l.api_secret@.len() == 0 {
                    r == Err::<(String, String), LastFmSetupError>(LastFmSetupError::MissingCredentials)
                } else {
                    r matches Ok((k, s)) && k@ == l.api_key@ && s@ == l.api_secret@
                },
            },
    {
        match &self.lastfm {
            None => Err(LastFmSetupError::NotConfigured),
            Some(l) => {
                if is_blank(&l.api_key) || is_blank(&l.api_secret) {
                    Err(LastFmSetupError::MissingCredentials)
                } else {
                    Ok((l.api_key.clone(), l.api_secret.clone()))
                }
            },
        }
    }

    /// Stores a new session key and enables Last.fm; without a Last.fm
    /// section nothing changes.
    pub fn set_lastfm_session(&mut self, session_key: String)
        ensures
            final(self).refresh_interval == old(self).refresh_interval,
            final(self).scrobble_threshold == old(self).scrobble_threshold,
            final(self).listenbrainz == old(self).listenbrainz,
            final(self).app_filtering == old(self).app_filtering,
            final(self).cleanup == old(self).cleanup,
            match old(self).lastfm {
                None => final(self).lastfm is None,
                Some(l) => final(self).lastfm matches Some(n) && n.enabled && n.session_key@
                    == session_key@ && n.api_key == l.api_key && n.api_secret == l.api_secret,
            },
    {
        match &mut self.lastfm {
            Some(l) => {
                l.session_key = session_key;
                l.enabled = true;
            },
            None => {},
        }
    }
}

} // verus!
