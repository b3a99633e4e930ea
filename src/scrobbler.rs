use vstd::prelude::*;
use crate::config::{Config, ListenBrainzConfig};
use crate::lastfm::LastFmScrobbler;
use crate::listenbrainz::ListenBrainzScrobbler;

verus! {

/// A configured listen-tracking service.
pub enum Service {
    LastFm(LastFmScrobbler),
    ListenBrainz(ListenBrainzScrobbler),
}

pub ghost enum ServiceView {
    LastFm { api_key: Seq<char>, api_secret: Seq<char>, session_key: Seq<char> },
    ListenBrainz { name: Seq<char>, token: Seq<char>, api_url: Seq<char> },
}

impl View for Service {
    type V = ServiceView;

    open spec fn view(&self) -> ServiceView {
        match self {
            Service::LastFm(s) => ServiceView::LastFm {
                api_key: s.api_key@,
                api_secret: s.api_secret@,
                session_key: s.session_key@,
            },
            Service::ListenBrainz(s) => ServiceView::ListenBrainz {
                name: s.name@,
                token: s.token@,
                api_url: s.api_url@,
            },
        }
    }
}

impl Service {
    /// A Last.fm account with its session key.
    pub fn lastfm(api_key: String, api_secret: String, session_key: String) -> (r: Self)
        ensures
            r@ == (ServiceView::LastFm {
                api_key: api_key@,
                api_secret: api_secret@,
                session_key: session_key@,
            }),
    {
        Service::LastFm(LastFmScrobbler::new(api_key, api_secret, session_key))
    }

    /// A ListenBrainz instance.
    pub fn listenbrainz(name: String, token: String, api_url: String) -> (r: Self)
        ensures
            r@ == (ServiceView::ListenBrainz { name: name@, token: token@, api_url: api_url@ }),
    {
        Service::ListenBrainz(ListenBrainzScrobbler::new(name, token, api_url))
    }
}

/// The enabled ListenBrainz instances among the first `n`, in order.
pub open spec fn listenbrainz_services(lbs: Seq<ListenBrainzConfig>, n: int) -> Seq<ServiceView>
    decreases n,
{
    if n <= 0 {
        Seq::empty()
    } else {
        let rest = listenbrainz_services(lbs, n - 1);
        let lb = lbs[n - 1];
        if lb.enabled {
            rest.push(ServiceView::ListenBrainz { name: lb.name@, token: lb.token@, api_url: lb.api_url@ })
        } else {
            rest
        }
    }
}

/// The services to report to: Last.fm first, when it is enabled and has a
/// session key, then each enabled ListenBrainz instance.
pub open spec fn configured_spec(c: Config) -> Seq<ServiceView> {
    let lastfm = match c.lastfm {
        Some(l) => if l.enabled && l.session_key@.len() > 0 {
            seq![
                ServiceView::LastFm {
                    api_key: l.api_key@,
                    api_secret: l.api_secret@,
                    session_key: l.session_key@,
                },
            ]
        } else {
            Seq::empty()
        },
        None => Seq::empty(),
    };
    lastfm + listenbrainz_services(c.listenbrainz@, c.listenbrainz@.len() as int)
}

/// Builds the services that the configuration enables.
pub fn configured_services(config: &Config) -> (r: Vec<Service>)
    ensures
        r@.map_values(|s: Service| s@) == configured_spec(*config),
{
    let mut out: Vec<Service> = Vec::new();
    match &config.lastfm {
        Some(l) => {
            if l.enabled && l.session_key.as_str().unicode_len() > 0 {
                out.push(Service::lastfm(l.api_key.clone(), l.api_secret.clone(), l.session_key.clone()));
            }
        },
        None => {},
    }
    let ghost head = out@.map_values(|s: Service| s@);
    assert(head + listenbrainz_services(config.listenbrainz@, 0) =~= head);
    let mut i: usize = 0;
    while i < config.listenbrainz.len()
        invariant
            0 <= i <= config.listenbrainz@.len(),
            out@.map_values(|s: Service| s@) == head + listenbrainz_services(config.listenbrainz@, i as int),
            head + listenbrainz_services(config.listenbrainz@, config.listenbrainz@.len() as int)
                == configured_spec(*config),
        decreases config.listenbrainz@.len() - i,
    {
        let lb = &config.listenbrainz[i];
        assert(*lb == config.listenbrainz@[i as int]);
        if lb.enabled {
            let service = Service::listenbrainz(lb.name.clone(), lb.token.clone(), lb.api_url.clone());
            let ghost before = out@.map_values(|s: Service| s@);
            let ghost added = service@;
            out.push(service);
            assert(out@.map_values(|s: Service| s@) =~= before.push(added));
            assert(out@.map_values(|s: Service| s@) =~= head + listenbrainz_services(
                config.listenbrainz@,
                i + 1,
            ));
        } else {
            assert(listenbrainz_services(config.listenbrainz@, i + 1) == listenbrainz_services(
                config.listenbrainz@,
                i as int,
            ));
        }
        i = i + 1;
    }
    out
}

} // verus!
