use vstd::prelude::*;
use crate::decimal::{decimal, decimal_text, digits, digits_text};
use crate::track::{Track, TrackView};

verus! {

/// The lowercase hexadecimal MD5 digest of the text's UTF-8 bytes.
pub uninterp spec fn md5_hex(text: Seq<char>) -> Seq<char>;

/// Relies on `md5::compute` over the text's bytes, printed with `{:x}`: the
/// digest depends on the text alone and is written as 32 hexadecimal digits.
#[verifier::external_body]
fn md5_hex_of(text: &str) -> (r: String)
    ensures
        r@ == md5_hex(text@),
        r@.len() == 32,
{
    format!("{:x}", md5::compute(text.as_bytes()))
}

/// `a` sorts before `b` when compared from position `i` on, character by character.
pub open spec fn less_from(a: Seq<char>, b: Seq<char>, i: int) -> bool
    decreases a.len() - i,
{
    if i >= a.len() {
        i < b.len()
    } else if i >= b.len() {
        false
    } else if a[i] != b[i] {
        (a[i] as u32) < (b[i] as u32)
    } else {
        less_from(a, b, i + 1)
    }
}

/// Lexicographic order by code point, which is also the order of the UTF-8 bytes.
pub open spec fn key_less(a: Seq<char>, b: Seq<char>) -> bool {
    less_from(a, b, 0)
}

proof fn lemma_less_from_transitive(a: Seq<char>, b: Seq<char>, c: Seq<char>, i: int)
    requires
        0 <= i,
        less_from(a, b, i),
        less_from(b, c, i),
    ensures
        less_from(a, c, i),
    decreases a.len() - i,
{
    if i < a.len() && i < b.len() && i < c.len() && a[i] == b[i] && b[i] == c[i] {
        lemma_less_from_transitive(a, b, c, i + 1);
    }
}

proof fn lemma_char_code_injective(c: char, d: char)
    requires
        (c as u32) == (d as u32),
    ensures
        c == d,
{
}

proof fn lemma_less_from_total(a: Seq<char>, b: Seq<char>, i: int)
    requires
        0 <= i <= a.len(),
        i <= b.len(),
        forall|k: int| 0 <= k < i ==> a[k] == b[k],
        !less_from(a, b, i),
        !less_from(b, a, i),
    ensures
        a == b,
    decreases a.len() - i,
{
    if i < a.len() && i < b.len() {
        if a[i] == b[i] {
            lemma_less_from_total(a, b, i + 1);
        } else {
            let (x, y) = (a[i], b[i]);
            if (x as u32) == (y as u32) {
                lemma_char_code_injective(x, y);
            }
        }
    } else {
        assert(a =~= b);
    }
}

/// Exec counterpart of [`key_less`].
pub fn str_less(a: &str, b: &str) -> (r: bool)
    ensures
        r == key_less(a@, b@),
{
    let n = a.unicode_len();
    let m = b.unicode_len();
    let mut i: usize = 0;
    while i < n && i < m && a.get_char(i) == b.get_char(i)
        invariant
            0 <= i <= n,
            i <= m,
            n == a@.len(),
            m == b@.len(),
            key_less(a@, b@) == less_from(a@, b@, i as int),
        decreases n - i,
    {
        i = i + 1;
    }
    if i >= n {
        i < m
    } else if i >= m {
        false
    } else {
        (a.get_char(i) as u32) < (b.get_char(i) as u32)
    }
}

/// Strictly increasing keys: each key appears once, in sorted order.
pub open spec fn sorted_keys(s: Seq<(Seq<char>, Seq<char>)>) -> bool {
    forall|i: int, j: int| 0 <= i < j < s.len() ==> key_less(#[trigger] s[i].0, #[trigger] s[j].0)
}

/// Index of the first entry from `i` on whose key does not sort before `k`.
pub open spec fn first_not_less(s: Seq<(Seq<char>, Seq<char>)>, k: Seq<char>, i: int) -> int
    decreases s.len() - i,
{
    if i >= s.len() {
        s.len() as int
    } else if !key_less(s[i].0, k) {
        i
    } else {
        first_not_less(s, k, i + 1)
    }
}

/// The list after setting `k` to `v`: an existing entry is replaced in place,
/// a new one goes where its key sorts.
pub open spec fn with_param(s: Seq<(Seq<char>, Seq<char>)>, k: Seq<char>, v: Seq<char>) -> Seq<
    (Seq<char>, Seq<char>),
> {
    let i = first_not_less(s, k, 0);
    if i < s.len() && s[i].0 == k {
        s.update(i, (k, v))
    } else {
        s.insert(i, (k, v))
    }
}

/// The request parameters, keyed by name, in the sorted order that signing needs.
pub struct Params {
    entries: Vec<(String, String)>,
}

impl View for Params {
    type V = Seq<(Seq<char>, Seq<char>)>;

    closed spec fn view(&self) -> Seq<(Seq<char>, Seq<char>)> {
        self.entries@.map_values(|e: (String, String)| (e.0@, e.1@))
    }
}

/// The text that is hashed: every name followed by its value, in order, then the secret.
pub open spec fn signature_base(s: Seq<(Seq<char>, Seq<char>)>, secret: Seq<char>) -> Seq<char>
    decreases s.len(),
{
    if s.len() == 0 {
        secret
    } else {
        s[0].0 + s[0].1 + signature_base(s.drop_first(), secret)
    }
}

/// Concatenation of names and values of the first `n` entries.
pub open spec fn joined(s: Seq<(Seq<char>, Seq<char>)>, n: int) -> Seq<char>
    decreases n,
{
    if n <= 0 {
        Seq::empty()
    } else {
        joined(s, n - 1) + s[n - 1].0 + s[n - 1].1
    }
}

proof fn lemma_joined_base(s: Seq<(Seq<char>, Seq<char>)>, secret: Seq<char>)
    ensures
        joined(s, s.len() as int) + secret == signature_base(s, secret),
    decreases s.len(),
{
    if s.len() > 0 {
        let t = s.drop_first();
        lemma_joined_base(t, secret);
        lemma_joined_shift(s, s.len() as int);
        assert(joined(s, s.len() as int) =~= s[0].0 + s[0].1 + joined(t, t.len() as int));
    }
}

proof fn lemma_joined_shift(s: Seq<(Seq<char>, Seq<char>)>, n: int)
    requires
        1 <= n <= s.len(),
    ensures
        joined(s, n) =~= s[0].0 + s[0].1 + joined(s.drop_first(), n - 1),
    decreases n,
{
    let t = s.drop_first();
    if n > 1 {
        lemma_joined_shift(s, n - 1);
        assert(t[n - 2] == s[n - 1]);
        assert(joined(t, n - 1) == joined(t, n - 2) + t[n - 2].0 + t[n - 2].1);
        assert(joined(s, n) == joined(s, n - 1) + s[n - 1].0 + s[n - 1].1);
    } else {
        assert(joined(t, 0) == Seq::<char>::empty());
        assert(joined(s, 0) == Seq::<char>::empty());
        assert(joined(s, 1) == joined(s, 0) + s[0].0 + s[0].1);
    }
}

impl Params {
    /// No parameters.
    pub fn new() -> (r: Self)
        ensures
            r@ == Seq::<(Seq<char>, Seq<char>)>::empty(),
            sorted_keys(r@),
    {
        let r = Params { entries: Vec::new() };
        assert(r@ =~= Seq::<(Seq<char>, Seq<char>)>::empty());
        r
    }

    /// The entries, sorted by name.
    pub fn entries(&self) -> (r: &Vec<(String, String)>)
        ensures
            r@.map_values(|e: (String, String)| (e.0@, e.1@)) == self@,
    {
        &self.entries
    }

    /// Sets the parameter `key` to `value`.
    pub fn insert(&mut self, key: String, value: String)
        requires
            sorted_keys(old(self)@),
        ensures
            final(self)@ == with_param(old(self)@, key@, value@),
            sorted_keys(final(self)@),
    {
        let ghost s = self@;
        let mut i: usize = 0;
        while i < self.entries.len() && str_less(self.entries[i].0.as_str(), key.as_str())
            invariant
                0 <= i <= self.entries@.len(),
                s == self@,
                sorted_keys(s),
                first_not_less(s, key@, 0) == first_not_less(s, key@, i as int),
                forall|j: int| 0 <= j < i ==> key_less(#[trigger] s[j].0, key@),
            decreases self.entries@.len() - i,
        {
            assert(s[i as int].0 == self.entries@[i as int].0@);
            i = i + 1;
        }
        proof {
            if i < s.len() {
                assert(s[i as int].0 == self.entries@[i as int].0@);
            }
        }
        if i < self.entries.len() && self.entries[i].0 == key {
            assert(s[i as int].0 == key@);
            self.entries.set(i, (key, value));
            proof {
                assert(self@ =~= s.update(i as int, (key@, value@)));
                assert forall|a: int, b: int| 0 <= a < b < self@.len() implies key_less(
                    #[trigger] self@[a].0,
                    #[trigger] self@[b].0,
                ) by {
                    assert(self@[a].0 == s[a].0);
                    assert(self@[b].0 == s[b].0);
                }
            }
        } else {
            let ghost k = key@;
            proof {
                if i < s.len() {
                    assert(s[i as int].0 != k);
                    assert(!key_less(s[i as int].0, k));
                    if !key_less(k, s[i as int].0) {
                        lemma_less_from_total(k, s[i as int].0, 0);
                    }
                }
            }
            self.entries.insert(i, (key, value));
            proof {
                let t = s.insert(i as int, (k, value@));
                assert(self@ =~= t);
                assert forall|a: int, b: int| 0 <= a < b < t.len() implies key_less(
                    #[trigger] t[a].0,
                    #[trigger] t[b].0,
                ) by {
                    if b < i {
                        assert(t[a] == s[a] && t[b] == s[b]);
                    } else if b == i {
                        assert(t[a] == s[a]);
                    } else if a < i {
                        assert(t[a] == s[a] && t[b] == s[b - 1]);
                        assert(key_less(s[a].0, k));
                        if b - 1 == i {
                            lemma_less_from_transitive(s[a].0, k, s[b - 1].0, 0);
                        } else {
                            assert(key_less(s[i as int].0, s[b - 1].0));
                            lemma_less_from_transitive(k, s[i as int].0, s[b - 1].0, 0);
                            lemma_less_from_transitive(s[a].0, k, s[b - 1].0, 0);
                        }
                    } else if a == i {
                        assert(t[b] == s[b - 1]);
                        if b - 1 > i {
                            assert(key_less(s[i as int].0, s[b - 1].0));
                            lemma_less_from_transitive(k, s[i as int].0, s[b - 1].0, 0);
                        }
                    } else {
                        assert(t[a] == s[a - 1] && t[b] == s[b - 1]);
                    }
                }
            }
        }
    }

    /// The value of parameter `key`, if set.
    pub fn get(&self, key: &String) -> (r: Option<String>)
        ensures
            match r {
                Some(v) => exists|i: int| 0 <= i < self@.len() && self@[i] == (key@, v@),
                None => forall|i: int| 0 <= i < self@.len() ==> self@[i].0 != key@,
            },
    {
        let mut i: usize = 0;
        while i < self.entries.len()
            invariant
                0 <= i <= self@.len(),
                self@.len() == self.entries@.len(),
                forall|j: int| 0 <= j < i ==> self@[j].0 != key@,
            decreases self.entries@.len() - i,
        {
            assert(self@[i as int] == (self.entries@[i as int].0@, self.entries@[i as int].1@));
            if self.entries[i].0 == *key {
                return Some(self.entries[i].1.clone());
            }
            i = i + 1;
        }
        None
    }

    /// The text that is hashed for the signature.
    pub fn signature_base(&self, api_secret: &str) -> (r: String)
        ensures
            r@ == signature_base(self@, api_secret@),
    {
        let mut text = String::new();
        let mut i: usize = 0;
        while i < self.entries.len()
            invariant
                0 <= i <= self@.len(),
                self@.len() == self.entries@.len(),
                text@ == joined(self@, i as int),
            decreases self.entries@.len() - i,
        {
            assert(self@[i as int] == (self.entries@[i as int].0@, self.entries@[i as int].1@));
            text.append(self.entries[i].0.as_str());
            text.append(self.entries[i].1.as_str());
            i = i + 1;
        }
        text.append(api_secret);
        proof {
            lemma_joined_base(self@, api_secret@);
        }
        text
    }

    /// The API signature: the MD5 digest of every name and value in sorted
    /// order, followed by the shared secret.
    pub fn generate_signature(&self, api_secret: &str) -> (r: String)
        ensures
            r@ == md5_hex(signature_base(self@, api_secret@)),
            r@.len() == 32,
    {
        let base = self.signature_base(api_secret);
        md5_hex_of(base.as_str())
    }

    /// Adds the key, the session and the signature over all of them: the
    /// parameters of a signed call.
    pub fn sign(&mut self, api_key: &str, session_key: &str, api_secret: &str)
        requires
            sorted_keys(old(self)@),
        ensures
            sorted_keys(final(self)@),
            ({
                let with_auth = with_param(
                    with_param(old(self)@, "api_key"@, api_key@),
                    "sk"@,
                    session_key@,
                );
                final(self)@ == with_param(
                    with_auth,
                    "api_sig"@,
                    md5_hex(signature_base(with_auth, api_secret@)),
                )
            }),
    {
        self.insert(String::from_str("api_key"), String::from_str(api_key));
        self.insert(String::from_str("sk"), String::from_str(session_key));
        let signature = self.generate_signature(api_secret);
        self.insert(String::from_str("api_sig"), signature);
    }
}

/// The parameters that describe a track: artist and title, with album and
/// duration when known.
pub open spec fn track_params(
    base: Seq<(Seq<char>, Seq<char>)>,
    t: TrackView,
) -> Seq<(Seq<char>, Seq<char>)> {
    let s = with_param(with_param(base, "artist"@, t.artist), "track"@, t.title);
    let s = match t.album {
        Some(a) => with_param(s, "album"@, a),
        None => s,
    };
    match t.duration {
        Some(d) => with_param(s, "duration"@, digits(d as nat)),
        None => s,
    }
}

fn add_track(params: &mut Params, track: &Track)
    requires
        sorted_keys(old(params)@),
    ensures
        sorted_keys(final(params)@),
        final(params)@ == track_params(old(params)@, track@),
{
    params.insert(String::from_str("artist"), track.artist.clone());
    params.insert(String::from_str("track"), track.title.clone());
    match &track.album {
        Some(album) => params.insert(String::from_str("album"), album.clone()),
        None => {},
    }
    match track.duration {
        Some(d) => params.insert(String::from_str("duration"), digits_text(d)),
        None => {},
    }
}

fn method_params(method: &str) -> (r: Params)
    ensures
        r@ == with_param(Seq::empty(), "method"@, method@),
        sorted_keys(r@),
{
    let mut p = Params::new();
    p.insert(String::from_str("method"), String::from_str(method));
    p
}

/// The unsigned parameters of a now-playing update.
pub open spec fn now_playing_spec(t: TrackView) -> Seq<(Seq<char>, Seq<char>)> {
    track_params(with_param(Seq::empty(), "method"@, "track.updateNowPlaying"@), t)
}

/// The unsigned parameters of a scrobble of a listen that began at `timestamp`.
pub open spec fn scrobble_spec(t: TrackView, timestamp: i64) -> Seq<(Seq<char>, Seq<char>)> {
    with_param(
        track_params(with_param(Seq::empty(), "method"@, "track.scrobble"@), t),
        "timestamp"@,
        decimal(timestamp as int),
    )
}

/// The parameters of a signed call: key, session, and the signature over all of them.
pub open spec fn signed_spec(
    s: Seq<(Seq<char>, Seq<char>)>,
    api_key: Seq<char>,
    session_key: Seq<char>,
    api_secret: Seq<char>,
) -> Seq<(Seq<char>, Seq<char>)> {
    let with_auth = with_param(with_param(s, "api_key"@, api_key), "sk"@, session_key);
    with_param(with_auth, "api_sig"@, md5_hex(signature_base(with_auth, api_secret)))
}

/// The parameters of a request for an authentication token.
pub open spec fn token_request_spec(api_key: Seq<char>, api_secret: Seq<char>) -> Seq<
    (Seq<char>, Seq<char>),
> {
    let s = with_param(with_param(Seq::empty(), "method"@, "auth.getToken"@), "api_key"@, api_key);
    with_param(
        with_param(s, "api_sig"@, md5_hex(signature_base(s, api_secret))),
        "format"@,
        "json"@,
    )
}

/// The parameters of a request that trades a token for a session key.
pub open spec fn session_request_spec(api_key: Seq<char>, api_secret: Seq<char>, token: Seq<char>) -> Seq<
    (Seq<char>, Seq<char>),
> {
    let s = with_param(
        with_param(with_param(Seq::empty(), "method"@, "auth.getSession"@), "api_key"@, api_key),
        "token"@,
        token,
    );
    with_param(
        with_param(s, "api_sig"@, md5_hex(signature_base(s, api_secret))),
        "format"@,
        "json"@,
    )
}

/// The parameters of a request for an authentication token.
pub fn token_request_params(api_key: &str, api_secret: &str) -> (r: Params)
    ensures
        r@ == token_request_spec(api_key@, api_secret@),
        sorted_keys(r@),
{
    let mut p = method_params("auth.getToken");
    p.insert(String::from_str("api_key"), String::from_str(api_key));
    let signature = p.generate_signature(api_secret);
    p.insert(String::from_str("api_sig"), signature);
    p.insert(String::from_str("format"), String::from_str("json"));
    p
}

/// The parameters of a request that trades `token` for a session key.
pub fn session_request_params(api_key: &str, api_secret: &str, token: &str) -> (r: Params)
    ensures
        r@ == session_request_spec(api_key@, api_secret@, token@),
        sorted_keys(r@),
{
    let mut p = method_params("auth.getSession");
    p.insert(String::from_str("api_key"), String::from_str(api_key));
    p.insert(String::from_str("token"), String::from_str(token));
    let signature = p.generate_signature(api_secret);
    p.insert(String::from_str("api_sig"), signature);
    p.insert(String::from_str("format"), String::from_str("json"));
    p
}

/// True when `pattern` occurs in `text` at position `i`.
pub open spec fn occurs_at(text: Seq<char>, pattern: Seq<char>, i: int) -> bool {
    0 <= i && i + pattern.len() <= text.len() && text.subrange(i, i + pattern.len()) == pattern
}

/// Whether `pattern` occurs in `text`.
pub fn contains_text(text: &str, pattern: &str) -> (r: bool)
    ensures
        r == exists|i: int| occurs_at(text@, pattern@, i),
{
    let n = text.unicode_len();
    let m = pattern.unicode_len();
    if m > n {
        assert forall|i: int| !occurs_at(text@, pattern@, i) by {}
        return false;
    }
    let mut i: usize = 0;
    while i <= n - m
        invariant
            n == text@.len(),
            m == pattern@.len(),
            m <= n,
            0 <= i <= n - m + 1,
            forall|j: int| 0 <= j < i ==> !occurs_at(text@, pattern@, j),
        decreases n - m + 1 - i,
    {
        let mut k: usize = 0;
        while k < m && text.get_char(i + k) == pattern.get_char(k)
            invariant
                n == text@.len(),
                m == pattern@.len(),
                i + m <= n,
                0 <= k <= m,
                forall|q: int| 0 <= q < k ==> text@[i + q] == pattern@[q],
            decreases m - k,
        {
            k = k + 1;
        }
        if k == m {
            assert(text@.subrange(i as int, i + m) =~= pattern@);
            assert(occurs_at(text@, pattern@, i as int));
            return true;
        }
        assert(!occurs_at(text@, pattern@, i as int)) by {
            if occurs_at(text@, pattern@, i as int) {
                assert(text@.subrange(i as int, i + m)[k as int] == pattern@[k as int]);
            }
        }
        i = i + 1;
    }
    assert forall|j: int| !occurs_at(text@, pattern@, j) by {
        if 0 <= j && j + m <= n {
            assert(j < i);
        }
    }
    false
}

/// Whether a Last.fm reply reports a failed call.
pub fn is_failed_response(body: &str) -> (r: bool)
    ensures
        r == exists|i: int| occurs_at(body@, "<lfm status=\"failed\">"@, i),
{
    contains_text(body, "<lfm status=\"failed\">")
}

/// Credentials of a Last.fm account, and the requests made on its behalf.
pub struct LastFmScrobbler {
    pub api_key: String,
    pub api_secret: String,
    pub session_key: String,
}

impl LastFmScrobbler {
    pub fn new(api_key: String, api_secret: String, session_key: String) -> (r: Self)
        ensures
            r.api_key@ == api_key@,
            r.api_secret@ == api_secret@,
            r.session_key@ == session_key@,
    {
        LastFmScrobbler { api_key, api_secret, session_key }
    }

    /// The signature of a set of parameters under this account's secret.
    pub fn generate_signature(&self, params: &Params) -> (r: String)
        ensures
            r@ == md5_hex(signature_base(params@, self.api_secret@)),
    {
        params.generate_signature(self.api_secret.as_str())
    }

    /// The signed parameters of a now-playing update.
    pub fn now_playing_params(&self, track: &Track) -> (r: Params)
        ensures
            r@ == signed_spec(
                now_playing_spec(track@),
                self.api_key@,
                self.session_key@,
                self.api_secret@,
            ),
            sorted_keys(r@),
    {
        let mut p = method_params("track.updateNowPlaying");
        add_track(&mut p, track);
        p.sign(self.api_key.as_str(), self.session_key.as_str(), self.api_secret.as_str());
        p
    }

    /// The signed parameters of a scrobble of a listen that began at `timestamp`.
    pub fn scrobble_params(&self, track: &Track, timestamp: i64) -> (r: Params)
        ensures
            r@ == signed_spec(
                scrobble_spec(track@, timestamp),
                self.api_key@,
                self.session_key@,
                self.api_secret@,
            ),
            sorted_keys(r@),
    {
        let mut p = method_params("track.scrobble");
        add_track(&mut p, track);
        p.insert(String::from_str("timestamp"), decimal_text(timestamp));
        p.sign(self.api_key.as_str(), self.session_key.as_str(), self.api_secret.as_str());
        p
    }
}

} // verus!
