use vstd::prelude::*;
use crate::config::{CleanupConfig, strings_view};

verus! {

/// `regex::Regex`, opaque here: a compiled pattern is only ever built by `compile`.
#[verifier::external_type_specification]
#[verifier::external_body]
pub struct ExRegex(regex::Regex);

/// `regex::Error`, the reason a pattern does not compile; it is only discarded.
#[verifier::external_type_specification]
#[verifier::external_body]
pub struct ExRegexError(regex::Error);

/// Whether `regex::Regex::new` accepts the pattern.
pub uninterp spec fn pattern_compiles(source: Seq<char>) -> bool;

/// The text with every match of the compiled pattern removed.
pub uninterp spec fn without_matches(source: Seq<char>, text: Seq<char>) -> Seq<char>;

/// Whitespace in the sense of `char::is_whitespace` (the Unicode White_Space property).
pub open spec fn is_space(c: char) -> bool {
    let u = c as u32;
    ||| 0x09 <= u <= 0x0D
    ||| u == 0x20
    ||| u == 0x85
    ||| u == 0xA0
    ||| u == 0x1680
    ||| 0x2000 <= u <= 0x200A
    ||| u == 0x2028
    ||| u == 0x2029
    ||| u == 0x202F
    ||| u == 0x205F
    ||| u == 0x3000
}

pub open spec fn trim_start(s: Seq<char>) -> Seq<char>
    decreases s.len(),
{
    if s.len() > 0 && is_space(s[0]) {
        trim_start(s.drop_first())
    } else {
        s
    }
}

pub open spec fn trim_end(s: Seq<char>) -> Seq<char>
    decreases s.len(),
{
    if s.len() > 0 && is_space(s.last()) {
        trim_end(s.drop_last())
    } else {
        s
    }
}

/// The text without leading and trailing whitespace.
pub open spec fn trimmed(s: Seq<char>) -> Seq<char> {
    trim_end(trim_start(s))
}

/// The patterns that compile, in their order.
pub open spec fn compiled_sources(ps: Seq<Seq<char>>) -> Seq<Seq<char>>
    decreases ps.len(),
{
    if ps.len() == 0 {
        Seq::empty()
    } else {
        let rest = compiled_sources(ps.drop_last());
        if pattern_compiles(ps.last()) {
            rest.push(ps.last())
        } else {
            rest
        }
    }
}

/// Removes the matches of each pattern in turn, the first pattern first.
pub open spec fn strip_all(ps: Seq<Seq<char>>, text: Seq<char>) -> Seq<char>
    decreases ps.len(),
{
    if ps.len() == 0 {
        text
    } else {
        without_matches(ps.last(), strip_all(ps.drop_last(), text))
    }
}

/// Mathematical model of a [`TextCleaner`].
pub ghost struct TextCleanerView {
    pub enabled: bool,
    /// The sources of the compiled patterns.
    pub patterns: Seq<Seq<char>>,
}

/// What cleaning does to a text.
pub open spec fn clean_spec(c: TextCleanerView, text: Seq<char>) -> Seq<char> {
    if c.enabled {
        trimmed(strip_all(c.patterns, text))
    } else {
        text
    }
}

pub open spec fn clean_opt_spec(c: TextCleanerView, text: Option<Seq<char>>) -> Option<Seq<char>> {
    match text {
        Some(t) => Some(clean_spec(c, t)),
        None => None,
    }
}

/// A regular expression together with the source it was compiled from.
pub struct Pattern {
    source: String,
    compiled: regex::Regex,
}

impl View for Pattern {
    type V = Seq<char>;

    closed spec fn view(&self) -> Seq<char> {
        self.source@
    }
}

/// Relies on `regex::Regex::new`: it succeeds exactly on the patterns it accepts.
/// The returned pattern keeps the source it was compiled from.
#[verifier::external_body]
fn compile(source: &str) -> (r: Result<Pattern, regex::Error>)
    ensures
        r is Ok <==> pattern_compiles(source@),
        r matches Ok(p) ==> p@ == source@,
{
    match regex::Regex::new(source) {
        Ok(compiled) => Ok(Pattern { source: source.to_string(), compiled }),
        Err(e) => Err(e),
    }
}

/// Relies on `regex::Regex::replace_all` with an empty replacement: every match
/// of the pattern is removed, and the result depends on the pattern and the text alone.
#[verifier::external_body]
fn remove_matches(p: &Pattern, text: &str) -> (r: String)
    ensures
        r@ == without_matches(p@, text@),
{
    p.compiled.replace_all(text, "").into_owned()
}

/// Exec counterpart of [`is_space`].
pub fn is_space_char(c: char) -> (r: bool)
    ensures
        r == is_space(c),
{
    let u = c as u32;
    (0x09 <= u && u <= 0x0D) || u == 0x20 || u == 0x85 || u == 0xA0 || u == 0x1680 || (0x2000
        <= u && u <= 0x200A) || u == 0x2028 || u == 0x2029 || u == 0x202F || u == 0x205F || u
        == 0x3000
}

proof fn lemma_trim_start_skip(s: Seq<char>, i: int)
    requires
        0 <= i <= s.len(),
        forall|k: int| 0 <= k < i ==> is_space(#[trigger] s[k]),
    ensures
        trim_start(s) == trim_start(s.subrange(i, s.len() as int)),
    decreases i,
{
    if i > 0 {
        let t = s.drop_first();
        assert forall|k: int| 0 <= k < i - 1 implies is_space(#[trigger] t[k]) by {
            assert(t[k] == s[k + 1]);
        }
        lemma_trim_start_skip(t, i - 1);
        assert(t.subrange(i - 1, t.len() as int) =~= s.subrange(i, s.len() as int));
    } else {
        assert(s.subrange(0, s.len() as int) =~= s);
    }
}

proof fn lemma_trim_end_skip(s: Seq<char>, j: int)
    requires
        0 <= j <= s.len(),
        forall|k: int| j <= k < s.len() ==> is_space(#[trigger] s[k]),
    ensures
        trim_end(s) == trim_end(s.subrange(0, j)),
    decreases s.len() - j,
{
    if j < s.len() {
        let t = s.drop_last();
        assert forall|k: int| j <= k < t.len() implies is_space(#[trigger] t[k]) by {
            assert(t[k] == s[k]);
        }
        lemma_trim_end_skip(t, j);
        assert(t.subrange(0, j) =~= s.subrange(0, j));
    } else {
        assert(s.subrange(0, j) =~= s);
    }
}

/// `trim_end` keeps a prefix of its argument.
proof fn lemma_trim_end_prefix(s: Seq<char>)
    ensures
        trim_end(s).len() <= s.len(),
        trim_end(s) =~= s.subrange(0, trim_end(s).len() as int),
    decreases s.len(),
{
    if s.len() > 0 && is_space(s.last()) {
        lemma_trim_end_prefix(s.drop_last());
    }
}

proof fn lemma_trim_end_idempotent(s: Seq<char>)
    ensures
        trim_end(trim_end(s)) == trim_end(s),
    decreases s.len(),
{
    if s.len() > 0 && is_space(s.last()) {
        lemma_trim_end_idempotent(s.drop_last());
    }
}

/// Trimming twice trims once.
pub proof fn lemma_trimmed_idempotent(s: Seq<char>)
    ensures
        trimmed(trimmed(s)) == trimmed(s),
{
    let a = trim_start(s);
    let b = trim_end(a);
    lemma_trim_start_result(s);
    lemma_trim_end_prefix(a);
    if b.len() > 0 {
        assert(b[0] == a[0]);
    }
    assert(trim_start(b) == b);
    lemma_trim_end_idempotent(a);
}

proof fn lemma_trim_start_result(s: Seq<char>)
    ensures
        trim_start(s).len() == 0 || !is_space(trim_start(s)[0]),
    decreases s.len(),
{
    if s.len() > 0 && is_space(s[0]) {
        lemma_trim_start_result(s.drop_first());
    }
}

/// Removes leading and trailing whitespace.
pub fn trim(text: &str) -> (r: String)
    ensures
        r@ == trimmed(text@),
{
    let n = text.unicode_len();
    let mut i: usize = 0;
    while i < n && is_space_char(text.get_char(i))
        invariant
            0 <= i <= n,
            n == text@.len(),
            forall|k: int| 0 <= k < i ==> is_space(#[trigger] text@[k]),
        decreases n - i,
    {
        i = i + 1;
    }
    proof {
        lemma_trim_start_skip(text@, i as int);
        if i < n {
            assert(trim_start(text@.subrange(i as int, n as int)) == text@.subrange(i as int, n as int));
        } else {
            assert(text@.subrange(i as int, n as int).len() == 0);
        }
    }
    let ghost rest = text@.subrange(i as int, n as int);
    let mut j: usize = n;
    while j > i && is_space_char(text.get_char(j - 1))
        invariant
            i <= j <= n,
            n == text@.len(),
            rest == text@.subrange(i as int, n as int),
            forall|k: int| j <= k < n ==> is_space(#[trigger] text@[k]),
        decreases j,
    {
        j = j - 1;
    }
    proof {
        assert forall|k: int| j - i <= k < rest.len() implies is_space(#[trigger] rest[k]) by {
            assert(rest[k] == text@[k + i]);
        }
        lemma_trim_end_skip(rest, j - i);
        let kept = rest.subrange(0, j - i);
        assert(kept =~= text@.subrange(i as int, j as int));
        if j > i {
            assert(kept.last() == text@[j - 1]);
        }
        assert(trim_end(kept) == kept);
    }
    String::from_str(text.substring_char(i, j))
}

/// Lexical cleanup of track, artist and album names.
pub struct TextCleaner {
    enabled: bool,
    patterns: Vec<Pattern>,
}

impl View for TextCleaner {
    type V = TextCleanerView;

    closed spec fn view(&self) -> TextCleanerView {
        TextCleanerView { enabled: self.enabled, patterns: self.patterns@.map_values(|p: Pattern| p@) }
    }
}

impl TextCleaner {
    /// Builds a cleaner from its configuration; patterns that do not compile are skipped.
    pub fn new(config: &CleanupConfig) -> (r: Self)
        ensures
            r@.enabled == config.enabled,
            r@.patterns == (if config.enabled {
                compiled_sources(strings_view(config.patterns@))
            } else {
                Seq::empty()
            }),
    {
        let mut patterns: Vec<Pattern> = Vec::new();
        if config.enabled {
            let ghost srcs = strings_view(config.patterns@);
            let mut i: usize = 0;
            while i < config.patterns.len()
                invariant
                    0 <= i <= config.patterns@.len(),
                    srcs == strings_view(config.patterns@),
                    patterns@.map_values(|p: Pattern| p@) == compiled_sources(srcs.subrange(0, i as int)),
                decreases config.patterns@.len() - i,
            {
                let ghost prefix = srcs.subrange(0, i as int + 1);
                assert(prefix.drop_last() =~= srcs.subrange(0, i as int));
                assert(prefix.last() == config.patterns@[i as int]@);
                match compile(config.patterns[i].as_str()) {
                    Ok(p) => {
                        patterns.push(p);
                        assert(patterns@.map_values(|p: Pattern| p@) =~= compiled_sources(prefix));
                    },
                    Err(_) => {},
                }
                i = i + 1;
            }
            assert(srcs.subrange(0, config.patterns@.len() as int) =~= srcs);
        }
        let r = TextCleaner { enabled: config.enabled, patterns };
        assert(r@.patterns =~= (if config.enabled {
            compiled_sources(strings_view(config.patterns@))
        } else {
            Seq::empty()
        }));
        r
    }

    /// Removes every configured pattern from the text, then trims it;
    /// a disabled cleaner hands the text back unchanged.
    pub fn clean(&self, text: &str) -> (r: String)
        ensures
            r@ == clean_spec(self@, text@),
    {
        if !self.enabled {
            return String::from_str(text);
        }
        let ghost ps = self@.patterns;
        let mut result = String::from_str(text);
        let mut i: usize = 0;
        while i < self.patterns.len()
            invariant
                0 <= i <= self.patterns@.len(),
                ps == self@.patterns,
                ps == self.patterns@.map_values(|p: Pattern| p@),
                result@ == strip_all(ps.subrange(0, i as int), text@),
            decreases self.patterns@.len() - i,
        {
            let ghost prefix = ps.subrange(0, i as int + 1);
            assert(prefix.drop_last() =~= ps.subrange(0, i as int));
            assert(prefix.last() == self.patterns@[i as int]@);
            result = remove_matches(&self.patterns[i], result.as_str());
            i = i + 1;
        }
        assert(ps.subrange(0, ps.len() as int) =~= ps);
        trim(result.as_str())
    }

    /// Cleans an optional text.
    pub fn clean_option(&self, text: Option<String>) -> (r: Option<String>)
        ensures
            crate::track::opt_chars(r) == clean_opt_spec(self@, crate::track::opt_chars(text)),
    {
        match text {
            Some(s) => Some(self.clean(s.as_str())),
            None => None,
        }
    }
}

proof fn lemma_strip_all_fixed(ps: Seq<Seq<char>>, u: Seq<char>)
    requires
        forall|i: int| 0 <= i < ps.len() ==> without_matches(#[trigger] ps[i], u) == u,
    ensures
        strip_all(ps, u) == u,
    decreases ps.len(),
{
    if ps.len() > 0 {
        let rest = ps.drop_last();
        assert forall|i: int| 0 <= i < rest.len() implies without_matches(#[trigger] rest[i], u) == u by {
            assert(rest[i] == ps[i]);
        }
        lemma_strip_all_fixed(rest, u);
        assert(without_matches(ps[ps.len() - 1], u) == u);
    }
}

/// Cleaning a cleaned text changes nothing, as long as no pattern still finds
/// a match in the cleaned text. (A pattern whose removal joins two halves of a
/// new match, such as `\[x\]` on `[[x]x]`, leaves such a match behind.)
pub proof fn lemma_clean_idempotent(c: TextCleanerView, t: Seq<char>)
    requires
        forall|i: int|
            0 <= i < c.patterns.len() ==> without_matches(#[trigger] c.patterns[i], clean_spec(c, t))
                == clean_spec(c, t),
    ensures
        clean_spec(c, clean_spec(c, t)) == clean_spec(c, t),
{
    if c.enabled {
        let u = clean_spec(c, t);
        lemma_strip_all_fixed(c.patterns, u);
        lemma_trimmed_idempotent(strip_all(c.patterns, t));
    }
}

} // verus!
