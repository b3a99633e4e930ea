use vstd::prelude::*;

verus! {

/// The characters of an optional text field.
pub open spec fn opt_chars(o: Option<String>) -> Option<Seq<char>> {
    match o {
        Some(s) => Some(s@),
        None => None,
    }
}

/// Mathematical model of a [`Track`].
pub ghost struct TrackView {
    pub title: Seq<char>,
    pub artist: Seq<char>,
    pub album: Option<Seq<char>>,
    pub duration: Option<u64>,
}

/// Two tracks denote the same piece of music when title, artist and album
/// agree; the duration is not part of a track's identity.
pub open spec fn same_track(a: TrackView, b: TrackView) -> bool {
    &&& a.title == b.title
    &&& a.artist == b.artist
    &&& a.album == b.album
}

/// A normalized music track.
#[derive(Debug)]
pub struct Track {
    pub title: String,
    pub artist: String,
    pub album: Option<String>,
    /// Duration in seconds.
    pub duration: Option<u64>,
}

impl View for Track {
    type V = TrackView;

    open spec fn view(&self) -> TrackView {
        TrackView {
            title: self.title@,
            artist: self.artist@,
            album: opt_chars(self.album),
            duration: self.duration,
        }
    }
}

/// Copies an optional text field.
pub fn copy_opt(o: &Option<String>) -> (r: Option<String>)
    ensures
        opt_chars(r) == opt_chars(*o),
{
    match o {
        Some(s) => Some(s.clone()),
        None => None,
    }
}

/// Compares two optional text fields by their characters.
pub fn opt_eq(a: &Option<String>, b: &Option<String>) -> (r: bool)
    ensures
        r == (opt_chars(*a) == opt_chars(*b)),
{
    match (a, b) {
        (Some(x), Some(y)) => *x == *y,
        (None, None) => true,
        _ => false,
    }
}

impl Track {
    /// True when `self` and `other` denote the same piece of music.
    pub fn same_as(&self, other: &Track) -> (r: bool)
        ensures
            r == same_track(self@, other@),
    {
        self.title == other.title && self.artist == other.artist && opt_eq(&self.album, &other.album)
    }
}

/// How a track is shown: artist, a dash, and title.
pub open spec fn track_label(t: TrackView) -> Seq<char> {
    t.artist + " - "@ + t.title
}

impl Track {
    /// The track as shown in the status menu.
    pub fn label(&self) -> (r: String)
        ensures
            r@ == track_label(self@),
    {
        let mut s = self.artist.clone();
        s.append(" - ");
        s.append(self.title.as_str());
        s
    }
}

impl Clone for Track {
    fn clone(&self) -> (r: Self)
        ensures
            r@ == self@,
    {
        Track {
            title: self.title.clone(),
            artist: self.artist.clone(),
            album: copy_opt(&self.album),
            duration: self.duration,
        }
    }
}

impl PartialEq for Track {
    fn eq(&self, other: &Track) -> (r: bool) {
        self.same_as(other)
    }
}

impl vstd::std_specs::cmp::PartialEqSpecImpl for Track {
    open spec fn obeys_eq_spec() -> bool {
        true
    }

    open spec fn eq_spec(&self, other: &Track) -> bool {
        same_track(self@, other@)
    }
}

} // verus!
