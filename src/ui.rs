use vstd::prelude::*;
use crate::track::opt_chars;

verus! {

/// The user's answer about an application.
#[derive(Debug, Clone, Copy, PartialEq, Eq, Structural)]
pub enum AppChoice {
    Allow,
    Ignore,
}

/// Events that the status menu can raise.
#[derive(Debug, Clone, Copy, PartialEq, Eq, Structural)]
pub enum TrayEvent {
    Quit,
    ToggleLaunchAtLogin,
}

/// A menu line: the caption, then the entry or "None".
pub open spec fn menu_line(caption: Seq<char>, entry: Option<Seq<char>>) -> Seq<char> {
    match entry {
        Some(t) => caption + t,
        None => caption + "None"@,
    }
}

fn menu_text(caption: &str, entry: &Option<String>) -> (r: String)
    ensures
        r@ == menu_line(caption@, opt_chars(*entry)),
{
    let mut s = String::from_str(caption);
    match entry {
        Some(t) => s.append(t.as_str()),
        None => s.append("None"),
    }
    s
}

/// What the status menu shows.
#[derive(Debug)]
pub struct TrayState {
    pub now_playing: Option<String>,
    pub last_scrobbled: Option<String>,
}

impl TrayState {
    /// Nothing playing, nothing scrobbled.
    pub fn new() -> (r: Self)
        ensures
            r.now_playing is None,
            r.last_scrobbled is None,
    {
        TrayState { now_playing: None, last_scrobbled: None }
    }

    /// Records the track now playing and returns the menu line for it.
    pub fn update_now_playing(&mut self, track: Option<String>) -> (r: String)
        ensures
            r@ == menu_line("Now Playing: "@, opt_chars(track)),
            opt_chars(final(self).now_playing) == opt_chars(track),
            final(self).last_scrobbled == old(self).last_scrobbled,
    {
        let text = menu_text("Now Playing: ", &track);
        self.now_playing = track;
        text
    }

    /// Records the track last scrobbled and returns the menu line for it.
    pub fn update_last_scrobbled(&mut self, track: Option<String>) -> (r: String)
        ensures
            r@ == menu_line("Last Scrobbled: "@, opt_chars(track)),
            opt_chars(final(self).last_scrobbled) == opt_chars(track),
            final(self).now_playing == old(self).now_playing,
    {
        let text = menu_text("Last Scrobbled: ", &track);
        self.last_scrobbled = track;
        text
    }
}

} // verus!
