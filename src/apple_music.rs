use vstd::prelude::*;
use crate::decimal::{decimal, decimal_text};

verus! {

/// `b` written as a JavaScript literal.
pub open spec fn bool_text(b: bool) -> Seq<char> {
    if b {
        seq!['t', 'r', 'u', 'e']
    } else {
        seq!['f', 'a', 'l', 's', 'e']
    }
}

fn bool_literal(b: bool) -> (r: &'static str)
    ensures
        r@ == bool_text(b),
{
    proof {
        reveal_strlit("true");
        reveal_strlit("false");
    }
    let r = if b {
        "true"
    } else {
        "false"
    };
    assert(r@ =~= bool_text(b));
    r
}

/// The script expression that names the application.
pub open spec fn app_ref(app: Seq<char>) -> Seq<char> {
    "Application('"@ + app + "')"@
}

/// A script that calls a method of the application without arguments.
pub open spec fn call_script(app: Seq<char>, method: Seq<char>) -> Seq<char> {
    app_ref(app) + "."@ + method + "()"@
}

/// A script that sets a property of the application.
pub open spec fn set_script(app: Seq<char>, property: Seq<char>, value: Seq<char>) -> Seq<char> {
    app_ref(app) + "."@ + property + " = "@ + value
}

/// A script that calls a method of the application on one of its items, found by id.
pub open spec fn item_script(app: Seq<char>, method: Seq<char>, items: Seq<char>, id: int) -> Seq<
    char,
> {
    app_ref(app) + "."@ + method + "("@ + app_ref(app) + "."@ + items + ".byId("@ + decimal(id)
        + "))"@
}

/// Song repeat modes of the player.
#[derive(Debug, Clone, Copy, PartialEq, Eq, Structural)]
#[allow(non_camel_case_types, clippy::upper_case_acronyms)]
pub enum SongRepeatMode {
    OFF,
    ONE,
    ALL,
}

pub open spec fn repeat_mode_text(m: SongRepeatMode) -> Seq<char> {
    match m {
        SongRepeatMode::OFF => "off"@,
        SongRepeatMode::ONE => "one"@,
        SongRepeatMode::ALL => "all"@,
    }
}

impl SongRepeatMode {
    /// The mode's name as the player spells it.
    pub fn to_string(&self) -> (r: String)
        ensures
            r@ == repeat_mode_text(*self),
    {
        match self {
            SongRepeatMode::OFF => String::from_str("off"),
            SongRepeatMode::ONE => String::from_str("one"),
            SongRepeatMode::ALL => String::from_str("all"),
        }
    }
}

/// Entry point for controlling the Apple Music player. Each command returns the
/// JavaScript-for-Automation script that carries it out.
pub struct AppleMusic(String);

impl View for AppleMusic {
    type V = Seq<char>;

    closed spec fn view(&self) -> Seq<char> {
        self.0@
    }
}

impl AppleMusic {
    /// A controller for the application named `app`.
    pub fn new(app: String) -> (r: Self)
        ensures
            r@ == app@,
    {
        AppleMusic(app)
    }

    /// A controller for the standard application, "Music".
    pub fn default() -> (r: Self)
        ensures
            r@ == "Music"@,
    {
        AppleMusic(String::from_str("Music"))
    }

    fn app_ref(&self) -> (r: String)
        ensures
            r@ == app_ref(self@),
    {
        let mut s = String::from_str("Application('");
        s.append(self.0.as_str());
        s.append("')");
        s
    }

    fn call(&self, method: &str) -> (r: String)
        ensures
            r@ == call_script(self@, method@),
    {
        let mut s = self.app_ref();
        s.append(".");
        s.append(method);
        s.append("()");
        s
    }

    fn set(&self, property: &str, value: &str) -> (r: String)
        ensures
            r@ == set_script(self@, property@, value@),
    {
        let mut s = self.app_ref();
        s.append(".");
        s.append(property);
        s.append(" = ");
        s.append(value);
        s
    }

    fn on_item(&self, method: &str, items: &str, id: i32) -> (r: String)
        ensures
            r@ == item_script(self@, method@, items@, id as int),
    {
        let target = self.app_ref();
        let mut s = self.app_ref();
        s.append(".");
        s.append(method);
        s.append("(");
        s.append(target.as_str());
        s.append(".");
        s.append(items);
        s.append(".byId(");
        s.append(decimal_text(id as i64).as_str());
        s.append("))");
        s
    }

    /// Plays the track with the given id.
    pub fn play_track(&self, track_id: i32) -> (r: String)
        ensures
            r@ == item_script(self@, "play"@, "tracks"@, track_id as int),
    {
        self.on_item("play", "tracks", track_id)
    }

    /// Plays the playlist with the given id.
    pub fn play_playlist(&self, playlist_id: i32) -> (r: String)
        ensures
            r@ == item_script(self@, "play"@, "playlists"@, playlist_id as int),
    {
        self.on_item("play", "playlists", playlist_id)
    }

    /// Converts the track with the given id.
    pub fn convert_track(&self, track_id: i32) -> (r: String)
        ensures
            r@ == item_script(self@, "convert"@, "tracks"@, track_id as int),
    {
        self.on_item("convert", "tracks", track_id)
    }

    /// Mutes or unmutes the player.
    pub fn set_mute(&self, value: bool) -> (r: String)
        ensures
            r@ == set_script(self@, "mute"@, bool_text(value)),
    {
        self.set("mute", bool_literal(value))
    }

    /// Turns shuffle on or off.
    pub fn set_shuffle(&self, value: bool) -> (r: String)
        ensures
            r@ == set_script(self@, "shuffleEnabled"@, bool_text(value)),
    {
        self.set("shuffleEnabled", bool_literal(value))
    }

    /// Sets the song repeat mode; the value is quoted.
    pub fn set_song_repeat_mode(&self, value: SongRepeatMode) -> (r: String)
        ensures
            r@ == set_script(self@, "songRepeat"@, "\""@ + repeat_mode_text(value) + "\""@),
    {
        let mut quoted = String::from_str("\"");
        quoted.append(value.to_string().as_str());
        quoted.append("\"");
        self.set("songRepeat", quoted.as_str())
    }

    /// Sets the sound volume (0 to 100).
    pub fn set_sound_volume(&self, value: i8) -> (r: String)
        ensures
            r@ == set_script(self@, "soundVolume"@, decimal(value as int)),
    {
        self.set("soundVolume", decimal_text(value as i64).as_str())
    }

    /// Resumes a paused track, or plays from the library.
    pub fn play(&self) -> (r: String)
        ensures
            r@ == call_script(self@, "play"@),
    {
        self.call("play")
    }

    /// Pauses the current track.
    pub fn pause(&self) -> (r: String)
        ensures
            r@ == call_script(self@, "pause"@),
    {
        self.call("pause")
    }

    /// Stops rewinding or fast-forwarding.
    pub fn resume(&self) -> (r: String)
        ensures
            r@ == call_script(self@, "resume"@),
    {
        self.call("resume")
    }

    /// Restarts the current track.
    pub fn back_track(&self) -> (r: String)
        ensures
            r@ == call_script(self@, "backTrack"@),
    {
        self.call("backTrack")
    }

    /// Fast-forwards the current track.
    pub fn fast_forward(&self) -> (r: String)
        ensures
            r@ == call_script(self@, "fastForward"@),
    {
        self.call("fastForward")
    }

    /// Skips to the next track.
    pub fn next_track(&self) -> (r: String)
        ensures
            r@ == call_script(self@, "nextTrack"@),
    {
        self.call("nextTrack")
    }

    /// Toggles between playing and paused.
    pub fn playpause(&self) -> (r: String)
        ensures
            r@ == call_script(self@, "playpause"@),
    {
        self.call("playpause")
    }

    /// Goes back to the previous track.
    pub fn previous_track(&self) -> (r: String)
        ensures
            r@ == call_script(self@, "previousTrack"@),
    {
        self.call("previousTrack")
    }

    /// Rewinds the current track.
    pub fn rewind(&self) -> (r: String)
        ensures
            r@ == call_script(self@, "rewind"@),
    {
        self.call("rewind")
    }

    /// Stops the player.
    pub fn stop(&self) -> (r: String)
        ensures
            r@ == call_script(self@, "stop"@),
    {
        self.call("stop")
    }

    /// Quits the application.
    pub fn quit(&self) -> (r: String)
        ensures
            r@ == call_script(self@, "quit"@),
    {
        self.call("quit")
    }

    /// Opens the application.
    pub fn run(&self) -> (r: String)
        ensures
            r@ == call_script(self@, "run"@),
    {
        self.call("run")
    }
}

} // verus!
