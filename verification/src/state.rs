//! Playback, queue and UI-focus state: the plain data the reducer owns.
//!
//! Positions and durations are kept in whole milliseconds and the volume in
//! whole percent, so that every update to them is exact integer arithmetic.

use vstd::prelude::*;

verus! {

/// Whether a background library rescan is currently running.
#[derive(Debug, Clone, Copy, PartialEq, Eq, Structural)]
pub enum SyncState {
    Idle,
    Scanning,
}

/// The three playback phases the UI distinguishes.
#[derive(Debug, Clone, Copy, PartialEq, Eq, Structural)]
pub enum PlayState {
    Playing,
    Paused,
    Stopped,
}

/// Repeat policy applied when a track ends or the user skips.
#[derive(Debug, Clone, Copy, PartialEq, Eq, Structural)]
pub enum RepeatMode {
    Off,
    All,
    One,
}

impl RepeatMode {
    /// The mode the repeat key cycles to.
    pub open spec fn spec_next(self) -> RepeatMode {
        match self {
            RepeatMode::Off => RepeatMode::All,
            RepeatMode::All => RepeatMode::One,
            RepeatMode::One => RepeatMode::Off,
        }
    }

    pub fn next(self) -> (r: RepeatMode)
        ensures
            r == self.spec_next(),
    {
        match self {
            RepeatMode::Off => RepeatMode::All,
            RepeatMode::All => RepeatMode::One,
            RepeatMode::One => RepeatMode::Off,
        }
    }

    /// Label used in the persisted settings file.
    pub fn as_str(self) -> (r: &'static str)
        ensures
            self == RepeatMode::Off ==> r@ == "Off"@,
            self == RepeatMode::All ==> r@ == "All"@,
            self == RepeatMode::One ==> r@ == "One"@,
    {
        match self {
            RepeatMode::Off => "Off",
            RepeatMode::All => "All",
            RepeatMode::One => "One",
        }
    }

    /// Inverse of `as_str`; unknown labels fall back to `Off`.
    pub fn from_label(s: &str) -> (r: RepeatMode)
        ensures
            s@ == "All"@ ==> r == RepeatMode::All,
            s@ == "One"@ ==> r == RepeatMode::One,
            s@ != "All"@ && s@ != "One"@ ==> r == RepeatMode::Off,
    {
        proof {
            reveal_strlit("All");
            reveal_strlit("One");
            assert("All"@[0] == 'A' && "One"@[0] == 'O');
        }
        if crate::strutil::str_eq(s, "All") {
            RepeatMode::All
        } else if crate::strutil::str_eq(s, "One") {
            RepeatMode::One
        } else {
            RepeatMode::Off
        }
    }

    /// Status-bar glyph for the mode.
    pub fn symbol(self) -> (r: &'static str)
        ensures
            self == RepeatMode::One ==> r@ == "\u{F0458}"@,
            self != RepeatMode::One ==> r@ == "\u{F0456}"@,
    {
        match self {
            RepeatMode::Off => "\u{F0456}",
            RepeatMode::All => "\u{F0456}",
            RepeatMode::One => "\u{F0458}",
        }
    }
}

/// The tabs of the left-hand browser pane.
#[derive(Debug, Clone, Copy, PartialEq, Eq, Structural)]
pub enum Tab {
    Queue,
    Directories,
    Artists,
    Albums,
    Genre,
    Format,
    Playlists,
}

impl Tab {
    pub fn title(self) -> (r: &'static str)
        ensures
            self == Tab::Queue ==> r@ == "Queue"@,
            self == Tab::Directories ==> r@ == "Directories"@,
            self == Tab::Artists ==> r@ == "Artists"@,
            self == Tab::Albums ==> r@ == "Albums"@,
            self == Tab::Genre ==> r@ == "Genre"@,
            self == Tab::Format ==> r@ == "Format"@,
            self == Tab::Playlists ==> r@ == "Playlists"@,
    {
        match self {
            Tab::Queue => "Queue",
            Tab::Directories => "Directories",
            Tab::Artists => "Artists",
            Tab::Albums => "Albums",
            Tab::Genre => "Genre",
            Tab::Format => "Format",
            Tab::Playlists => "Playlists",
        }
    }

    /// Position of the tab in display order.
    pub open spec fn spec_index(self) -> int {
        match self {
            Tab::Queue => 0,
            Tab::Directories => 1,
            Tab::Artists => 2,
            Tab::Albums => 3,
            Tab::Genre => 4,
            Tab::Format => 5,
            Tab::Playlists => 6,
        }
    }

    pub fn index(self) -> (r: usize)
        ensures
            r == self.spec_index(),
    {
        match self {
            Tab::Queue => 0,
            Tab::Directories => 1,
            Tab::Artists => 2,
            Tab::Albums => 3,
            Tab::Genre => 4,
            Tab::Format => 5,
            Tab::Playlists => 6,
        }
    }

    /// Tab at a display position; out-of-range positions fall back to `Queue`.
    pub fn from_index(i: usize) -> (r: Tab)
        ensures
            i <= 6 ==> r.spec_index() == i,
            i > 6 ==> r == Tab::Queue,
    {
        match i {
            0 => Tab::Queue,
            1 => Tab::Directories,
            2 => Tab::Artists,
            3 => Tab::Albums,
            4 => Tab::Genre,
            5 => Tab::Format,
            6 => Tab::Playlists,
            _ => Tab::Queue,
        }
    }
}

/// Which of the three dashboard panes owns the keyboard.
#[derive(Debug, Clone, Copy, PartialEq, Eq, Structural)]
pub enum FocusedPane {
    Library,
    Playlist,
    Lyrics,
}

impl FocusedPane {
    pub open spec fn spec_next(self) -> FocusedPane {
        match self {
            FocusedPane::Library => FocusedPane::Playlist,
            FocusedPane::Playlist => FocusedPane::Lyrics,
            FocusedPane::Lyrics => FocusedPane::Library,
        }
    }

    pub open spec fn spec_prev(self) -> FocusedPane {
        match self {
            FocusedPane::Library => FocusedPane::Lyrics,
            FocusedPane::Playlist => FocusedPane::Library,
            FocusedPane::Lyrics => FocusedPane::Playlist,
        }
    }

    pub fn next(self) -> (r: FocusedPane)
        ensures
            r == self.spec_next(),
    {
        match self {
            FocusedPane::Library => FocusedPane::Playlist,
            FocusedPane::Playlist => FocusedPane::Lyrics,
            FocusedPane::Lyrics => FocusedPane::Library,
        }
    }

    pub fn prev(self) -> (r: FocusedPane)
        ensures
            r == self.spec_prev(),
    {
        match self {
            FocusedPane::Library => FocusedPane::Lyrics,
            FocusedPane::Playlist => FocusedPane::Library,
            FocusedPane::Lyrics => FocusedPane::Playlist,
        }
    }
}

/// What the info pane shows.
#[derive(Debug, Clone, Copy, PartialEq, Eq, Structural)]
pub enum InfoView {
    Clock,
    AlbumArt,
}

impl InfoView {
    pub open spec fn spec_next(self) -> InfoView {
        match self {
            InfoView::Clock => InfoView::AlbumArt,
            InfoView::AlbumArt => InfoView::Clock,
        }
    }

    pub fn next(self) -> (r: InfoView)
        ensures
            r == self.spec_next(),
    {
        match self {
            InfoView::Clock => InfoView::AlbumArt,
            InfoView::AlbumArt => InfoView::Clock,
        }
    }

    /// Label used in the persisted settings file.
    pub fn as_str(self) -> (r: &'static str)
        ensures
            self == InfoView::Clock ==> r@ == "Clock"@,
            self == InfoView::AlbumArt ==> r@ == "AlbumArt"@,
    {
        match self {
            InfoView::Clock => "Clock",
            InfoView::AlbumArt => "AlbumArt",
        }
    }

    /// Inverse of `as_str`; unknown labels fall back to `Clock`.
    pub fn from_label(s: &str) -> (r: InfoView)
        ensures
            s@ == "AlbumArt"@ ==> r == InfoView::AlbumArt,
            s@ != "AlbumArt"@ ==> r == InfoView::Clock,
    {
        if crate::strutil::str_eq(s, "AlbumArt") {
            InfoView::AlbumArt
        } else {
            InfoView::Clock
        }
    }
}

/// Mode of the playlist management modal.
#[derive(Debug, Clone, Copy, PartialEq, Eq, Structural)]
pub enum PlaylistModalMode {
    List,
    Create,
    Rename,
}

/// Maximum volume, in percent.
pub const VOLUME_MAX: u8 = 100;

/// Step of one volume-up or volume-down action, in percent.
pub const VOLUME_STEP: u8 = 5;

/// Playback status as the reducer tracks it.
///
/// `position_ms` and `duration_ms` are milliseconds; `volume` is percent,
/// always at most [`VOLUME_MAX`].
#[derive(Debug, Clone)]
pub struct PlaybackState {
    pub state: PlayState,
    pub position_ms: u64,
    pub duration_ms: u64,
    pub volume: u8,
    pub shuffle: bool,
    pub repeat: RepeatMode,
}

impl PlaybackState {
    /// The state is well formed when the volume is within range.
    pub open spec fn wf(self) -> bool {
        self.volume <= VOLUME_MAX
    }
}

impl Default for PlaybackState {
    /// Stopped at zero, 80% volume, no shuffle, repeat off.
    fn default() -> (r: PlaybackState)
        ensures
            r.state == PlayState::Stopped,
            r.position_ms == 0,
            r.duration_ms == 0,
            r.volume == 80,
            !r.shuffle,
            r.repeat == RepeatMode::Off,
            r.wf(),
    {
        PlaybackState {
            state: PlayState::Stopped,
            position_ms: 0,
            duration_ms: 0,
            volume: 80,
            shuffle: false,
            repeat: RepeatMode::Off,
        }
    }
}

/// The play queue: indices into the current library snapshot, the entry being
/// played, the UI selection cursor and the scroll offset.
#[derive(Debug, Clone)]
pub struct QueueState {
    pub tracks: Vec<usize>,
    pub current_index: Option<usize>,
    pub selected_index: usize,
    pub scroll_offset: usize,
}

impl QueueState {
    /// Every queue entry refers into a snapshot of `lib_len` tracks, and the
    /// playing position, if any, refers into the queue itself.
    pub open spec fn wf(self, lib_len: int) -> bool {
        &&& forall|i: int| 0 <= i < self.tracks@.len() ==> (#[trigger] self.tracks@[i]) < lib_len
        &&& match self.current_index {
            Some(ci) => ci < self.tracks@.len(),
            None => true,
        }
    }
}

impl Default for QueueState {
    /// An empty queue with nothing playing.
    fn default() -> (r: QueueState)
        ensures
            r.tracks@.len() == 0,
            r.current_index is None,
            r.selected_index == 0,
            r.scroll_offset == 0,
    {
        QueueState { tracks: Vec::new(), current_index: None, selected_index: 0, scroll_offset: 0 }
    }
}

/// A named, insertion-ordered list of snapshot indices.
#[derive(Debug, Clone)]
pub struct Playlist {
    pub name: String,
    pub tracks: Vec<usize>,
}

impl Playlist {
    /// Every playlist entry refers into a snapshot of `lib_len` tracks.
    pub open spec fn wf(self, lib_len: int) -> bool {
        forall|i: int| 0 <= i < self.tracks@.len() ==> (#[trigger] self.tracks@[i]) < lib_len
    }

    pub fn new(name: String) -> (r: Playlist)
        ensures
            r.name == name,
            r.tracks@.len() == 0,
    {
        Playlist { name, tracks: Vec::new() }
    }
}

} // verus!
