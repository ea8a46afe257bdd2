//! The application reducer: single owner of all mutable state. It applies
//! one action at a time and returns the effects — player commands, a scan
//! request — that its surroundings must carry out.

use vstd::prelude::*;

use crate::library::{indices_view, Library};
use crate::track::Track;
use crate::state::{
    FocusedPane, PlayState, Playlist, PlaybackState, QueueState, RepeatMode, SyncState, Tab,
    VOLUME_MAX, VOLUME_STEP,
};
use crate::worker::PlayerCommand;

use rand::Rng;

verus! {

/// One unit of user, timer, playback or synchronizer input, applied
/// atomically by the reducer.
#[derive(Debug, Clone)]
pub enum AppAction {
    Quit,
    PlayTrack(usize),
    PauseResume,
    NextTrack,
    PrevTrack,
    SetVolume(u8),
    VolumeUp,
    VolumeDown,
    Seek(i64),
    SeekForward,
    SeekBackward,
    ToggleShuffle,
    CycleRepeat,
    SwitchTab(Tab),
    FocusNext,
    FocusPrev,
    FocusPane(FocusedPane),
    AddToQueue(Vec<usize>),
    ClearQueue,
    RemoveFromQueue(usize),
    PlayQueueIndex(usize),
    UpdatePosition { position_ms: u64, duration_ms: u64 },
    TrackFinished,
    SetQueueSelection(usize),
    AddToPlaylist { playlist_idx: usize, track_idx: usize },
    RemoveFromPlaylist { playlist_idx: usize, track_idx: usize },
    CreatePlaylist(String),
    DeletePlaylist(usize),
    RenamePlaylist { idx: usize, name: String },
    LibrarySync,
}

/// What the reducer asks its surroundings to do after an action.
#[derive(Debug, Clone)]
pub enum Effect {
    /// Send this command to the playback worker.
    Player(PlayerCommand),
    /// Start a background library rescan.
    StartScan,
}

/// The whole application state the reducer owns.
pub struct App {
    pub should_quit: bool,
    pub tab: Tab,
    pub focus: FocusedPane,
    pub playback: PlaybackState,
    pub queue: QueueState,
    pub library: Library,
    pub music_dir: String,
    pub search_query: String,
    pub search_mode: bool,
    pub search_results: Vec<usize>,
    pub playlists: Vec<Playlist>,
    pub track_just_changed: bool,
    pub sync_state: SyncState,
    pub initial_scan_complete: bool,
}

/// Length of the current snapshot.
pub open spec fn lib_len(a: App) -> int {
    a.library.tracks@.len() as int
}

impl App {
    /// Every index-based reference points into the current snapshot, the
    /// playing position points into the queue, and the volume is in range.
    pub open spec fn wf(self) -> bool {
        &&& self.queue.wf(lib_len(self))
        &&& forall|i: int|
            0 <= i < self.playlists@.len() ==> (#[trigger] self.playlists@[i]).wf(lib_len(self))
        &&& self.playback.wf()
    }

    /// A fresh application over an empty library, with one empty bookmark
    /// playlist.
    pub fn new(music_dir: String) -> (r: App)
        ensures
            r.wf(),
            !r.should_quit,
            r.tab == Tab::Queue,
            r.focus == FocusedPane::Library,
            r.playback.state == PlayState::Stopped,
            r.playback.volume == 80,
            r.queue.tracks@.len() == 0,
            r.queue.current_index is None,
            r.library.tracks@.len() == 0,
            r.music_dir@ == music_dir@,
            r.search_query@.len() == 0,
            !r.search_mode,
            r.search_results@.len() == 0,
            r.playlists@.len() == 1 && r.playlists@[0].name@ == "Bookmarks"@ && r.playlists@[0].tracks@.len() == 0,
            !r.track_just_changed,
            r.sync_state == SyncState::Idle,
            !r.initial_scan_complete,
    {
        let mut playlists: Vec<Playlist> = Vec::new();
        playlists.push(Playlist::new(String::from_str("Bookmarks")));
        App {
            should_quit: false,
            tab: Tab::Queue,
            focus: FocusedPane::Library,
            playback: PlaybackState::default(),
            queue: QueueState::default(),
            library: Library::new(),
            music_dir,
            search_query: String::new(),
            search_mode: false,
            search_results: Vec::new(),
            playlists,
            track_just_changed: false,
            sync_state: SyncState::Idle,
            initial_scan_complete: false,
        }
    }
}

/// The effect is a `Play` command for exactly this path.
pub open spec fn is_play(e: Effect, path: Seq<char>) -> bool {
    match e {
        Effect::Player(cmd) => match cmd {
            PlayerCommand::Play(p) => p@ == path,
            _ => false,
        },
        _ => false,
    }
}

/// Starting playback of snapshot track `ti`: an in-range index starts the
/// track from zero and emits one `Play` command; an out-of-range one is
/// ignored.
pub open spec fn play_track_post(pre: App, ti: int, post: App, eff: Seq<Effect>) -> bool {
    if 0 <= ti < lib_len(pre) {
        &&& post == (App {
            playback: PlaybackState {
                state: PlayState::Playing,
                position_ms: 0,
                duration_ms: pre.library.tracks@[ti].duration_ms,
                ..pre.playback
            },
            track_just_changed: true,
            ..pre
        })
        &&& eff.len() == 1
        &&& is_play(eff[0], pre.library.tracks@[ti].path@)
    } else {
        post == pre && eff.len() == 0
    }
}

/// Moving the playing position to queue entry `t` and starting its track.
pub open spec fn advance_post(pre: App, t: int, post: App, eff: Seq<Effect>) -> bool {
    &&& 0 <= t < pre.queue.tracks@.len()
    &&& play_track_post(
        App { queue: QueueState { current_index: Some(t as usize), ..pre.queue }, ..pre },
        pre.queue.tracks@[t] as int,
        post,
        eff,
    )
}

/// Track advance on `NextTrack` or a finished track: replay under
/// repeat-one, a random queue position under shuffle, else one step forward,
/// wrapping under repeat-all and stopping at the end otherwise.
pub open spec fn play_next_post(pre: App, post: App, eff: Seq<Effect>) -> bool {
    if pre.queue.tracks@.len() == 0 {
        post == pre && eff.len() == 0
    } else if pre.playback.repeat == RepeatMode::One {
        match pre.queue.current_index {
            Some(idx) => advance_post(pre, idx as int, post, eff),
            None => post == pre && eff.len() == 0,
        }
    } else if pre.playback.shuffle {
        exists|k: int| #![auto] 0 <= k < pre.queue.tracks@.len() && advance_post(pre, k, post, eff)
    } else {
        match pre.queue.current_index {
            Some(idx) => if idx + 1 < pre.queue.tracks@.len() {
                advance_post(pre, idx + 1, post, eff)
            } else if pre.playback.repeat == RepeatMode::All {
                advance_post(pre, 0, post, eff)
            } else {
                &&& post == (App {
                    playback: PlaybackState {
                        state: PlayState::Stopped,
                        position_ms: 0,
                        ..pre.playback
                    },
                    ..pre
                })
                &&& eff.len() == 0
            },
            None => advance_post(pre, 0, post, eff),
        }
    }
}

/// Restarting the current track in place (previous-track while well into the
/// track): position returns to zero, the queue position and the play state
/// are untouched, and one `Play` command is emitted.
pub open spec fn replay_post(pre: App, idx: int, post: App, eff: Seq<Effect>) -> bool {
    &&& 0 <= idx < pre.queue.tracks@.len()
    &&& {
        let ti = pre.queue.tracks@[idx] as int;
        &&& 0 <= ti < lib_len(pre)
        &&& post == (App {
            playback: PlaybackState {
                position_ms: 0,
                duration_ms: pre.library.tracks@[ti].duration_ms,
                ..pre.playback
            },
            track_just_changed: true,
            ..pre
        })
        &&& eff.len() == 1
        &&& is_play(eff[0], pre.library.tracks@[ti].path@)
    }
}

/// Track step-back on `PrevTrack`: more than three seconds in, the current
/// track restarts in place; otherwise one step back, wrapping under
/// repeat-all and clamping at the first entry otherwise.
pub open spec fn play_prev_post(pre: App, post: App, eff: Seq<Effect>) -> bool {
    if pre.queue.tracks@.len() == 0 {
        post == pre && eff.len() == 0
    } else if pre.playback.position_ms > 3000 && pre.queue.current_index is Some {
        replay_post(pre, pre.queue.current_index->0 as int, post, eff)
    } else {
        let prev: int = match pre.queue.current_index {
            Some(idx) => if idx > 0 {
                idx - 1
            } else if pre.playback.repeat == RepeatMode::All {
                pre.queue.tracks@.len() - 1
            } else {
                0
            },
            None => 0,
        };
        advance_post(pre, prev, post, eff)
    }
}

/// Setting the volume: the value is clamped to the maximum, stored, and
/// forwarded to the worker.
pub open spec fn set_volume_post(pre: App, v: u8, post: App, eff: Seq<Effect>) -> bool {
    let cv: u8 = if v > VOLUME_MAX {
        VOLUME_MAX
    } else {
        v
    };
    &&& post == (App { playback: PlaybackState { volume: cv, ..pre.playback }, ..pre })
    &&& eff.len() == 1
    &&& eff[0] == Effect::Player(PlayerCommand::SetVolume(cv))
}

/// A relative seek target held to the range a seek action can carry.
pub open spec fn sat_seek(t: int) -> int {
    if t > i64::MAX {
        i64::MAX as int
    } else {
        t
    }
}

/// The seek target clamped to the track: never negative, never past the
/// duration.
pub open spec fn clamp_seek(t: int, dur: u64) -> u64 {
    if t < 0 {
        0
    } else if t > dur {
        dur
    } else {
        t as u64
    }
}

/// Seeking: the clamped position is stored and forwarded to the worker.
pub open spec fn seek_post(pre: App, t: int, post: App, eff: Seq<Effect>) -> bool {
    let cp = clamp_seek(t, pre.playback.duration_ms);
    &&& post == (App { playback: PlaybackState { position_ms: cp, ..pre.playback }, ..pre })
    &&& eff.len() == 1
    &&& eff[0] == Effect::Player(PlayerCommand::Seek(cp))
}

/// The state change and the effects that one action produces.
pub open spec fn step(pre: App, action: AppAction, post: App, eff: Seq<Effect>) -> bool {
    match action {
        AppAction::Quit => {
            &&& post == (App { should_quit: true, ..pre })
            &&& eff.len() == 1
            &&& eff[0] == Effect::Player(PlayerCommand::Stop)
        },
        AppAction::PlayTrack(ti) => play_track_post(pre, ti as int, post, eff),
        AppAction::PauseResume => match pre.playback.state {
            PlayState::Playing => {
                &&& post == (App {
                    playback: PlaybackState { state: PlayState::Paused, ..pre.playback },
                    ..pre
                })
                &&& eff.len() == 1
                &&& eff[0] == Effect::Player(PlayerCommand::Pause)
            },
            PlayState::Paused => {
                &&& post == (App {
                    playback: PlaybackState { state: PlayState::Playing, ..pre.playback },
                    ..pre
                })
                &&& eff.len() == 1
                &&& eff[0] == Effect::Player(PlayerCommand::Resume)
            },
            PlayState::Stopped => match pre.queue.current_index {
                Some(qi) => if qi < pre.queue.tracks@.len() {
                    play_track_post(pre, pre.queue.tracks@[qi as int] as int, post, eff)
                } else {
                    post == pre && eff.len() == 0
                },
                None => post == pre && eff.len() == 0,
            },
        },
        AppAction::NextTrack => play_next_post(pre, post, eff),
        AppAction::TrackFinished => play_next_post(pre, post, eff),
        AppAction::PrevTrack => play_prev_post(pre, post, eff),
        AppAction::SetVolume(v) => set_volume_post(pre, v, post, eff),
        AppAction::VolumeUp => {
            let v: u8 = if pre.playback.volume + VOLUME_STEP > VOLUME_MAX {
                VOLUME_MAX
            } else {
                (pre.playback.volume + VOLUME_STEP) as u8
            };
            set_volume_post(pre, v, post, eff)
        },
        AppAction::VolumeDown => {
            let v: u8 = if pre.playback.volume >= VOLUME_STEP {
                (pre.playback.volume - VOLUME_STEP) as u8
            } else {
                0
            };
            set_volume_post(pre, v, post, eff)
        },
        AppAction::Seek(t) => seek_post(pre, t as int, post, eff),
        AppAction::SeekForward => seek_post(
            pre,
            sat_seek(pre.playback.position_ms + 5000),
            post,
            eff,
        ),
        AppAction::SeekBackward => seek_post(
            pre,
            sat_seek(pre.playback.position_ms - 5000),
            post,
            eff,
        ),
        AppAction::ToggleShuffle => {
            &&& post == (App {
                playback: PlaybackState { shuffle: !pre.playback.shuffle, ..pre.playback },
                ..pre
            })
            &&& eff.len() == 0
        },
        AppAction::CycleRepeat => {
            &&& post == (App {
                playback: PlaybackState {
                    repeat: pre.playback.repeat.spec_next(),
                    ..pre.playback
                },
                ..pre
            })
            &&& eff.len() == 0
        },
        AppAction::SwitchTab(t) => post == (App { tab: t, ..pre }) && eff.len() == 0,
        AppAction::FocusNext => post == (App { focus: pre.focus.spec_next(), ..pre }) && eff.len()
            == 0,
        AppAction::FocusPrev => post == (App { focus: pre.focus.spec_prev(), ..pre }) && eff.len()
            == 0,
        AppAction::FocusPane(p) => post == (App { focus: p, ..pre }) && eff.len() == 0,
        AppAction::AddToQueue(v) => {
            &&& post == (App { queue: post.queue, ..pre })
            &&& post.queue.tracks == v
            &&& post.queue.current_index == (if v@.len() == 0 {
                Option::<usize>::None
            } else {
                Option::<usize>::Some(0)
            })
            &&& post.queue.selected_index == 0
            &&& post.queue.scroll_offset == 0
            &&& eff.len() == 0
        },
        AppAction::ClearQueue => {
            &&& post == (App { queue: post.queue, ..pre })
            &&& post.queue.tracks@.len() == 0
            &&& post.queue.current_index is None
            &&& post.queue.selected_index == 0
            &&& post.queue.scroll_offset == 0
            &&& eff.len() == 0
        },
        AppAction::RemoveFromQueue(idx) => {
            &&& if idx < pre.queue.tracks@.len() {
                &&& post == (App { queue: post.queue, ..pre })
                &&& post.queue.tracks@ == pre.queue.tracks@.remove(idx as int)
                &&& post.queue.selected_index == pre.queue.selected_index
                &&& post.queue.scroll_offset == pre.queue.scroll_offset
                &&& post.queue.current_index == (match pre.queue.current_index {
                    Some(ci) => if post.queue.tracks@.len() == 0 {
                        Option::<usize>::None
                    } else if idx < ci {
                        Option::<usize>::Some((ci - 1) as usize)
                    } else if idx == ci && ci >= post.queue.tracks@.len() {
                        Option::<usize>::Some((post.queue.tracks@.len() - 1) as usize)
                    } else {
                        Option::<usize>::Some(ci)
                    },
                    None => Option::<usize>::None,
                })
            } else {
                post == pre
            }
            &&& eff.len() == 0
        },
        AppAction::PlayQueueIndex(idx) => {
            if idx < pre.queue.tracks@.len() {
                advance_post(pre, idx as int, post, eff)
            } else {
                post == pre && eff.len() == 0
            }
        },
        AppAction::UpdatePosition { position_ms, duration_ms } => {
            &&& post == (App {
                playback: PlaybackState {
                    position_ms: position_ms,
                    duration_ms: if duration_ms > 0 {
                        duration_ms
                    } else {
                        pre.playback.duration_ms
                    },
                    ..pre.playback
                },
                ..pre
            })
            &&& eff.len() == 0
        },
        AppAction::SetQueueSelection(idx) => {
            &&& if idx < pre.queue.tracks@.len() {
                post == (App {
                    queue: QueueState { selected_index: idx, ..pre.queue },
                    ..pre
                })
            } else {
                post == pre
            }
            &&& eff.len() == 0
        },
        AppAction::AddToPlaylist { playlist_idx, track_idx } => {
            &&& if playlist_idx < pre.playlists@.len() && !pre.playlists@[playlist_idx as int].tracks@.contains(track_idx) {
                &&& post == (App { playlists: post.playlists, ..pre })
                &&& post.playlists@.len() == pre.playlists@.len()
                &&& forall|i: int|
                    0 <= i < pre.playlists@.len() && i != playlist_idx ==> post.playlists@[i]
                        == pre.playlists@[i]
                &&& post.playlists@[playlist_idx as int].name == pre.playlists@[playlist_idx as int].name
                &&& post.playlists@[playlist_idx as int].tracks@ == pre.playlists@[playlist_idx as int].tracks@.push(track_idx)
            } else {
                post == pre
            }
            &&& eff.len() == 0
        },
        AppAction::RemoveFromPlaylist { playlist_idx, track_idx } => {
            &&& if playlist_idx < pre.playlists@.len() {
                &&& post == (App { playlists: post.playlists, ..pre })
                &&& post.playlists@.len() == pre.playlists@.len()
                &&& forall|i: int|
                    0 <= i < pre.playlists@.len() && i != playlist_idx ==> post.playlists@[i]
                        == pre.playlists@[i]
                &&& post.playlists@[playlist_idx as int].name == pre.playlists@[playlist_idx as int].name
                &&& post.playlists@[playlist_idx as int].tracks@ == pre.playlists@[playlist_idx as int].tracks@.filter(|x: usize| x != track_idx)
            } else {
                post == pre
            }
            &&& eff.len() == 0
        },
        AppAction::CreatePlaylist(name) => {
            &&& post == (App { playlists: post.playlists, ..pre })
            &&& post.playlists@.len() == pre.playlists@.len() + 1
            &&& post.playlists@.take(pre.playlists@.len() as int) == pre.playlists@
            &&& post.playlists@.last().name == name
            &&& post.playlists@.last().tracks@.len() == 0
            &&& eff.len() == 0
        },
        AppAction::DeletePlaylist(idx) => {
            &&& if idx < pre.playlists@.len() {
                &&& post == (App { playlists: post.playlists, ..pre })
                &&& post.playlists@ == pre.playlists@.remove(idx as int)
            } else {
                post == pre
            }
            &&& eff.len() == 0
        },
        AppAction::RenamePlaylist { idx, name } => {
            &&& if idx < pre.playlists@.len() {
                &&& post == (App { playlists: post.playlists, ..pre })
                &&& post.playlists@.len() == pre.playlists@.len()
                &&& forall|i: int|
                    0 <= i < pre.playlists@.len() && i != idx ==> post.playlists@[i]
                        == pre.playlists@[i]
                &&& post.playlists@[idx as int].name == name
                &&& post.playlists@[idx as int].tracks == pre.playlists@[idx as int].tracks
            } else {
                post == pre
            }
            &&& eff.len() == 0
        },
        AppAction::LibrarySync => {
            if pre.sync_state == SyncState::Scanning || !pre.initial_scan_complete {
                post == pre && eff.len() == 0
            } else {
                &&& post == (App { sync_state: SyncState::Scanning, ..pre })
                &&& eff.len() == 1
                &&& eff[0] == Effect::StartScan
            }
        },
    }
}

/// The bounds an action's payload must respect before the reducer may see
/// it: new queue entries and playlist additions must point into the current
/// snapshot.
pub open spec fn action_wf(action: AppAction, pre: App) -> bool {
    match action {
        AppAction::AddToQueue(v) => forall|i: int|
            0 <= i < v@.len() ==> (#[trigger] v@[i]) < lib_len(pre),
        AppAction::AddToPlaylist { playlist_idx, track_idx } => playlist_idx
            < pre.playlists@.len() ==> track_idx < lib_len(pre),
        _ => true,
    }
}

/// The path of the track being played, read through the queue.
pub open spec fn playing_path(pre: App) -> Option<Seq<char>> {
    match pre.queue.current_index {
        Some(qi) => if qi < pre.queue.tracks@.len() && pre.queue.tracks@[qi as int] < lib_len(pre) {
            Some(pre.library.tracks@[pre.queue.tracks@[qi as int] as int].path@)
        } else {
            None
        },
        None => None,
    }
}

/// Where the previously playing track stands in the rewritten queue:
/// absent when nothing was playing, when its file is gone from the new
/// snapshot, or when the rewritten queue no longer references it.
pub open spec fn new_current_of(pre: App, nl: Library, new_q: Seq<usize>) -> Option<usize> {
    match playing_path(pre) {
        Some(pp) => match crate::sync::spec_path_index(nl.tracks@, pp) {
            Some(nti) => match crate::sync::first_pos_of(new_q, nti as usize) {
                Some(k) => Some(k as usize),
                None => None,
            },
            None => None,
        },
        None => None,
    }
}

/// A cursor clamped to a collection of `len` entries.
pub open spec fn clamp_cursor(c: int, len: int) -> int {
    if len == 0 {
        0
    } else if c > len - 1 {
        len - 1
    } else {
        c
    }
}

/// `r` is exactly the increasing list of indices of tracks matching `q`.
pub open spec fn search_results_ok(r: Seq<usize>, q: Seq<char>, tracks: Seq<Track>) -> bool {
    &&& forall|k: int|
        0 <= k < r.len() ==> (#[trigger] r[k]) < tracks.len() && crate::library::query_matches(
            q,
            tracks[r[k] as int],
        )
    &&& forall|i: int|
        0 <= i < tracks.len() && crate::library::query_matches(q, #[trigger] tracks[i])
            ==> exists|k: int| 0 <= k < r.len() && r[k] == i
    &&& forall|k1: int, k2: int| 0 <= k1 < k2 < r.len() ==> r[k1] < r[k2]
}

/// Everything the snapshot swap guarantees: the new snapshot is canonical,
/// the queue and every playlist are rewritten by path identity, the playing
/// position follows its path or is cleared, cursors are clamped, an active
/// search is re-run, and the synchronizer is idle again.
pub open spec fn replace_post(pre: App, nl: Library, post: App) -> bool {
    let ol = pre.library.tracks@;
    &&& post == (App {
        library: post.library,
        queue: post.queue,
        playlists: post.playlists,
        search_results: post.search_results,
        sync_state: SyncState::Idle,
        ..pre
    })
    &&& post.library == nl
    &&& indices_view(post.queue.tracks@) == crate::sync::remap_indices(
        ol,
        nl.tracks@,
        pre.queue.tracks@,
    )
    &&& post.queue.current_index == new_current_of(pre, nl, post.queue.tracks@)
    &&& post.queue.selected_index == clamp_cursor(
        pre.queue.selected_index as int,
        post.queue.tracks@.len() as int,
    )
    &&& post.queue.scroll_offset == clamp_cursor(
        pre.queue.scroll_offset as int,
        post.queue.tracks@.len() as int,
    )
    &&& post.playlists@.len() == pre.playlists@.len()
    &&& forall|k: int|
        0 <= k < pre.playlists@.len() ==> (#[trigger] post.playlists@[k]).name
            == pre.playlists@[k].name && indices_view(post.playlists@[k].tracks@)
            == crate::sync::remap_indices(ol, nl.tracks@, pre.playlists@[k].tracks@)
    &&& if pre.search_query@.len() > 0 {
        search_results_ok(post.search_results@, pre.search_query@, nl.tracks@)
    } else {
        post.search_results == pre.search_results
    }
}

/// After any snapshot swap, every queue entry points into the new snapshot:
/// the remap never leaves a dangling index behind.
pub proof fn lemma_remap_keeps_queue_in_range(pre: App, nl: Library, post: App)
    requires
        replace_post(pre, nl, post),
    ensures
        forall|k: int|
            0 <= k < post.queue.tracks@.len() ==> (#[trigger] post.queue.tracks@[k])
                < nl.tracks@.len(),
{
    crate::sync::lemma_remap_in_range(pre.library.tracks@, nl.tracks@, pre.queue.tracks@);
    assert forall|k: int| 0 <= k < post.queue.tracks@.len() implies (
    #[trigger] post.queue.tracks@[k]) < nl.tracks@.len() by {
        assert(post.queue.tracks@[k] as int == indices_view(post.queue.tracks@)[k]);
    }
}

/// Remap round-trip: when the new snapshot holds exactly the old snapshot's
/// paths — however reordered — the queue points at the same set of paths
/// after the swap as before it.
pub proof fn lemma_remap_round_trip(pre: App, nl: Library, post: App)
    requires
        pre.wf(),
        replace_post(pre, nl, post),
        crate::sync::paths_of(nl.tracks@) == crate::sync::paths_of(pre.library.tracks@),
    ensures
        crate::sync::referenced_paths(post.queue.tracks@, nl.tracks@)
            == crate::sync::referenced_paths(pre.queue.tracks@, pre.library.tracks@),
{
    let ol = pre.library.tracks@;
    let q = pre.queue.tracks@;
    crate::sync::lemma_remap_referenced(ol, nl.tracks@, q, post.queue.tracks@);
    crate::sync::lemma_referenced_subset(q, ol);
    assert(crate::sync::referenced_paths(q, ol).intersect(crate::sync::paths_of(nl.tracks@))
        =~= crate::sync::referenced_paths(q, ol));
}

/// Remap deletion: when the playing track's file is gone from the new
/// snapshot — and nothing else changed — the playing position is cleared,
/// and the queue keeps exactly the other referenced paths.
pub proof fn lemma_remap_deletion(pre: App, nl: Library, post: App)
    requires
        pre.wf(),
        replace_post(pre, nl, post),
        playing_path(pre) is Some,
        crate::sync::paths_of(nl.tracks@) == crate::sync::paths_of(pre.library.tracks@).remove(
            playing_path(pre)->0,
        ),
    ensures
        post.queue.current_index is None,
        crate::sync::referenced_paths(post.queue.tracks@, nl.tracks@)
            == crate::sync::referenced_paths(pre.queue.tracks@, pre.library.tracks@).remove(
            playing_path(pre)->0,
        ),
{
    let ol = pre.library.tracks@;
    let q = pre.queue.tracks@;
    let pp = playing_path(pre)->0;
    assert(!crate::sync::paths_of(nl.tracks@).contains(pp));
    crate::sync::lemma_path_index_char(nl.tracks@, pp);
    match crate::sync::spec_path_index(nl.tracks@, pp) {
        Some(ni) => {
            assert(crate::sync::paths_of(nl.tracks@).contains(pp)) by {
                assert(nl.tracks@[ni].path@ == pp);
            }
        },
        None => {},
    }
    crate::sync::lemma_remap_referenced(ol, nl.tracks@, q, post.queue.tracks@);
    crate::sync::lemma_referenced_subset(q, ol);
    assert(crate::sync::referenced_paths(q, ol).intersect(crate::sync::paths_of(nl.tracks@))
        =~= crate::sync::referenced_paths(q, ol).remove(pp));
}

/// Relies on rand's thread_rng and Rng::gen_range: a uniformly random value
/// in `[0, n)`; nothing but the bound is assumed of it.
#[verifier::external_body]
fn random_below(n: usize) -> (r: usize)
    requires
        n >= 1,
    ensures
        r < n,
{
    rand::thread_rng().gen_range(0..n)
}

impl App {
    /// Starts snapshot track `ti` from zero, ignoring an out-of-range index.
    fn do_play_track(&mut self, ti: usize) -> (eff: Vec<Effect>)
        requires
            old(self).wf(),
        ensures
            final(self).wf(),
            play_track_post(*old(self), ti as int, *final(self), eff@),
    {
        if ti < self.library.tracks.len() {
            let path = self.library.tracks[ti].path.clone();
            let dur = self.library.tracks[ti].duration_ms;
            self.playback.state = PlayState::Playing;
            self.playback.position_ms = 0;
            self.playback.duration_ms = dur;
            self.track_just_changed = true;
            let mut eff: Vec<Effect> = Vec::new();
            eff.push(Effect::Player(PlayerCommand::Play(path)));
            eff
        } else {
            Vec::new()
        }
    }

    /// Moves the playing position to queue entry `t` and starts its track.
    fn do_advance(&mut self, t: usize) -> (eff: Vec<Effect>)
        requires
            old(self).wf(),
            t < old(self).queue.tracks@.len(),
        ensures
            final(self).wf(),
            advance_post(*old(self), t as int, *final(self), eff@),
    {
        self.queue.current_index = Some(t);
        let ti = self.queue.tracks[t];
        self.do_play_track(ti)
    }

    /// Advances to the next track; see [`play_next_post`].
    fn do_play_next(&mut self) -> (eff: Vec<Effect>)
        requires
            old(self).wf(),
        ensures
            final(self).wf(),
            play_next_post(*old(self), *final(self), eff@),
    {
        if self.queue.tracks.len() == 0 {
            return Vec::new();
        }
        match self.playback.repeat {
            RepeatMode::One => {
                match self.queue.current_index {
                    Some(idx) => self.do_advance(idx),
                    None => Vec::new(),
                }
            },
            _ => {
                if self.playback.shuffle {
                    let k = random_below(self.queue.tracks.len());
                    let eff = self.do_advance(k);
                    proof {
                        assert(advance_post(*old(self), k as int, *self, eff@));
                    }
                    eff
                } else {
                    match self.queue.current_index {
                        Some(idx) => {
                            if idx + 1 < self.queue.tracks.len() {
                                self.do_advance(idx + 1)
                            } else if self.playback.repeat == RepeatMode::All {
                                self.do_advance(0)
                            } else {
                                self.playback.state = PlayState::Stopped;
                                self.playback.position_ms = 0;
                                Vec::new()
                            }
                        },
                        None => self.do_advance(0),
                    }
                }
            },
        }
    }

    /// Steps back to the previous track; see [`play_prev_post`].
    fn do_play_prev(&mut self) -> (eff: Vec<Effect>)
        requires
            old(self).wf(),
        ensures
            final(self).wf(),
            play_prev_post(*old(self), *final(self), eff@),
    {
        if self.queue.tracks.len() == 0 {
            return Vec::new();
        }
        if self.playback.position_ms > 3000 {
            match self.queue.current_index {
                Some(idx) => {
                    let ti = self.queue.tracks[idx];
                    let path = self.library.tracks[ti].path.clone();
                    let dur = self.library.tracks[ti].duration_ms;
                    self.playback.position_ms = 0;
                    self.playback.duration_ms = dur;
                    self.track_just_changed = true;
                    let mut eff: Vec<Effect> = Vec::new();
                    eff.push(Effect::Player(PlayerCommand::Play(path)));
                    return eff;
                },
                None => {},
            }
        }
        let prev: usize = match self.queue.current_index {
            Some(idx) => {
                if idx > 0 {
                    idx - 1
                } else if self.playback.repeat == RepeatMode::All {
                    self.queue.tracks.len() - 1
                } else {
                    0
                }
            },
            None => 0,
        };
        self.do_advance(prev)
    }

    /// Clamps and applies a volume, forwarding it to the worker.
    fn do_set_volume(&mut self, v: u8) -> (eff: Vec<Effect>)
        requires
            old(self).wf(),
        ensures
            final(self).wf(),
            set_volume_post(*old(self), v, *final(self), eff@),
    {
        let cv = if v > VOLUME_MAX {
            VOLUME_MAX
        } else {
            v
        };
        self.playback.volume = cv;
        let mut eff: Vec<Effect> = Vec::new();
        eff.push(Effect::Player(PlayerCommand::SetVolume(cv)));
        eff
    }

    /// Clamps a seek target to the track and applies it.
    fn do_seek(&mut self, target: i64) -> (eff: Vec<Effect>)
        requires
            old(self).wf(),
        ensures
            final(self).wf(),
            seek_post(*old(self), target as int, *final(self), eff@),
    {
        let cp: u64 = if target < 0 {
            0
        } else if self.playback.duration_ms <= i64::MAX as u64 && target
            > self.playback.duration_ms as i64 {
            self.playback.duration_ms
        } else {
            target as u64
        };
        self.playback.position_ms = cp;
        let mut eff: Vec<Effect> = Vec::new();
        eff.push(Effect::Player(PlayerCommand::Seek(cp)));
        eff
    }

    /// Applies one action atomically and returns the effects to carry out.
    #[verifier::rlimit(100)]
    pub fn handle_action(&mut self, action: AppAction) -> (eff: Vec<Effect>)
        requires
            old(self).wf(),
            action_wf(action, *old(self)),
        ensures
            final(self).wf(),
            step(*old(self), action, *final(self), eff@),
    {
        match action {
            AppAction::Quit => {
                self.should_quit = true;
                let mut eff: Vec<Effect> = Vec::new();
                eff.push(Effect::Player(PlayerCommand::Stop));
                eff
            },
            AppAction::PlayTrack(ti) => self.do_play_track(ti),
            AppAction::PauseResume => {
                match self.playback.state {
                    PlayState::Playing => {
                        self.playback.state = PlayState::Paused;
                        let mut eff: Vec<Effect> = Vec::new();
                        eff.push(Effect::Player(PlayerCommand::Pause));
                        eff
                    },
                    PlayState::Paused => {
                        self.playback.state = PlayState::Playing;
                        let mut eff: Vec<Effect> = Vec::new();
                        eff.push(Effect::Player(PlayerCommand::Resume));
                        eff
                    },
                    PlayState::Stopped => {
                        match self.queue.current_index {
                            Some(qi) => {
                                if qi < self.queue.tracks.len() {
                                    let ti = self.queue.tracks[qi];
                                    self.do_play_track(ti)
                                } else {
                                    Vec::new()
                                }
                            },
                            None => Vec::new(),
                        }
                    },
                }
            },
            AppAction::NextTrack => self.do_play_next(),
            AppAction::TrackFinished => self.do_play_next(),
            AppAction::PrevTrack => self.do_play_prev(),
            AppAction::SetVolume(v) => self.do_set_volume(v),
            AppAction::VolumeUp => {
                let v = if self.playback.volume + VOLUME_STEP > VOLUME_MAX {
                    VOLUME_MAX
                } else {
                    self.playback.volume + VOLUME_STEP
                };
                self.do_set_volume(v)
            },
            AppAction::VolumeDown => {
                let v = if self.playback.volume >= VOLUME_STEP {
                    self.playback.volume - VOLUME_STEP
                } else {
                    0
                };
                self.do_set_volume(v)
            },
            AppAction::Seek(t) => self.do_seek(t),
            AppAction::SeekForward => {
                let pos = self.playback.position_ms;
                let target: i64 = if pos <= i64::MAX as u64 - 5000 {
                    (pos + 5000) as i64
                } else {
                    i64::MAX
                };
                self.do_seek(target)
            },
            AppAction::SeekBackward => {
                let pos = self.playback.position_ms;
                let target: i64 = if pos >= 5000 {
                    if pos - 5000 <= i64::MAX as u64 {
                        (pos - 5000) as i64
                    } else {
                        i64::MAX
                    }
                } else {
                    -((5000 - pos) as i64)
                };
                self.do_seek(target)
            },
            AppAction::ToggleShuffle => {
                self.playback.shuffle = !self.playback.shuffle;
                Vec::new()
            },
            AppAction::CycleRepeat => {
                self.playback.repeat = self.playback.repeat.next();
                Vec::new()
            },
            AppAction::SwitchTab(t) => {
                self.tab = t;
                Vec::new()
            },
            AppAction::FocusNext => {
                self.focus = self.focus.next();
                Vec::new()
            },
            AppAction::FocusPrev => {
                self.focus = self.focus.prev();
                Vec::new()
            },
            AppAction::FocusPane(p) => {
                self.focus = p;
                Vec::new()
            },
            AppAction::AddToQueue(v) => {
                let empty = v.len() == 0;
                self.queue.tracks = v;
                self.queue.current_index = if empty {
                    None
                } else {
                    Some(0)
                };
                self.queue.selected_index = 0;
                self.queue.scroll_offset = 0;
                Vec::new()
            },
            AppAction::ClearQueue => {
                self.queue.tracks = Vec::new();
                self.queue.current_index = None;
                self.queue.selected_index = 0;
                self.queue.scroll_offset = 0;
                Vec::new()
            },
            AppAction::RemoveFromQueue(idx) => {
                if idx < self.queue.tracks.len() {
                    self.queue.tracks.remove(idx);
                    if self.queue.tracks.len() == 0 {
                        self.queue.current_index = None;
                    } else {
                        match self.queue.current_index {
                            Some(ci) => {
                                if idx < ci {
                                    self.queue.current_index = Some(ci - 1);
                                } else if idx == ci && ci >= self.queue.tracks.len() {
                                    self.queue.current_index = Some(self.queue.tracks.len() - 1);
                                }
                            },
                            None => {},
                        }
                    }
                }
                Vec::new()
            },
            AppAction::PlayQueueIndex(idx) => {
                if idx < self.queue.tracks.len() {
                    self.do_advance(idx)
                } else {
                    Vec::new()
                }
            },
            AppAction::UpdatePosition { position_ms, duration_ms } => {
                self.playback.position_ms = position_ms;
                if duration_ms > 0 {
                    self.playback.duration_ms = duration_ms;
                }
                Vec::new()
            },
            AppAction::SetQueueSelection(idx) => {
                if idx < self.queue.tracks.len() {
                    self.queue.selected_index = idx;
                }
                Vec::new()
            },
            AppAction::AddToPlaylist { playlist_idx, track_idx } => {
                if playlist_idx < self.playlists.len() {
                    if !contains_usize(&self.playlists[playlist_idx].tracks, track_idx) {
                        let ghost pls_old = self.playlists@;
                        let pl = &mut self.playlists[playlist_idx];
                        pl.tracks.push(track_idx);
                        proof {
                            assert(self.playlists@[playlist_idx as int].tracks@
                                =~= pls_old[playlist_idx as int].tracks@.push(track_idx));
                        }
                    }
                }
                Vec::new()
            },
            AppAction::RemoveFromPlaylist { playlist_idx, track_idx } => {
                if playlist_idx < self.playlists.len() {
                    let ghost pls_old = self.playlists@;
                    let pl = &mut self.playlists[playlist_idx];
                    retain_not_equal(&mut pl.tracks, track_idx);
                }
                Vec::new()
            },
            AppAction::CreatePlaylist(name) => {
                let ghost pls_old = self.playlists@;
                self.playlists.push(Playlist::new(name));
                proof {
                    assert(self.playlists@.take(pls_old.len() as int) =~= pls_old);
                }
                Vec::new()
            },
            AppAction::DeletePlaylist(idx) => {
                if idx < self.playlists.len() {
                    self.playlists.remove(idx);
                }
                Vec::new()
            },
            AppAction::RenamePlaylist { idx, name } => {
                if idx < self.playlists.len() {
                    let pl = &mut self.playlists[idx];
                    pl.name = name;
                }
                Vec::new()
            },
            AppAction::LibrarySync => {
                if self.sync_state == SyncState::Scanning || !self.initial_scan_complete {
                    Vec::new()
                } else {
                    self.sync_state = SyncState::Scanning;
                    let mut eff: Vec<Effect> = Vec::new();
                    eff.push(Effect::StartScan);
                    eff
                }
            },
        }
    }

    /// Replaces the canonical snapshot with a freshly scanned one, re-pointing
    /// every index-based reference by path identity; see [`replace_post`].
    #[verifier::rlimit(100)]
    pub fn replace_library(&mut self, new_lib: Library)
        requires
            old(self).wf(),
        ensures
            final(self).wf(),
            replace_post(*old(self), new_lib, *final(self)),
    {
        let ghost ol = self.library.tracks@;
        let ghost nl = new_lib.tracks@;

        // Rewrite the queue by path identity.
        let new_queue = crate::sync::remap_vec(&self.library, &new_lib, &self.queue.tracks);

        // Capture the playing track's path before any reference moves.
        let playing: Option<String> = match self.queue.current_index {
            Some(qi) => {
                if qi < self.queue.tracks.len() {
                    let ti = self.queue.tracks[qi];
                    if ti < self.library.tracks.len() {
                        Some(self.library.tracks[ti].path.clone())
                    } else {
                        None
                    }
                } else {
                    None
                }
            },
            None => None,
        };

        // The playing track's position within the rewritten queue, if its
        // file still exists.
        let new_current: Option<usize> = match &playing {
            Some(pp) => {
                match new_lib.path_to_index(pp.as_str()) {
                    Some(nti) => {
                        proof {
                            crate::sync::lemma_path_index_agrees(nl, pp@, Some(nti));
                        }
                        crate::sync::find_first_pos(&new_queue, nti)
                    },
                    None => {
                        proof {
                            crate::sync::lemma_path_index_agrees(nl, pp@, None::<usize>);
                        }
                        None
                    },
                }
            },
            None => None,
        };

        self.queue.tracks = new_queue;
        self.queue.current_index = new_current;
        let qlen = self.queue.tracks.len();
        if qlen == 0 {
            self.queue.selected_index = 0;
            self.queue.scroll_offset = 0;
        } else {
            if self.queue.selected_index > qlen - 1 {
                self.queue.selected_index = qlen - 1;
            }
            if self.queue.scroll_offset > qlen - 1 {
                self.queue.scroll_offset = qlen - 1;
            }
        }

        // Rewrite every playlist the same way.
        let ghost mid = *self;
        let mut k: usize = 0;
        while k < self.playlists.len()
            invariant
                k <= self.playlists@.len(),
                *self == (App { playlists: self.playlists, ..mid }),
                self.playlists@.len() == mid.playlists@.len(),
                self.library.tracks@ == ol,
                forall|j: int|
                    0 <= j < k ==> (#[trigger] self.playlists@[j]).name == mid.playlists@[j].name
                        && indices_view(self.playlists@[j].tracks@) == crate::sync::remap_indices(
                        ol,
                        nl,
                        mid.playlists@[j].tracks@,
                    ) && forall|m: int|
                        0 <= m < self.playlists@[j].tracks@.len() ==> (#[trigger] self.playlists@[j].tracks@[m]) < nl.len(),
                forall|j: int|
                    k <= j < self.playlists@.len() ==> (#[trigger] self.playlists@[j])
                        == mid.playlists@[j],
                nl == new_lib.tracks@,
            decreases self.playlists@.len() - k,
        {
            let remapped = crate::sync::remap_vec(&self.library, &new_lib, &self.playlists[k].tracks);
            let pl = &mut self.playlists[k];
            pl.tracks = remapped;
            k += 1;
        }

        // Refresh an active search against the new snapshot.
        if self.search_query.as_str().unicode_len() > 0 {
            self.search_results = new_lib.search(self.search_query.as_str());
        }

        // Publish the new snapshot only now, with every reference rewritten.
        self.library = new_lib;
        self.sync_state = SyncState::Idle;
    }

    /// The track being played, when one is.
    pub fn current_track(&self) -> (r: Option<&crate::track::Track>)
        requires
            self.wf(),
        ensures
            match self.queue.current_index {
                Some(qi) => r is Some && *r->0 == self.library.tracks@[self.queue.tracks@[qi as int] as int],
                None => r is None,
            },
    {
        match self.queue.current_index {
            Some(qi) => Some(&self.library.tracks[self.queue.tracks[qi]]),
            None => None,
        }
    }
}

/// Moves the queue's selection cursor one entry down or up, staying within
/// the queue; an empty queue leaves it untouched.
pub fn update_queue_selection(app: &mut App, down: bool)
    ensures
        ({
            let count = old(app).queue.tracks@.len();
            let sel = old(app).queue.selected_index as int;
            let new_sel: int = if count == 0 {
                sel
            } else if down && sel < count - 1 {
                sel + 1
            } else if !down && sel > 0 {
                sel - 1
            } else {
                sel
            };
            *final(app) == (App {
                queue: QueueState { selected_index: new_sel as usize, ..old(app).queue },
                ..*old(app)
            })
        }),
{
    let count = app.queue.tracks.len();
    if count == 0 {
        return;
    }
    if down {
        if app.queue.selected_index < count - 1 {
            app.queue.selected_index = app.queue.selected_index + 1;
        }
    } else {
        if app.queue.selected_index > 0 {
            app.queue.selected_index = app.queue.selected_index - 1;
        }
    }
}

/// Whether `v` holds `x`.
fn contains_usize(v: &Vec<usize>, x: usize) -> (r: bool)
    ensures
        r == v@.contains(x),
{
    let mut i: usize = 0;
    while i < v.len()
        invariant
            i <= v@.len(),
            forall|j: int| 0 <= j < i ==> v@[j] != x,
        decreases v@.len() - i,
    {
        if v[i] == x {
            return true;
        }
        i += 1;
    }
    false
}

/// Removes every occurrence of `x` from `v`, keeping the order.
fn retain_not_equal(v: &mut Vec<usize>, x: usize)
    ensures
        final(v)@ == old(v)@.filter(|y: usize| y != x),
        forall|j: int| 0 <= j < final(v)@.len() ==> old(v)@.contains(#[trigger] final(v)@[j]),
{
    let ghost orig = v@;
    let mut out: Vec<usize> = Vec::new();
    let mut i: usize = 0;
    while i < v.len()
        invariant
            i <= orig.len(),
            v@ == orig,
            out@ == orig.take(i as int).filter(|y: usize| y != x),
            forall|j: int| 0 <= j < out@.len() ==> orig.contains(#[trigger] out@[j]),
        decreases orig.len() - i,
    {
        let e = v[i];
        if e != x {
            out.push(e);
            proof {
                assert(orig[i as int] == orig.take(i + 1).last());
                assert(orig.contains(orig[i as int]));
            }
        }
        proof {
            reveal(Seq::filter);
            assert(orig.take(i + 1).drop_last() =~= orig.take(i as int));
            assert(orig.take(i + 1).last() == orig[i as int]);
        }
        i += 1;
    }
    proof {
        reveal(Seq::filter);
        assert(orig.take(orig.len() as int) =~= orig);
    }
    *v = out;
}

} // verus!
