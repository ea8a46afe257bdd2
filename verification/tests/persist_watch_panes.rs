use ommp::app::{App, AppAction};
use ommp::library::Library;
use ommp::panes::{ArtistsPane, DirBrowserPane, DirEntry, PlaylistsPane, QueuePane};
use ommp::persist::{export_playlists, restore_saved, resolve_playlists, SavedPlaylist, SavedState};
use ommp::state::RepeatMode;
use ommp::track::Track;
use ommp::watcher::ScanDebounce;

fn track(path: &str) -> Track {
    Track {
        path: path.to_string(),
        title: path.to_string(),
        artist: String::new(),
        album: String::new(),
        album_artist: String::new(),
        genre: String::new(),
        track_number: None,
        duration_ms: 0,
        bitrate: None,
        lyrics: None,
    }
}

#[test]
fn resolve_playlists_drops_missing_paths() {
    let lib = Library { tracks: vec![track("/m/a.mp3"), track("/m/b.mp3")] };
    let saved = vec![SavedPlaylist {
        name: "Mix".to_string(),
        tracks: vec!["/m/b.mp3".to_string(), "/m/gone.mp3".to_string(), "/m/a.mp3".to_string()],
    }];
    let resolved = resolve_playlists(&lib, &saved);
    assert_eq!(resolved.len(), 1);
    assert_eq!(resolved[0].name, "Mix");
    assert_eq!(resolved[0].tracks, vec![1, 0]);
}

#[test]
fn resolve_playlists_empty_creates_bookmarks() {
    let lib = Library { tracks: Vec::new() };
    let resolved = resolve_playlists(&lib, &Vec::new());
    assert_eq!(resolved.len(), 1);
    assert_eq!(resolved[0].name, "Bookmarks");
    assert!(resolved[0].tracks.is_empty());
}

#[test]
fn export_playlists_writes_paths() {
    let mut app = App::new(".".to_string());
    app.library = Library { tracks: vec![track("/m/a.mp3"), track("/m/b.mp3")] };
    app.handle_action(AppAction::AddToPlaylist { playlist_idx: 0, track_idx: 1 });
    app.handle_action(AppAction::AddToPlaylist { playlist_idx: 0, track_idx: 0 });
    let saved = export_playlists(&app);
    assert_eq!(saved.len(), 1);
    assert_eq!(saved[0].name, "Bookmarks");
    assert_eq!(saved[0].tracks, vec!["/m/b.mp3".to_string(), "/m/a.mp3".to_string()]);
}

#[test]
fn restore_saved_applies_settings() {
    let mut app = App::new(".".to_string());
    app.library = Library { tracks: vec![track("/m/a.mp3")] };
    let saved = SavedState {
        volume: 130,
        shuffle: true,
        repeat: "One".to_string(),
        pane_widths: [20, 60, 20],
        playlists: vec![SavedPlaylist {
            name: "Mix".to_string(),
            tracks: vec!["/m/a.mp3".to_string()],
        }],
        info_view: "AlbumArt".to_string(),
        right_split: 50,
    };
    let eff = restore_saved(&mut app, &saved);
    assert_eq!(app.playback.volume, 100);
    assert!(app.playback.shuffle);
    assert_eq!(app.playback.repeat, RepeatMode::One);
    assert_eq!(app.playlists.len(), 1);
    assert_eq!(app.playlists[0].tracks, vec![0]);
    assert_eq!(eff.len(), 1);
}

#[test]
fn debounce_fires_only_after_quiet_period() {
    let mut d = ScanDebounce::start(0);
    d.note_event(1_000);
    // Too soon after the event.
    assert!(!d.on_poll(2_500, false, false));
    // Quiet long enough, nothing pending, no scan running.
    assert!(d.on_poll(3_200, false, false));
}

#[test]
fn debounce_restarts_on_pending_events() {
    let mut d = ScanDebounce::start(0);
    assert!(!d.on_poll(2_500, true, false));
    assert_eq!(d.last_event_ms, 2_500);
    assert!(!d.on_poll(3_000, false, false));
    assert!(d.on_poll(4_600, false, false));
}

#[test]
fn debounce_suppressed_while_scanning() {
    let mut d = ScanDebounce::start(0);
    assert!(!d.on_poll(2_500, false, true));
}

#[test]
fn debounce_stale_events_do_not_fire() {
    let mut d = ScanDebounce::start(0);
    // Far past the window: a rescan for this burst already happened.
    assert!(!d.on_poll(60_000, false, false));
}

#[test]
fn pane_cursors_clamp_to_collection() {
    let mut p = ArtistsPane::new();
    p.selected = 9;
    p.scroll_offset = 7;
    p.clamp_to(3);
    assert_eq!(p.selected, 2);
    assert_eq!(p.scroll_offset, 2);
    p.clamp_to(0);
    assert_eq!(p.selected, 0);
    assert_eq!(p.scroll_offset, 0);

    let mut q = QueuePane::new();
    q.scroll_offset = 5;
    q.clamp_to(2);
    assert_eq!(q.scroll_offset, 1);

    let mut pl = PlaylistsPane::new();
    pl.selected = 1;
    pl.clamp_to(4);
    assert_eq!(pl.selected, 1);
}

#[test]
fn dir_browser_builds_shaped_entries() {
    let mut app = App::new("/m".to_string());
    app.library = Library {
        tracks: vec![track("/m/rock/a.mp3"), track("/m/direct.mp3"), track("/m/jazz/b.mp3")],
    };
    let mut pane = DirBrowserPane::new("/m".to_string());
    pane.refresh(&app);
    // At the root: no parent row, subdirectories first, then the track.
    assert!(matches!(pane.entries[0], DirEntry::Directory(ref n) if n == "jazz"));
    assert!(matches!(pane.entries[1], DirEntry::Directory(ref n) if n == "rock"));
    assert!(matches!(pane.entries[2], DirEntry::Track(1)));
    assert_eq!(pane.entries.len(), 3);

    pane.current_dir = "/m/rock".to_string();
    pane.refresh(&app);
    assert!(matches!(pane.entries[0], DirEntry::ParentDir));
    assert!(matches!(pane.entries[1], DirEntry::Track(0)));
    assert_eq!(pane.entries.len(), 2);
}
