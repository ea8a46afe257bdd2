use ommp::app::{App, AppAction};
use ommp::library::Library;
use ommp::state::SyncState;
use ommp::track::Track;

fn track(path: &str, title: &str) -> Track {
    Track {
        path: path.to_string(),
        title: title.to_string(),
        artist: String::new(),
        album: String::new(),
        album_artist: String::new(),
        genre: String::new(),
        track_number: None,
        duration_ms: 100_000,
        bitrate: None,
        lyrics: None,
    }
}

fn app_with_library(paths: &[&str]) -> App {
    let mut app = App::new(".".to_string());
    app.library = Library { tracks: paths.iter().map(|p| track(p, p)).collect() };
    let indices: Vec<usize> = (0..paths.len()).collect();
    app.handle_action(AppAction::AddToQueue(indices));
    app
}

#[test]
fn remap_keeps_indices_in_range() {
    let mut app = app_with_library(&["a.mp3", "b.mp3", "c.mp3"]);
    // The new snapshot drops one file and adds another.
    let new_lib = Library { tracks: vec![track("c.mp3", "c"), track("d.mp3", "d")] };
    app.replace_library(new_lib);
    assert_eq!(app.library.tracks.len(), 2);
    for &i in &app.queue.tracks {
        assert!(i < app.library.tracks.len());
    }
}

#[test]
fn remap_round_trip_keeps_paths_over_reordering() {
    let mut app = app_with_library(&["a.mp3", "b.mp3", "c.mp3"]);
    app.handle_action(AppAction::PlayQueueIndex(1));
    // Same path set, different order.
    let new_lib = Library {
        tracks: vec![track("c.mp3", "c"), track("a.mp3", "a"), track("b.mp3", "b")],
    };
    app.replace_library(new_lib);
    let mut referenced: Vec<String> = app
        .queue
        .tracks
        .iter()
        .map(|&i| app.library.tracks[i].path.clone())
        .collect();
    referenced.sort();
    assert_eq!(referenced, vec!["a.mp3", "b.mp3", "c.mp3"]);
    // Indices changed, but the playing track is still b.mp3.
    let ci = app.queue.current_index.unwrap();
    assert_eq!(app.library.tracks[app.queue.tracks[ci]].path, "b.mp3");
}

#[test]
fn remap_deletion_clears_current_and_keeps_rest() {
    let mut app = app_with_library(&["a.mp3", "b.mp3", "c.mp3"]);
    app.handle_action(AppAction::PlayQueueIndex(1));
    // The playing file b.mp3 is gone from disk.
    let new_lib = Library { tracks: vec![track("a.mp3", "a"), track("c.mp3", "c")] };
    app.replace_library(new_lib);
    assert_eq!(app.queue.current_index, None);
    let referenced: Vec<String> = app
        .queue
        .tracks
        .iter()
        .map(|&i| app.library.tracks[i].path.clone())
        .collect();
    assert_eq!(referenced, vec!["a.mp3", "c.mp3"]);
}

#[test]
fn remap_rewrites_playlists_by_path() {
    let mut app = app_with_library(&["a.mp3", "b.mp3", "c.mp3"]);
    app.handle_action(AppAction::AddToPlaylist { playlist_idx: 0, track_idx: 0 });
    app.handle_action(AppAction::AddToPlaylist { playlist_idx: 0, track_idx: 2 });
    assert_eq!(app.playlists[0].tracks, vec![0, 2]);
    let new_lib = Library {
        tracks: vec![track("c.mp3", "c"), track("b.mp3", "b"), track("a.mp3", "a")],
    };
    app.replace_library(new_lib);
    let referenced: Vec<String> = app.playlists[0]
        .tracks
        .iter()
        .map(|&i| app.library.tracks[i].path.clone())
        .collect();
    assert_eq!(referenced, vec!["a.mp3", "c.mp3"]);
}

#[test]
fn remap_drops_deleted_playlist_entries() {
    let mut app = app_with_library(&["a.mp3", "b.mp3"]);
    app.handle_action(AppAction::AddToPlaylist { playlist_idx: 0, track_idx: 0 });
    app.handle_action(AppAction::AddToPlaylist { playlist_idx: 0, track_idx: 1 });
    let new_lib = Library { tracks: vec![track("b.mp3", "b")] };
    app.replace_library(new_lib);
    assert_eq!(app.playlists[0].tracks, vec![0]);
    assert_eq!(app.library.tracks[0].path, "b.mp3");
}

#[test]
fn remap_clamps_cursors_and_goes_idle() {
    let mut app = app_with_library(&["a.mp3", "b.mp3", "c.mp3"]);
    app.handle_action(AppAction::SetQueueSelection(2));
    app.sync_state = SyncState::Scanning;
    let new_lib = Library { tracks: vec![track("a.mp3", "a")] };
    app.replace_library(new_lib);
    assert_eq!(app.queue.selected_index, 0);
    assert_eq!(app.queue.scroll_offset, 0);
    assert_eq!(app.sync_state, SyncState::Idle);
}

#[test]
fn remap_tolerates_empty_snapshot() {
    let mut app = app_with_library(&["a.mp3", "b.mp3"]);
    app.handle_action(AppAction::PlayQueueIndex(0));
    let new_lib = Library { tracks: Vec::new() };
    app.replace_library(new_lib);
    assert!(app.queue.tracks.is_empty());
    assert_eq!(app.queue.current_index, None);
    assert_eq!(app.queue.selected_index, 0);
}

#[test]
fn remap_refreshes_active_search() {
    let mut app = app_with_library(&["a.mp3", "b.mp3"]);
    app.search_query = "b".to_string();
    app.search_results = app.library.search("b");
    assert_eq!(app.search_results, vec![1]);
    let new_lib = Library {
        tracks: vec![track("b.mp3", "b"), track("bb.mp3", "bb"), track("a.mp3", "a")],
    };
    app.replace_library(new_lib);
    assert_eq!(app.search_results, vec![0, 1]);
}
