use ommp::app::{App, AppAction, Effect};
use ommp::library::Library;
use ommp::state::{PlayState, RepeatMode};
use ommp::track::Track;
use ommp::worker::PlayerCommand;

fn track(path: &str, title: &str, secs: u64) -> Track {
    Track {
        path: path.to_string(),
        title: title.to_string(),
        artist: String::new(),
        album: String::new(),
        album_artist: String::new(),
        genre: String::new(),
        track_number: None,
        duration_ms: secs * 1000,
        bitrate: None,
        lyrics: None,
    }
}

fn app_with_queue(names: &[&str], secs: u64) -> App {
    let mut app = App::new(".".to_string());
    let tracks: Vec<Track> = names.iter().map(|n| track(n, n, secs)).collect();
    app.library = Library { tracks };
    let indices: Vec<usize> = (0..names.len()).collect();
    app.handle_action(AppAction::AddToQueue(indices));
    app
}

fn is_play_of(e: &Effect, path: &str) -> bool {
    matches!(e, Effect::Player(PlayerCommand::Play(p)) if p == path)
}

#[test]
fn seek_clamps_negative_to_zero() {
    let mut app = app_with_queue(&["a.mp3"], 200);
    app.handle_action(AppAction::PlayTrack(0));
    let eff = app.handle_action(AppAction::Seek(-5000));
    assert_eq!(app.playback.position_ms, 0);
    assert!(matches!(eff[0], Effect::Player(PlayerCommand::Seek(0))));
}

#[test]
fn seek_clamps_past_end_to_duration() {
    let mut app = app_with_queue(&["a.mp3"], 200);
    app.handle_action(AppAction::PlayTrack(0));
    let eff = app.handle_action(AppAction::Seek(9_999_000));
    assert_eq!(app.playback.position_ms, 200_000);
    assert!(matches!(eff[0], Effect::Player(PlayerCommand::Seek(200_000))));
}

#[test]
fn repeat_one_replays_same_position() {
    let mut app = app_with_queue(&["a.mp3", "b.mp3", "c.mp3"], 100);
    app.playback.repeat = RepeatMode::One;
    app.handle_action(AppAction::PlayQueueIndex(0));
    app.playback.position_ms = 42_000;
    let eff = app.handle_action(AppAction::NextTrack);
    assert_eq!(app.queue.current_index, Some(0));
    assert_eq!(app.playback.position_ms, 0);
    assert_eq!(app.playback.state, PlayState::Playing);
    assert!(is_play_of(&eff[0], "a.mp3"));
}

#[test]
fn sequential_end_stops_playback() {
    let mut app = app_with_queue(&["a.mp3", "b.mp3"], 100);
    app.handle_action(AppAction::PlayQueueIndex(1));
    app.playback.position_ms = 50_000;
    let eff = app.handle_action(AppAction::NextTrack);
    assert_eq!(app.playback.state, PlayState::Stopped);
    assert_eq!(app.playback.position_ms, 0);
    assert_eq!(app.queue.current_index, Some(1));
    assert!(eff.is_empty());
}

#[test]
fn sequential_advances_one_position() {
    let mut app = app_with_queue(&["a.mp3", "b.mp3", "c.mp3"], 100);
    app.handle_action(AppAction::PlayQueueIndex(0));
    let eff = app.handle_action(AppAction::NextTrack);
    assert_eq!(app.queue.current_index, Some(1));
    assert!(is_play_of(&eff[0], "b.mp3"));
}

#[test]
fn repeat_all_wraps_to_front() {
    let mut app = app_with_queue(&["a.mp3", "b.mp3"], 100);
    app.playback.repeat = RepeatMode::All;
    app.handle_action(AppAction::PlayQueueIndex(1));
    let eff = app.handle_action(AppAction::NextTrack);
    assert_eq!(app.queue.current_index, Some(0));
    assert!(is_play_of(&eff[0], "a.mp3"));
}

#[test]
fn prev_after_three_seconds_restarts_in_place() {
    let mut app = app_with_queue(&["a.mp3", "b.mp3"], 100);
    app.handle_action(AppAction::PlayQueueIndex(1));
    app.handle_action(AppAction::UpdatePosition { position_ms: 10_000, duration_ms: 0 });
    let eff = app.handle_action(AppAction::PrevTrack);
    assert_eq!(app.queue.current_index, Some(1));
    assert_eq!(app.playback.position_ms, 0);
    assert!(is_play_of(&eff[0], "b.mp3"));
}

#[test]
fn prev_early_steps_back_one() {
    let mut app = app_with_queue(&["a.mp3", "b.mp3"], 100);
    app.handle_action(AppAction::PlayQueueIndex(1));
    app.handle_action(AppAction::UpdatePosition { position_ms: 2_000, duration_ms: 0 });
    let eff = app.handle_action(AppAction::PrevTrack);
    assert_eq!(app.queue.current_index, Some(0));
    assert!(is_play_of(&eff[0], "a.mp3"));
}

#[test]
fn prev_at_front_without_repeat_restarts_front() {
    let mut app = app_with_queue(&["a.mp3", "b.mp3"], 100);
    app.handle_action(AppAction::PlayQueueIndex(0));
    app.handle_action(AppAction::UpdatePosition { position_ms: 1_000, duration_ms: 0 });
    let eff = app.handle_action(AppAction::PrevTrack);
    assert_eq!(app.queue.current_index, Some(0));
    assert!(is_play_of(&eff[0], "a.mp3"));
}

#[test]
fn prev_at_front_with_repeat_all_wraps_to_end() {
    let mut app = app_with_queue(&["a.mp3", "b.mp3", "c.mp3"], 100);
    app.playback.repeat = RepeatMode::All;
    app.handle_action(AppAction::PlayQueueIndex(0));
    let eff = app.handle_action(AppAction::PrevTrack);
    assert_eq!(app.queue.current_index, Some(2));
    assert!(is_play_of(&eff[0], "c.mp3"));
}

#[test]
fn shuffle_next_stays_within_queue() {
    let mut app = app_with_queue(&["a.mp3", "b.mp3", "c.mp3"], 100);
    app.playback.shuffle = true;
    app.handle_action(AppAction::PlayQueueIndex(0));
    for _ in 0..20 {
        let eff = app.handle_action(AppAction::NextTrack);
        let ci = app.queue.current_index.unwrap();
        assert!(ci < 3);
        assert_eq!(app.playback.state, PlayState::Playing);
        assert_eq!(eff.len(), 1);
    }
}

#[test]
fn volume_steps_clamp_at_both_ends() {
    let mut app = App::new(".".to_string());
    app.handle_action(AppAction::SetVolume(98));
    let eff = app.handle_action(AppAction::VolumeUp);
    assert_eq!(app.playback.volume, 100);
    assert!(matches!(eff[0], Effect::Player(PlayerCommand::SetVolume(100))));
    app.handle_action(AppAction::SetVolume(3));
    app.handle_action(AppAction::VolumeDown);
    assert_eq!(app.playback.volume, 0);
}

#[test]
fn set_volume_clamps_over_maximum() {
    let mut app = App::new(".".to_string());
    let eff = app.handle_action(AppAction::SetVolume(250));
    assert_eq!(app.playback.volume, 100);
    assert!(matches!(eff[0], Effect::Player(PlayerCommand::SetVolume(100))));
}

#[test]
fn pause_resume_toggles_state() {
    let mut app = app_with_queue(&["a.mp3"], 100);
    app.handle_action(AppAction::PlayTrack(0));
    let eff = app.handle_action(AppAction::PauseResume);
    assert_eq!(app.playback.state, PlayState::Paused);
    assert!(matches!(eff[0], Effect::Player(PlayerCommand::Pause)));
    let eff = app.handle_action(AppAction::PauseResume);
    assert_eq!(app.playback.state, PlayState::Playing);
    assert!(matches!(eff[0], Effect::Player(PlayerCommand::Resume)));
}

#[test]
fn pause_resume_from_stopped_plays_current() {
    let mut app = app_with_queue(&["a.mp3", "b.mp3"], 100);
    let eff = app.handle_action(AppAction::PauseResume);
    assert_eq!(app.playback.state, PlayState::Playing);
    assert!(is_play_of(&eff[0], "a.mp3"));
}

#[test]
fn quit_stops_the_worker() {
    let mut app = App::new(".".to_string());
    let eff = app.handle_action(AppAction::Quit);
    assert!(app.should_quit);
    assert!(matches!(eff[0], Effect::Player(PlayerCommand::Stop)));
}

#[test]
fn remove_from_queue_adjusts_current() {
    let mut app = app_with_queue(&["a.mp3", "b.mp3", "c.mp3"], 100);
    app.handle_action(AppAction::PlayQueueIndex(2));
    app.handle_action(AppAction::RemoveFromQueue(0));
    assert_eq!(app.queue.tracks, vec![1, 2]);
    assert_eq!(app.queue.current_index, Some(1));
    app.handle_action(AppAction::RemoveFromQueue(1));
    assert_eq!(app.queue.tracks, vec![1]);
    assert_eq!(app.queue.current_index, Some(0));
    app.handle_action(AppAction::RemoveFromQueue(0));
    assert!(app.queue.tracks.is_empty());
    assert_eq!(app.queue.current_index, None);
}

#[test]
fn playlist_lifecycle() {
    let mut app = app_with_queue(&["a.mp3", "b.mp3"], 100);
    app.handle_action(AppAction::CreatePlaylist("Road".to_string()));
    assert_eq!(app.playlists.len(), 2);
    assert_eq!(app.playlists[1].name, "Road");
    app.handle_action(AppAction::AddToPlaylist { playlist_idx: 1, track_idx: 0 });
    app.handle_action(AppAction::AddToPlaylist { playlist_idx: 1, track_idx: 1 });
    app.handle_action(AppAction::AddToPlaylist { playlist_idx: 1, track_idx: 0 });
    assert_eq!(app.playlists[1].tracks, vec![0, 1]);
    app.handle_action(AppAction::RemoveFromPlaylist { playlist_idx: 1, track_idx: 0 });
    assert_eq!(app.playlists[1].tracks, vec![1]);
    app.handle_action(AppAction::RenamePlaylist { idx: 1, name: "Trip".to_string() });
    assert_eq!(app.playlists[1].name, "Trip");
    app.handle_action(AppAction::DeletePlaylist(1));
    assert_eq!(app.playlists.len(), 1);
}

#[test]
fn update_queue_selection_moves_within_bounds() {
    let mut app = app_with_queue(&["a.mp3", "b.mp3"], 100);
    ommp::app::update_queue_selection(&mut app, true);
    assert_eq!(app.queue.selected_index, 1);
    ommp::app::update_queue_selection(&mut app, true);
    assert_eq!(app.queue.selected_index, 1);
    ommp::app::update_queue_selection(&mut app, false);
    assert_eq!(app.queue.selected_index, 0);
    ommp::app::update_queue_selection(&mut app, false);
    assert_eq!(app.queue.selected_index, 0);
}

#[test]
fn library_sync_gates_on_state() {
    let mut app = App::new(".".to_string());
    let eff = app.handle_action(AppAction::LibrarySync);
    assert!(eff.is_empty());
    app.initial_scan_complete = true;
    let eff = app.handle_action(AppAction::LibrarySync);
    assert_eq!(eff.len(), 1);
    assert!(matches!(eff[0], Effect::StartScan));
    let eff = app.handle_action(AppAction::LibrarySync);
    assert!(eff.is_empty());
}

#[test]
fn seek_steps_move_five_seconds() {
    let mut app = app_with_queue(&["a.mp3"], 200);
    app.handle_action(AppAction::PlayTrack(0));
    app.handle_action(AppAction::UpdatePosition { position_ms: 10_000, duration_ms: 0 });
    app.handle_action(AppAction::SeekForward);
    assert_eq!(app.playback.position_ms, 15_000);
    app.handle_action(AppAction::SeekBackward);
    assert_eq!(app.playback.position_ms, 10_000);
    app.handle_action(AppAction::UpdatePosition { position_ms: 2_000, duration_ms: 0 });
    app.handle_action(AppAction::SeekBackward);
    assert_eq!(app.playback.position_ms, 0);
}

#[test]
fn play_track_out_of_range_is_ignored() {
    let mut app = app_with_queue(&["a.mp3"], 100);
    let eff = app.handle_action(AppAction::PlayTrack(5));
    assert!(eff.is_empty());
    assert_eq!(app.playback.state, PlayState::Stopped);
}

#[test]
fn current_track_follows_queue() {
    let mut app = app_with_queue(&["a.mp3", "b.mp3"], 100);
    app.handle_action(AppAction::PlayQueueIndex(1));
    assert_eq!(app.current_track().unwrap().path, "b.mp3");
    app.handle_action(AppAction::ClearQueue);
    assert!(app.current_track().is_none());
}
