use ommp::library::{scan_admits, Library};
use ommp::track::Track;

fn track(path: &str, title: &str, artist: &str, album: &str, genre: &str) -> Track {
    Track {
        path: path.to_string(),
        title: title.to_string(),
        artist: artist.to_string(),
        album: album.to_string(),
        album_artist: String::new(),
        genre: genre.to_string(),
        track_number: None,
        duration_ms: 0,
        bitrate: None,
        lyrics: None,
    }
}

fn sample_library() -> Library {
    Library {
        tracks: vec![
            track("/m/one.flac", "Hello World", "Alpha", "First", "Rock"),
            track("/m/two.mp3", "Goodbye", "Beta", "Second", "Jazz"),
            track("/m/three.mp3", "World Peace", "ALPHA", "First", "rock"),
        ],
    }
}

#[test]
fn search_empty_query_returns_nothing() {
    assert!(sample_library().search("").is_empty());
}

#[test]
fn search_general_is_case_insensitive() {
    // Matches both titles containing "world", whatever the case.
    assert_eq!(sample_library().search("WORLD"), vec![0, 2]);
}

#[test]
fn search_matches_file_name() {
    assert_eq!(sample_library().search("three"), vec![2]);
}

#[test]
fn search_by_extension() {
    assert_eq!(sample_library().search("*.MP3"), vec![1, 2]);
    assert_eq!(sample_library().search("*.flac"), vec![0]);
}

#[test]
fn search_by_field_with_trimming() {
    assert_eq!(sample_library().search("artist:alpha"), vec![0, 2]);
    // The field name and value survive surrounding spaces.
    assert_eq!(sample_library().search(" artist : beta "), vec![1]);
    assert_eq!(sample_library().search("album:first"), vec![0, 2]);
    assert_eq!(sample_library().search("genre:rock"), vec![0, 2]);
    assert_eq!(sample_library().search("title:goodbye"), vec![1]);
}

#[test]
fn search_unknown_field_falls_back_to_general() {
    // "year:" is no known field; the whole query is searched literally and
    // matches nothing.
    assert!(sample_library().search("year:1999").is_empty());
}

#[test]
fn path_to_index_finds_first_match() {
    let lib = sample_library();
    assert_eq!(lib.path_to_index("/m/two.mp3"), Some(1));
    assert_eq!(lib.path_to_index("/m/missing.mp3"), None);
}

#[test]
fn tracks_by_field_getters() {
    let lib = sample_library();
    assert_eq!(lib.get_tracks_by_artist("Alpha"), vec![0]);
    assert_eq!(lib.get_tracks_by_album("First"), vec![0, 2]);
    assert_eq!(lib.get_tracks_by_genre("Jazz"), vec![1]);
    assert_eq!(lib.get_tracks_by_album_artist(""), vec![0, 1, 2]);
}

#[test]
fn unknown_artist_selects_empty_tags() {
    let lib = Library {
        tracks: vec![
            track("/m/a.mp3", "a", "", "", ""),
            track("/m/b.mp3", "b", "Named", "", ""),
        ],
    };
    assert_eq!(lib.get_tracks_by_artist("Unknown Artist"), vec![0]);
}

#[test]
fn get_artists_sorted_with_unknown_last() {
    let lib = Library {
        tracks: vec![
            track("/m/1.mp3", "t", "Zeta", "", ""),
            track("/m/2.mp3", "t", "", "", ""),
            track("/m/3.mp3", "t", "Alpha", "", ""),
            track("/m/4.mp3", "t", "Zeta", "", ""),
        ],
    };
    assert_eq!(lib.get_artists(), vec!["Alpha", "Zeta", "Unknown Artist"]);
}

#[test]
fn get_genres_deduplicates_and_sorts() {
    let lib = Library {
        tracks: vec![
            track("/m/1.mp3", "t", "", "", "Rock"),
            track("/m/2.mp3", "t", "", "", "Ambient"),
            track("/m/3.mp3", "t", "", "", "Rock"),
            track("/m/4.mp3", "t", "", "", ""),
        ],
    };
    assert_eq!(lib.get_genres(), vec!["Ambient", "Rock"]);
}

#[test]
fn get_albums_lists_under_album_artist() {
    let mut t1 = track("/m/1.mp3", "t", "Solo", "One", "");
    t1.album_artist = "Band".to_string();
    let t2 = track("/m/2.mp3", "t", "Solo", "Two", "");
    let lib = Library { tracks: vec![t1, t2] };
    assert_eq!(
        lib.get_albums(),
        vec![("One".to_string(), "Band".to_string()), ("Two".to_string(), "Solo".to_string())]
    );
}

#[test]
fn get_albums_by_album_artist_filters() {
    let mut t1 = track("/m/1.mp3", "t", "", "B-Side", "");
    t1.album_artist = "Band".to_string();
    let mut t2 = track("/m/2.mp3", "t", "", "A-Side", "");
    t2.album_artist = "Band".to_string();
    let t3 = track("/m/3.mp3", "t", "", "Other", "");
    let lib = Library { tracks: vec![t1, t2, t3] };
    assert_eq!(lib.get_albums_by_album_artist("Band"), vec!["A-Side", "B-Side"]);
}

#[test]
fn directory_entries_split_subdirs_and_tracks() {
    let lib = Library {
        tracks: vec![
            track("/m/rock/a.mp3", "a", "", "", ""),
            track("/m/direct.mp3", "d", "", "", ""),
            track("/m/jazz/deep/b.mp3", "b", "", "", ""),
            track("/m/rock/c.mp3", "c", "", "", ""),
        ],
    };
    let (subdirs, tracks) = lib.get_directory_entries("/m");
    assert_eq!(subdirs, vec!["jazz", "rock"]);
    assert_eq!(tracks, vec![1]);
    let (subdirs, tracks) = lib.get_directory_entries("/m/rock");
    assert!(subdirs.is_empty());
    assert_eq!(tracks, vec![0, 3]);
}

#[test]
fn from_tracks_sorts_by_canonical_key() {
    let mut t1 = track("/m/1.mp3", "Zebra", "", "Album", "");
    t1.album_artist = "B".to_string();
    t1.track_number = Some(2);
    let mut t2 = track("/m/2.mp3", "Alpha", "", "Album", "");
    t2.album_artist = "B".to_string();
    t2.track_number = Some(1);
    let mut t3 = track("/m/3.mp3", "Any", "", "Album", "");
    t3.album_artist = "A".to_string();
    t3.track_number = Some(9);
    let mut t4 = track("/m/4.mp3", "NoNumber", "", "Album", "");
    t4.album_artist = "B".to_string();
    let lib = Library::from_tracks(vec![t1, t2, t3, t4]);
    let titles: Vec<&str> = lib.tracks.iter().map(|t| t.title.as_str()).collect();
    assert_eq!(titles, vec!["Any", "NoNumber", "Alpha", "Zebra"]);
}

#[test]
fn scan_admits_known_audio_extensions() {
    assert!(scan_admits("/m/song.FLAC"));
    assert!(scan_admits("/m/song.mp3"));
    assert!(scan_admits("/m/song.M4a"));
    assert!(!scan_admits("/m/notes.txt"));
    assert!(!scan_admits("/m/noext"));
    // macOS resource forks are skipped whatever their extension.
    assert!(!scan_admits("/m/._song.mp3"));
}
