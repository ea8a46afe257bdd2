use ommp::lyrics::{cache_filename, lyrics_get_url, lyrics_search_url};
use ommp::state::{FocusedPane, InfoView, RepeatMode, Tab};
use ommp::strutil::{
    path_extension, path_file_name, path_file_stem, path_parent, str_contains, str_eq, str_le,
    str_lt, str_starts_with, u64_to_string, urlencode,
};
use ommp::track::Track;

#[test]
fn urlencode_keeps_unreserved_and_escapes_the_rest() {
    assert_eq!(urlencode("abcXYZ019-_.~"), "abcXYZ019-_.~");
    assert_eq!(urlencode("a b"), "a+b");
    assert_eq!(urlencode("a+b&c"), "a%2Bb%26c");
    assert_eq!(urlencode("50%"), "50%25");
    // Non-ASCII text is escaped byte by byte of its UTF-8 form.
    assert_eq!(urlencode("é"), "%C3%A9");
}

#[test]
fn decimal_formatting_is_exact() {
    assert_eq!(u64_to_string(0), "0");
    assert_eq!(u64_to_string(7), "7");
    assert_eq!(u64_to_string(1234567890), "1234567890");
}

#[test]
fn string_comparisons() {
    assert!(str_eq("abc", "abc"));
    assert!(!str_eq("abc", "abd"));
    assert!(str_lt("abc", "abd"));
    assert!(str_lt("ab", "abc"));
    assert!(!str_lt("abc", "abc"));
    assert!(str_le("abc", "abc"));
    assert!(str_contains("hello world", "lo wo"));
    assert!(!str_contains("hello", "world"));
    assert!(str_contains("anything", ""));
    assert!(str_starts_with("prefix/rest", "prefix/"));
    assert!(!str_starts_with("pre", "prefix"));
}

#[test]
fn path_helpers_follow_separators() {
    assert_eq!(path_file_name("/a/b/song.mp3"), "song.mp3");
    assert_eq!(path_file_name("song.mp3"), "song.mp3");
    assert_eq!(path_parent("/a/b/song.mp3"), "/a/b");
    assert_eq!(path_parent("/song.mp3"), "/");
    assert_eq!(path_parent("song.mp3"), "");
    assert_eq!(path_extension("/a/song.tar.gz"), Some("gz".to_string()));
    assert_eq!(path_extension("/a/.hidden"), None);
    assert_eq!(path_extension("/a/noext"), None);
    assert_eq!(path_file_stem("/a/song.mp3"), "song");
    assert_eq!(path_file_stem("/a/.hidden"), ".hidden");
}

#[test]
fn cache_filename_lowers_and_sanitizes() {
    // The lowering and the alphanumeric test both show through here: the
    // slash and spaces become underscores, letters are lowered.
    assert_eq!(cache_filename("AC/DC", "Back In Black"), "ac_dc_back_in_black.txt");
    assert_eq!(cache_filename("a-b", "c_d"), "a-b_c_d.txt");
}

#[test]
fn lyrics_urls_are_assembled_exactly() {
    assert_eq!(
        lyrics_get_url("A B", "T&T", "", 0),
        "https://lrclib.net/api/get?artist_name=A+B&track_name=T%26T"
    );
    assert_eq!(
        lyrics_get_url("A", "T", "Al", 95),
        "https://lrclib.net/api/get?artist_name=A&track_name=T&album_name=Al&duration=95"
    );
    assert_eq!(lyrics_search_url("", "Title"), "https://lrclib.net/api/search?q=Title");
    assert_eq!(lyrics_search_url("Me", "You"), "https://lrclib.net/api/search?q=Me+You");
}

#[test]
fn repeat_mode_cycle_and_labels() {
    assert_eq!(RepeatMode::Off.next(), RepeatMode::All);
    assert_eq!(RepeatMode::All.next(), RepeatMode::One);
    assert_eq!(RepeatMode::One.next(), RepeatMode::Off);
    assert_eq!(RepeatMode::from_label(RepeatMode::All.as_str()), RepeatMode::All);
    assert_eq!(RepeatMode::from_label(RepeatMode::One.as_str()), RepeatMode::One);
    assert_eq!(RepeatMode::from_label("whatever"), RepeatMode::Off);
    assert_eq!(RepeatMode::One.symbol(), "\u{F0458}");
    assert_eq!(RepeatMode::Off.symbol(), "\u{F0456}");
}

#[test]
fn tab_indexing_round_trips() {
    for i in 0..7 {
        assert_eq!(Tab::from_index(i).index(), i);
    }
    assert_eq!(Tab::from_index(99), Tab::Queue);
    assert_eq!(Tab::Albums.title(), "Albums");
}

#[test]
fn focus_cycle_is_inverse() {
    for pane in [FocusedPane::Library, FocusedPane::Playlist, FocusedPane::Lyrics] {
        assert_eq!(pane.next().prev(), pane);
        assert_eq!(pane.prev().next(), pane);
    }
}

#[test]
fn info_view_labels_round_trip() {
    assert_eq!(InfoView::Clock.next(), InfoView::AlbumArt);
    assert_eq!(InfoView::AlbumArt.next(), InfoView::Clock);
    assert_eq!(InfoView::from_label(InfoView::AlbumArt.as_str()), InfoView::AlbumArt);
    assert_eq!(InfoView::from_label("junk"), InfoView::Clock);
}

#[test]
fn track_title_falls_back_to_file_stem() {
    let t = Track::from_tags(
        "/m/dir/My Song.mp3".to_string(),
        String::new(),
        "a".to_string(),
        String::new(),
        String::new(),
        String::new(),
        None,
        0,
        None,
        None,
    );
    assert_eq!(t.title, "My Song");
    let t = Track::from_tags(
        String::new(),
        String::new(),
        String::new(),
        String::new(),
        String::new(),
        String::new(),
        None,
        0,
        None,
        None,
    );
    assert_eq!(t.title, "Unknown");
    let t = Track::from_tags(
        "/m/x.mp3".to_string(),
        "Tagged".to_string(),
        String::new(),
        String::new(),
        String::new(),
        String::new(),
        None,
        0,
        None,
        None,
    );
    assert_eq!(t.title, "Tagged");
}

#[test]
fn display_fields_substitute_placeholders() {
    let t = Track::from_tags(
        "/m/x.mp3".to_string(),
        "t".to_string(),
        String::new(),
        String::new(),
        String::new(),
        String::new(),
        None,
        185_000,
        None,
        None,
    );
    assert_eq!(t.display_artist(), "Unknown Artist");
    assert_eq!(t.display_album(), "Unknown Album");
    assert_eq!(t.format_duration(), "3:05");
}

#[test]
fn format_duration_pads_seconds() {
    let mut t = Track::from_tags(
        "/m/x.mp3".to_string(),
        "t".to_string(),
        String::new(),
        String::new(),
        String::new(),
        String::new(),
        None,
        0,
        None,
        None,
    );
    assert_eq!(t.format_duration(), "0:00");
    t.duration_ms = 59_999;
    assert_eq!(t.format_duration(), "0:59");
    t.duration_ms = 600_000;
    assert_eq!(t.format_duration(), "10:00");
}
