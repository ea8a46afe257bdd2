//! One scanned audio file's metadata. The path is the identity key the
//! snapshot remap relies on; everything else is display data.

use vstd::prelude::*;

use crate::strutil;

verus! {

/// An immutable track record, born from one scan pass.
///
/// `duration_ms` is the track length in milliseconds.
#[derive(Debug, Clone)]
pub struct Track {
    pub path: String,
    pub title: String,
    pub artist: String,
    pub album: String,
    pub album_artist: String,
    pub genre: String,
    pub track_number: Option<u32>,
    pub duration_ms: u64,
    pub bitrate: Option<u32>,
    pub lyrics: Option<String>,
}

/// `None` sorts before every number; numbers sort by value.
pub open spec fn opt_u32_lt(a: Option<u32>, b: Option<u32>) -> bool {
    match (a, b) {
        (Option::None, Option::None) => false,
        (Option::None, Option::Some(_)) => true,
        (Option::Some(_), Option::None) => false,
        (Option::Some(x), Option::Some(y)) => x < y,
    }
}

impl Track {
    /// Snapshot order: by album artist, then album, then track number, then
    /// title.
    pub open spec fn key_le(a: Track, b: Track) -> bool {
        if a.album_artist@ != b.album_artist@ {
            strutil::lex_lt(a.album_artist@, b.album_artist@)
        } else if a.album@ != b.album@ {
            strutil::lex_lt(a.album@, b.album@)
        } else if a.track_number != b.track_number {
            opt_u32_lt(a.track_number, b.track_number)
        } else {
            strutil::lex_le(a.title@, b.title@)
        }
    }

    /// Builds a record from tag values already read out of a file. An empty
    /// tag title falls back to the file stem of the path, and to `Unknown`
    /// when the path has no usable stem.
    pub fn from_tags(
        path: String,
        title: String,
        artist: String,
        album: String,
        album_artist: String,
        genre: String,
        track_number: Option<u32>,
        duration_ms: u64,
        bitrate: Option<u32>,
        lyrics: Option<String>,
    ) -> (r: Track)
        ensures
            r.path@ == path@,
            r.artist@ == artist@,
            r.album@ == album@,
            r.album_artist@ == album_artist@,
            r.genre@ == genre@,
            r.track_number == track_number,
            r.duration_ms == duration_ms,
            r.bitrate == bitrate,
            r.lyrics == lyrics,
            title@.len() > 0 ==> r.title@ == title@,
            title@.len() == 0 && strutil::file_stem_of(path@).len() > 0 ==> r.title@
                == strutil::file_stem_of(path@),
            title@.len() == 0 && strutil::file_stem_of(path@).len() == 0 ==> r.title@
                == "Unknown"@,
    {
        let title = if title.as_str().unicode_len() == 0 {
            let stem = strutil::path_file_stem(path.as_str());
            if stem.as_str().unicode_len() == 0 {
                String::from_str("Unknown")
            } else {
                stem
            }
        } else {
            title
        };
        Track {
            path,
            title,
            artist,
            album,
            album_artist,
            genre,
            track_number,
            duration_ms,
            bitrate,
            lyrics,
        }
    }

    /// The artist shown in the UI: the tag value, or a placeholder when the
    /// tag was empty.
    pub fn display_artist(&self) -> (r: &str)
        ensures
            self.artist@.len() == 0 ==> r@ == "Unknown Artist"@,
            self.artist@.len() > 0 ==> r@ == self.artist@,
    {
        if self.artist.as_str().unicode_len() == 0 {
            "Unknown Artist"
        } else {
            self.artist.as_str()
        }
    }

    /// The album shown in the UI: the tag value, or a placeholder when the
    /// tag was empty.
    pub fn display_album(&self) -> (r: &str)
        ensures
            self.album@.len() == 0 ==> r@ == "Unknown Album"@,
            self.album@.len() > 0 ==> r@ == self.album@,
    {
        if self.album.as_str().unicode_len() == 0 {
            "Unknown Album"
        } else {
            self.album.as_str()
        }
    }

    /// The duration as minutes and zero-padded seconds, `m:ss`.
    pub fn format_duration(&self) -> (r: String)
        ensures
            r@ == duration_text(self.duration_ms),
    {
        let secs = self.duration_ms / 1000;
        let mins = secs / 60;
        let rem = secs % 60;
        let mut s = strutil::u64_to_string(mins);
        strutil::push_char(&mut s, ':');
        if rem < 10 {
            strutil::push_char(&mut s, '0');
        }
        strutil::push_decimal(&mut s, rem);
        proof {
            assert(s@ =~= duration_text(self.duration_ms));
        }
        s
    }
}

/// `m:ss` text for a duration in milliseconds.
pub open spec fn duration_text(ms: u64) -> Seq<char> {
    let secs = ms as int / 1000;
    let mins = secs / 60;
    let rem = secs % 60;
    strutil::dec_str(mins) + seq![':'] + (if rem < 10 {
        seq!['0']
    } else {
        Seq::empty()
    }) + strutil::dec_str(rem)
}

/// The snapshot order relates every pair of tracks.
pub proof fn lemma_key_le_total(a: Track, b: Track)
    ensures
        Track::key_le(a, b) || Track::key_le(b, a),
{
    strutil::lemma_lex_connected(a.album_artist@, b.album_artist@);
    strutil::lemma_lex_connected(a.album@, b.album@);
    strutil::lemma_lex_connected(a.title@, b.title@);
}

/// The snapshot order is transitive.
pub proof fn lemma_key_le_trans(a: Track, b: Track, c: Track)
    requires
        Track::key_le(a, b),
        Track::key_le(b, c),
    ensures
        Track::key_le(a, c),
{
    strutil::lemma_lex_trans(a.album_artist@, b.album_artist@, c.album_artist@);
    strutil::lemma_lex_trans(a.album@, b.album@, c.album@);
    strutil::lemma_lex_trans(a.title@, b.title@, c.title@);
    strutil::lemma_lex_asymmetric(a.album_artist@, b.album_artist@);
    strutil::lemma_lex_asymmetric(b.album_artist@, c.album_artist@);
    strutil::lemma_lex_asymmetric(a.album@, b.album@);
    strutil::lemma_lex_asymmetric(b.album@, c.album@);
    strutil::lemma_lex_irrefl(a.album_artist@);
    strutil::lemma_lex_irrefl(a.album@);
    strutil::lemma_lex_irrefl(a.title@);
}

/// Executable form of the snapshot order.
pub fn track_le(a: &Track, b: &Track) -> (r: bool)
    ensures
        r == Track::key_le(*a, *b),
{
    if !strutil::str_eq(a.album_artist.as_str(), b.album_artist.as_str()) {
        strutil::str_lt(a.album_artist.as_str(), b.album_artist.as_str())
    } else if !strutil::str_eq(a.album.as_str(), b.album.as_str()) {
        strutil::str_lt(a.album.as_str(), b.album.as_str())
    } else {
        let numbers_equal = match (a.track_number, b.track_number) {
            (Option::None, Option::None) => true,
            (Option::Some(x), Option::Some(y)) => x == y,
            _ => false,
        };
        if !numbers_equal {
            match (a.track_number, b.track_number) {
                (Option::None, _) => true,
                (Option::Some(_), Option::None) => false,
                (Option::Some(x), Option::Some(y)) => x < y,
            }
        } else {
            strutil::str_le(a.title.as_str(), b.title.as_str())
        }
    }
}

} // verus!
