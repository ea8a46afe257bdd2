//! Pure pieces of the lyrics fetcher: the result type handed back to the
//! reducer, the cache file name, and the request URLs. The HTTP and file
//! traffic itself lives outside the library.

use vstd::prelude::*;

use crate::strutil;

verus! {

use vstd::string::StringSliceAdditionalSpecFns;
use vstd::string::StringExecFns;

/// What a lyrics fetch reports back for a track.
#[derive(Debug, Clone)]
pub enum LyricsResult {
    Found { track_idx: usize, lyrics: String },
    NotFound { track_idx: usize },
    Error { track_idx: usize, msg: String },
}

/// How one character of a cache key is sanitized: letters and digits stay,
/// as do `_` and `-`; everything else becomes `_`.
pub open spec fn sanitize_char(c: char) -> char {
    if strutil::alnum(c) || c == '_' || c == '-' {
        c
    } else {
        '_'
    }
}

/// The cache file name for a track: artist and title joined with `_`,
/// lowered, sanitized character by character, with a `.txt` suffix.
pub open spec fn spec_cache_filename(artist: Seq<char>, title: Seq<char>) -> Seq<char> {
    strutil::lower_of(artist + seq!['_'] + title).map_values(|c: char| sanitize_char(c)) + seq![
        '.',
        't',
        'x',
        't',
    ]
}

/// The file the lyrics cache uses for one artist and title.
pub fn cache_filename(artist: &str, title: &str) -> (r: String)
    ensures
        r@ == spec_cache_filename(artist@, title@),
{
    let mut joined = String::from_str(artist);
    strutil::push_char(&mut joined, '_');
    joined.append(title);
    proof {
        assert(joined@ =~= artist@ + seq!['_'] + title@);
    }
    let lowered = strutil::lowercase(joined.as_str());
    let llen = lowered.as_str().unicode_len();
    let mut out = String::new();
    let mut i: usize = 0;
    while i < llen
        invariant
            i <= llen,
            llen == lowered@.len(),
            out@.len() == i,
            forall|j: int| 0 <= j < i ==> out@[j] == sanitize_char(lowered@[j]),
        decreases llen - i,
    {
        let c = lowered.as_str().get_char(i);
        if strutil::is_alphanumeric_char(c) || c == '_' || c == '-' {
            strutil::push_char(&mut out, c);
        } else {
            strutil::push_char(&mut out, '_');
        }
        i += 1;
    }
    proof {
        assert(out@ =~= lowered@.map_values(|c: char| sanitize_char(c)));
    }
    strutil::push_char(&mut out, '.');
    strutil::push_char(&mut out, 't');
    strutil::push_char(&mut out, 'x');
    strutil::push_char(&mut out, 't');
    proof {
        assert(out@ =~= spec_cache_filename(artist@, title@));
    }
    out
}

/// The exact-match lyrics request: artist and title always, the album when
/// known, the duration in whole seconds when known.
pub open spec fn spec_get_url(
    artist: Seq<char>,
    title: Seq<char>,
    album: Seq<char>,
    duration_secs: u64,
) -> Seq<char> {
    "https://lrclib.net/api/get?artist_name="@ + strutil::urlencode_bytes(
        vstd::utf8::encode_utf8(artist),
    ) + "&track_name="@ + strutil::urlencode_bytes(vstd::utf8::encode_utf8(title)) + (
    if album.len() > 0 {
        "&album_name="@ + strutil::urlencode_bytes(vstd::utf8::encode_utf8(album))
    } else {
        Seq::empty()
    }) + (if duration_secs > 0 {
        "&duration="@ + strutil::dec_str(duration_secs as int)
    } else {
        Seq::empty()
    })
}

/// Builds the exact-match request URL.
pub fn lyrics_get_url(artist: &str, title: &str, album: &str, duration_secs: u64) -> (r: String)
    ensures
        r@ == spec_get_url(artist@, title@, album@, duration_secs),
{
    let mut url = String::from_str("https://lrclib.net/api/get?artist_name=");
    let ae = strutil::urlencode(artist);
    url.append(ae.as_str());
    url.append("&track_name=");
    let te = strutil::urlencode(title);
    url.append(te.as_str());
    if album.unicode_len() > 0 {
        url.append("&album_name=");
        let le = strutil::urlencode(album);
        url.append(le.as_str());
    }
    if duration_secs > 0 {
        url.append("&duration=");
        strutil::push_decimal(&mut url, duration_secs);
    }
    proof {
        assert(url@ =~= spec_get_url(artist@, title@, album@, duration_secs));
    }
    url
}

/// The fuzzy-search lyrics request: the artist and title joined with a
/// space, or the title alone when the artist is unknown.
pub open spec fn spec_search_query(artist: Seq<char>, title: Seq<char>) -> Seq<char> {
    if artist.len() == 0 {
        title
    } else {
        artist + seq![' '] + title
    }
}

/// Builds the fuzzy-search request URL.
pub fn lyrics_search_url(artist: &str, title: &str) -> (r: String)
    ensures
        r@ == "https://lrclib.net/api/search?q="@ + strutil::urlencode_bytes(
            vstd::utf8::encode_utf8(spec_search_query(artist@, title@)),
        ),
{
    let query: String = if artist.unicode_len() == 0 {
        title.to_owned()
    } else {
        let mut q = String::from_str(artist);
        strutil::push_char(&mut q, ' ');
        q.append(title);
        proof {
            assert(q@ =~= artist@ + seq![' '] + title@);
        }
        q
    };
    let mut url = String::from_str("https://lrclib.net/api/search?q=");
    let qe = strutil::urlencode(query.as_str());
    url.append(qe.as_str());
    proof {
        assert(url@ =~= "https://lrclib.net/api/search?q="@ + strutil::urlencode_bytes(
            vstd::utf8::encode_utf8(spec_search_query(artist@, title@)),
        ));
    }
    url
}

} // verus!
