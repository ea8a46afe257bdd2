//! The library snapshot: an immutable, sorted collection of track records,
//! replaced wholesale by each rescan. Tracks are identified by path.

use vstd::prelude::*;

use crate::strutil;
use crate::track::Track;

verus! {

use vstd::multiset::Multiset;

/// One generation of the scanned library.
#[derive(Debug)]
pub struct Library {
    pub tracks: Vec<Track>,
}

/// Positions (in increasing order) of the elements of `s` that satisfy `p`.
pub open spec fn matching_indices(s: Seq<Track>, p: spec_fn(Track) -> bool) -> Seq<int>
    decreases s.len(),
{
    if s.len() == 0 {
        Seq::empty()
    } else if p(s.last()) {
        matching_indices(s.drop_last(), p).push(s.len() - 1)
    } else {
        matching_indices(s.drop_last(), p)
    }
}

/// The view of a result vector of indices, as mathematical integers.
pub open spec fn indices_view(v: Seq<usize>) -> Seq<int> {
    v.map_values(|u: usize| u as int)
}

/// One step of the filter: extending the scanned prefix by one element either
/// appends its position or leaves the result unchanged.
proof fn lemma_filter_step(
    r_old: Seq<usize>,
    r_new: Seq<usize>,
    s: Seq<Track>,
    p: spec_fn(Track) -> bool,
    i: usize,
)
    requires
        i < s.len(),
        indices_view(r_old) == matching_indices(s.take(i as int), p),
        p(s[i as int]) ==> r_new == r_old.push(i),
        !p(s[i as int]) ==> r_new == r_old,
    ensures
        indices_view(r_new) == matching_indices(s.take(i + 1), p),
{
    assert(s.take(i + 1).drop_last() =~= s.take(i as int));
    assert(s.take(i + 1).last() == s[i as int]);
    if p(s[i as int]) {
        assert(indices_view(r_new) =~= indices_view(r_old).push(i as int));
    }
}

impl Library {
    /// The paths of the snapshot, in order.
    pub open spec fn paths(self) -> Seq<Seq<char>> {
        self.tracks@.map_values(|t: Track| t.path@)
    }

    /// No two tracks share a path: the invariant the remap relies on.
    pub open spec fn paths_distinct(self) -> bool {
        forall|i: int, j: int|
            0 <= i < j < self.tracks@.len() ==> (#[trigger] self.tracks@[i].path@) != (
            #[trigger] self.tracks@[j].path@)
    }

    /// The set of paths the snapshot holds.
    pub open spec fn path_set(self) -> Set<Seq<char>> {
        Set::new(|p: Seq<char>| self.has_path(p))
    }

    /// Whether some track of the snapshot has the given path.
    pub open spec fn has_path(self, p: Seq<char>) -> bool {
        exists|i: int| 0 <= i < self.tracks@.len() && (#[trigger] self.tracks@[i].path@) == p
    }

    /// An empty snapshot.
    pub fn new() -> (r: Library)
        ensures
            r.tracks@.len() == 0,
            r.paths_distinct(),
    {
        Library { tracks: Vec::new() }
    }

    /// Index of the first track with the given path.
    pub fn path_to_index(&self, path: &str) -> (r: Option<usize>)
        ensures
            match r {
                Some(i) => i < self.tracks@.len() && self.tracks@[i as int].path@ == path@
                    && forall|j: int| 0 <= j < i ==> (#[trigger] self.tracks@[j].path@) != path@,
                None => !self.has_path(path@),
            },
    {
        let mut i: usize = 0;
        while i < self.tracks.len()
            invariant
                i <= self.tracks@.len(),
                forall|j: int| 0 <= j < i ==> (#[trigger] self.tracks@[j].path@) != path@,
            decreases self.tracks@.len() - i,
        {
            if strutil::str_eq(self.tracks[i].path.as_str(), path) {
                return Some(i);
            }
            i += 1;
        }
        None
    }

    /// Indices of the tracks whose artist tag equals `artist`; the
    /// placeholder artist name selects the tracks with an empty artist tag.
    pub fn get_tracks_by_artist(&self, artist: &str) -> (r: Vec<usize>)
        ensures
            artist@ == "Unknown Artist"@ ==> indices_view(r@) == matching_indices(
                self.tracks@,
                |t: Track| t.artist@.len() == 0,
            ),
            artist@ != "Unknown Artist"@ ==> indices_view(r@) == matching_indices(
                self.tracks@,
                |t: Track| t.artist@ == artist@,
            ),
    {
        let unknown = strutil::str_eq(artist, "Unknown Artist");
        let ghost p = if unknown {
            |t: Track| t.artist@.len() == 0
        } else {
            |t: Track| t.artist@ == artist@
        };
        let mut r: Vec<usize> = Vec::new();
        let mut i: usize = 0;
        while i < self.tracks.len()
            invariant
                i <= self.tracks@.len(),
                indices_view(r@) == matching_indices(self.tracks@.take(i as int), p),
                p == (if unknown {
                    |t: Track| t.artist@.len() == 0
                } else {
                    |t: Track| t.artist@ == artist@
                }),
            decreases self.tracks@.len() - i,
        {
            let ghost r_old = r@;
            let matched = if unknown {
                self.tracks[i].artist.as_str().unicode_len() == 0
            } else {
                strutil::str_eq(self.tracks[i].artist.as_str(), artist)
            };
            proof {
                assert(matched == p(self.tracks@[i as int]));
            }
            if matched {
                r.push(i);
            }
            proof {
                lemma_filter_step(r_old, r@, self.tracks@, p, i);
            }
            i += 1;
        }
        proof {
            assert(self.tracks@.take(self.tracks@.len() as int) =~= self.tracks@);
        }
        r
    }

    /// Indices of the tracks whose album-artist tag equals `album_artist`.
    pub fn get_tracks_by_album_artist(&self, album_artist: &str) -> (r: Vec<usize>)
        ensures
            indices_view(r@) == matching_indices(
                self.tracks@,
                |t: Track| t.album_artist@ == album_artist@,
            ),
    {
        let ghost p = |t: Track| t.album_artist@ == album_artist@;
        let mut r: Vec<usize> = Vec::new();
        let mut i: usize = 0;
        while i < self.tracks.len()
            invariant
                i <= self.tracks@.len(),
                indices_view(r@) == matching_indices(self.tracks@.take(i as int), p),
                p == (|t: Track| t.album_artist@ == album_artist@),
            decreases self.tracks@.len() - i,
        {
            let ghost r_old = r@;
            let matched = strutil::str_eq(self.tracks[i].album_artist.as_str(), album_artist);
            proof {
                assert(matched == p(self.tracks@[i as int]));
            }
            if matched {
                r.push(i);
            }
            proof {
                lemma_filter_step(r_old, r@, self.tracks@, p, i);
            }
            i += 1;
        }
        proof {
            assert(self.tracks@.take(self.tracks@.len() as int) =~= self.tracks@);
        }
        r
    }

    /// Indices of the tracks whose album tag equals `album`.
    pub fn get_tracks_by_album(&self, album: &str) -> (r: Vec<usize>)
        ensures
            indices_view(r@) == matching_indices(self.tracks@, |t: Track| t.album@ == album@),
    {
        let ghost p = |t: Track| t.album@ == album@;
        let mut r: Vec<usize> = Vec::new();
        let mut i: usize = 0;
        while i < self.tracks.len()
            invariant
                i <= self.tracks@.len(),
                indices_view(r@) == matching_indices(self.tracks@.take(i as int), p),
                p == (|t: Track| t.album@ == album@),
            decreases self.tracks@.len() - i,
        {
            let ghost r_old = r@;
            let matched = strutil::str_eq(self.tracks[i].album.as_str(), album);
            proof {
                assert(matched == p(self.tracks@[i as int]));
            }
            if matched {
                r.push(i);
            }
            proof {
                lemma_filter_step(r_old, r@, self.tracks@, p, i);
            }
            i += 1;
        }
        proof {
            assert(self.tracks@.take(self.tracks@.len() as int) =~= self.tracks@);
        }
        r
    }

    /// Indices of the tracks whose genre tag equals `genre`.
    pub fn get_tracks_by_genre(&self, genre: &str) -> (r: Vec<usize>)
        ensures
            indices_view(r@) == matching_indices(self.tracks@, |t: Track| t.genre@ == genre@),
    {
        let ghost p = |t: Track| t.genre@ == genre@;
        let mut r: Vec<usize> = Vec::new();
        let mut i: usize = 0;
        while i < self.tracks.len()
            invariant
                i <= self.tracks@.len(),
                indices_view(r@) == matching_indices(self.tracks@.take(i as int), p),
                p == (|t: Track| t.genre@ == genre@),
            decreases self.tracks@.len() - i,
        {
            let ghost r_old = r@;
            let matched = strutil::str_eq(self.tracks[i].genre.as_str(), genre);
            proof {
                assert(matched == p(self.tracks@[i as int]));
            }
            if matched {
                r.push(i);
            }
            proof {
                lemma_filter_step(r_old, r@, self.tracks@, p, i);
            }
            i += 1;
        }
        proof {
            assert(self.tracks@.take(self.tracks@.len() as int) =~= self.tracks@);
        }
        r
    }

    /// Builds a snapshot from scanned records, sorting them into the
    /// canonical order: album artist, then album, then track number, then
    /// title.
    pub fn from_tracks(tracks: Vec<Track>) -> (r: Library)
        ensures
            r.tracks@.to_multiset() == tracks@.to_multiset(),
            sorted_tracks(r.tracks@),
    {
        let mut rest = tracks;
        let mut out: Vec<Track> = Vec::new();
        proof {
            broadcast use vstd::seq_lib::group_to_multiset_ensures;
            assert(out@.to_multiset().add(rest@.to_multiset()) =~= tracks@.to_multiset());
        }
        while rest.len() > 0
            invariant
                sorted_tracks(out@),
                out@.to_multiset().add(rest@.to_multiset()) == tracks@.to_multiset(),
            decreases rest@.len(),
        {
            let ghost out_old = out@;
            let ghost rest_old = rest@;
            let t = rest.remove(0);
            insert_sorted(&mut out, t);
            proof {
                broadcast use vstd::seq_lib::group_to_multiset_ensures;
                assert(out@.to_multiset() =~= out_old.to_multiset().insert(t));
                assert(rest@.to_multiset() =~= rest_old.to_multiset().remove(t));
                assert(out@.to_multiset().add(rest@.to_multiset())
                    =~= out_old.to_multiset().add(rest_old.to_multiset()));
            }
        }
        proof {
            broadcast use vstd::seq_lib::group_to_multiset_ensures;
            assert(rest@.to_multiset() =~= Multiset::<Track>::empty());
            assert(out@.to_multiset() =~= tracks@.to_multiset());
        }
        Library { tracks: out }
    }
}

/// The tracks stand in the canonical snapshot order.
pub open spec fn sorted_tracks(s: Seq<Track>) -> bool {
    forall|i: int, j: int|
        0 <= i < j < s.len() ==> Track::key_le(#[trigger] s[i], #[trigger] s[j])
}

/// Inserts a record into a sorted vector, keeping it sorted.
fn insert_sorted(out: &mut Vec<Track>, t: Track)
    requires
        sorted_tracks(old(out)@),
    ensures
        sorted_tracks(final(out)@),
        final(out)@.to_multiset() == old(out)@.to_multiset().insert(t),
{
    let len = out.len();
    let mut j: usize = 0;
    while j < len && crate::track::track_le(&out[j], &t)
        invariant
            j <= len,
            len == out@.len(),
            sorted_tracks(out@),
            forall|k: int| 0 <= k < j ==> Track::key_le(#[trigger] out@[k], t),
        decreases len - j,
    {
        j += 1;
    }
    proof {
        if j < out@.len() {
            crate::track::lemma_key_le_total(out@[j as int], t);
        }
    }
    let ghost out_old = out@;
    let ghost jj = j as int;
    out.insert(j, t);
    proof {
        broadcast use vstd::seq_lib::group_to_multiset_ensures;
        assert(out@.to_multiset() =~= out_old.to_multiset().insert(t));
        assert forall|a: int, b: int| 0 <= a < b < out@.len() implies Track::key_le(
            out@[a],
            out@[b],
        ) by {
            if a < jj && b == jj {
                // out@[b] is the inserted record; everything before position
                // jj was seen to be at most t.
            } else if a == jj && b > jj {
                if jj < out_old.len() {
                    crate::track::lemma_key_le_trans(t, out_old[jj], out_old[b - 1]);
                }
            } else if a < jj && b > jj {
                assert(out@[a] == out_old[a]);
                assert(out@[b] == out_old[b - 1]);
                if a < b - 1 {
                    // sortedness of the old vector
                } else {
                    crate::track::lemma_key_le_total(out_old[a], out_old[a]);
                }
            }
        }
    }
}

/// The field filter of a query holding `:`: the field name and the value,
/// both trimmed and lowered.
pub open spec fn field_query(q: Seq<char>) -> Option<(Seq<char>, Seq<char>)> {
    let j = strutil::find_first(q, ':');
    if j >= 0 {
        Some(
            (
                strutil::lower_of(strutil::trim_of(q.take(j))),
                strutil::lower_of(strutil::trim_of(q.skip(j + 1))),
            ),
        )
    } else {
        None
    }
}

/// The general search: the lowered query occurs in the lowered title,
/// artist, album or genre tag, or in the lowered file name.
pub open spec fn general_match(q: Seq<char>, t: Track) -> bool {
    let lq = strutil::lower_of(q);
    ||| strutil::contains_seq(strutil::lower_of(t.title@), lq)
    ||| strutil::contains_seq(strutil::lower_of(t.artist@), lq)
    ||| strutil::contains_seq(strutil::lower_of(t.album@), lq)
    ||| strutil::contains_seq(strutil::lower_of(t.genre@), lq)
    ||| strutil::contains_seq(strutil::lower_of(strutil::file_name_of(t.path@)), lq)
}

/// Whether a track matches a search query.
///
/// A query of the shape `*.ext` filters by file extension; one of the shape
/// `field:value` with a known field name and a non-empty value filters that
/// field; every other non-empty query searches all text fields and the file
/// name. Comparison is case-insensitive throughout.
pub open spec fn query_matches(q: Seq<char>, t: Track) -> bool {
    if q.len() == 0 {
        false
    } else if strutil::starts_with(q, "*."@) {
        match strutil::extension_of(t.path@) {
            Some(e) => strutil::lower_of(e) == strutil::lower_of(q.skip(2)),
            None => false,
        }
    } else {
        match field_query(q) {
            Some(fv) => {
                let f = fv.0;
                let v = fv.1;
                if v.len() > 0 && f == "artist"@ {
                    strutil::contains_seq(strutil::lower_of(t.artist@), v)
                } else if v.len() > 0 && f == "album"@ {
                    strutil::contains_seq(strutil::lower_of(t.album@), v)
                } else if v.len() > 0 && f == "genre"@ {
                    strutil::contains_seq(strutil::lower_of(t.genre@), v)
                } else if v.len() > 0 && f == "title"@ {
                    strutil::contains_seq(strutil::lower_of(t.title@), v)
                } else {
                    general_match(q, t)
                }
            },
            None => general_match(q, t),
        }
    }
}

/// How one concrete search call tests a track, with its precomputed
/// lowered needle.
enum SearchMode {
    Ext(String),
    FieldArtist(String),
    FieldAlbum(String),
    FieldGenre(String),
    FieldTitle(String),
    General(String),
}

/// The mode faithfully represents the query.
spec fn mode_ok(m: SearchMode, q: Seq<char>) -> bool {
    match m {
        SearchMode::Ext(qe) => {
            &&& q.len() > 0
            &&& strutil::starts_with(q, "*."@)
            &&& qe@ == strutil::lower_of(q.skip(2))
        },
        SearchMode::FieldArtist(v) => field_mode_ok(q, v@, "artist"@),
        SearchMode::FieldAlbum(v) => field_mode_ok(q, v@, "album"@),
        SearchMode::FieldGenre(v) => field_mode_ok(q, v@, "genre"@),
        SearchMode::FieldTitle(v) => field_mode_ok(q, v@, "title"@),
        SearchMode::General(lq) => {
            &&& q.len() > 0
            &&& !strutil::starts_with(q, "*."@)
            &&& match field_query(q) {
                Some(fv) => fv.1.len() == 0 || (fv.0 != "artist"@ && fv.0 != "album"@ && fv.0
                    != "genre"@ && fv.0 != "title"@),
                None => true,
            }
            &&& lq@ == strutil::lower_of(q)
        },
    }
}

spec fn field_mode_ok(q: Seq<char>, v: Seq<char>, field: Seq<char>) -> bool {
    &&& q.len() > 0
    &&& !strutil::starts_with(q, "*."@)
    &&& match field_query(q) {
        Some(fv) => fv.0 == field && fv.1 == v && v.len() > 0,
        None => false,
    }
}

impl Library {
    /// Searches the snapshot; see [`query_matches`] for the query language.
    /// Returns the matching indices in increasing order: each returned index
    /// refers to a matching track, and every matching track's index is
    /// returned.
    pub fn search(&self, query: &str) -> (r: Vec<usize>)
        ensures
            query@.len() == 0 ==> r@.len() == 0,
            forall|k: int|
                0 <= k < r@.len() ==> (#[trigger] r@[k]) < self.tracks@.len() && query_matches(
                    query@,
                    self.tracks@[r@[k] as int],
                ),
            forall|i: int|
                0 <= i < self.tracks@.len() && query_matches(query@, #[trigger] self.tracks@[i])
                    ==> exists|k: int| 0 <= k < r@.len() && r@[k] == i,
            forall|k1: int, k2: int| 0 <= k1 < k2 < r@.len() ==> r@[k1] < r@[k2],
    {
        let qlen = query.unicode_len();
        if qlen == 0 {
            return Vec::new();
        }
        proof {
            reveal_strlit("*.");
        }
        let mode: SearchMode = if strutil::str_starts_with(query, "*.") {
            let tail = query.substring_char(2, qlen);
            proof {
                assert(tail@ =~= query@.skip(2));
            }
            SearchMode::Ext(strutil::lowercase(tail))
        } else {
            match strutil::find_first_char(query, ':') {
                Some(j) => {
                    let prefix = query.substring_char(0, j);
                    let value = query.substring_char(j + 1, qlen);
                    proof {
                        assert(prefix@ =~= query@.take(j as int));
                        assert(value@ =~= query@.skip(j + 1));
                    }
                    let f = strutil::lowercase(strutil::trim(prefix));
                    let v = strutil::lowercase(strutil::trim(value));
                    if v.as_str().unicode_len() == 0 {
                        SearchMode::General(strutil::lowercase(query))
                    } else if strutil::str_eq(f.as_str(), "artist") {
                        SearchMode::FieldArtist(v)
                    } else if strutil::str_eq(f.as_str(), "album") {
                        SearchMode::FieldAlbum(v)
                    } else if strutil::str_eq(f.as_str(), "genre") {
                        SearchMode::FieldGenre(v)
                    } else if strutil::str_eq(f.as_str(), "title") {
                        SearchMode::FieldTitle(v)
                    } else {
                        SearchMode::General(strutil::lowercase(query))
                    }
                },
                None => SearchMode::General(strutil::lowercase(query)),
            }
        };
        let mut r: Vec<usize> = Vec::new();
        let mut i: usize = 0;
        while i < self.tracks.len()
            invariant
                i <= self.tracks@.len(),
                mode_ok(mode, query@),
                query@.len() > 0,
                forall|k: int|
                    0 <= k < r@.len() ==> (#[trigger] r@[k]) < i && query_matches(
                        query@,
                        self.tracks@[r@[k] as int],
                    ),
                forall|m: int|
                    0 <= m < i && query_matches(query@, #[trigger] self.tracks@[m]) ==> exists|
                        k: int,
                    | 0 <= k < r@.len() && r@[k] == m,
                forall|k1: int, k2: int| 0 <= k1 < k2 < r@.len() ==> r@[k1] < r@[k2],
            decreases self.tracks@.len() - i,
        {
            let t = &self.tracks[i];
            let matched: bool = match &mode {
                SearchMode::Ext(qe) => {
                    match strutil::path_extension(t.path.as_str()) {
                        Some(e) => {
                            let low = strutil::lowercase(e.as_str());
                            strutil::str_eq(low.as_str(), qe.as_str())
                        },
                        None => false,
                    }
                },
                SearchMode::FieldArtist(v) => {
                    let low = strutil::lowercase(t.artist.as_str());
                    strutil::str_contains(low.as_str(), v.as_str())
                },
                SearchMode::FieldAlbum(v) => {
                    let low = strutil::lowercase(t.album.as_str());
                    strutil::str_contains(low.as_str(), v.as_str())
                },
                SearchMode::FieldGenre(v) => {
                    let low = strutil::lowercase(t.genre.as_str());
                    strutil::str_contains(low.as_str(), v.as_str())
                },
                SearchMode::FieldTitle(v) => {
                    let low = strutil::lowercase(t.title.as_str());
                    strutil::str_contains(low.as_str(), v.as_str())
                },
                SearchMode::General(lq) => {
                    let lt = strutil::lowercase(t.title.as_str());
                    let lar = strutil::lowercase(t.artist.as_str());
                    let lal = strutil::lowercase(t.album.as_str());
                    let lg = strutil::lowercase(t.genre.as_str());
                    let name = strutil::path_file_name(t.path.as_str());
                    let ln = strutil::lowercase(name.as_str());
                    strutil::str_contains(lt.as_str(), lq.as_str()) || strutil::str_contains(
                        lar.as_str(),
                        lq.as_str(),
                    ) || strutil::str_contains(lal.as_str(), lq.as_str())
                        || strutil::str_contains(lg.as_str(), lq.as_str())
                        || strutil::str_contains(ln.as_str(), lq.as_str())
                },
            };
            proof {
                reveal_strlit("artist");
                reveal_strlit("album");
                reveal_strlit("genre");
                reveal_strlit("title");
                assert("artist"@[0] == 'a' && "album"@[0] == 'a' && "genre"@[0] == 'g' && "title"@[0]
                    == 't');
                assert("artist"@[1] == 'r' && "album"@[1] == 'l');
                assert(matched == query_matches(query@, self.tracks@[i as int]));
            }
            let ghost r_old = r@;
            if matched {
                r.push(i);
            }
            proof {
                assert forall|m: int|
                    0 <= m < i + 1 && query_matches(query@, #[trigger] self.tracks@[m]) implies exists|
                    k: int,
                | 0 <= k < r@.len() && r@[k] == m by {
                    if m < i {
                        let k = choose|k: int| 0 <= k < r_old.len() && r_old[k] == m;
                        assert(r@[k] == m);
                    } else {
                        assert(r@[r@.len() - 1] == m);
                    }
                }
            }
            i += 1;
        }
        r
    }
}

/// The strings stand in strictly increasing lexicographic order, so each
/// value appears once.
pub open spec fn sorted_unique(vs: Seq<String>) -> bool {
    forall|i: int, j: int|
        0 <= i < j < vs.len() ==> strutil::lex_lt((#[trigger] vs[i])@, (#[trigger] vs[j])@)
}

/// The set of character sequences a string vector holds.
pub open spec fn string_views(vs: Seq<String>) -> Set<Seq<char>> {
    Set::new(|p: Seq<char>| exists|i: int| 0 <= i < vs.len() && (#[trigger] vs[i])@ == p)
}

/// Inserts a string into a sorted, duplicate-free vector, keeping it so.
fn insert_sorted_unique(v: &mut Vec<String>, s: String)
    requires
        sorted_unique(old(v)@),
    ensures
        sorted_unique(final(v)@),
        string_views(final(v)@) == string_views(old(v)@).insert(s@),
{
    let len = v.len();
    let mut j: usize = 0;
    while j < len && strutil::str_lt(v[j].as_str(), s.as_str())
        invariant
            j <= len,
            len == v@.len(),
            sorted_unique(v@),
            forall|k: int| 0 <= k < j ==> strutil::lex_lt((#[trigger] v@[k])@, s@),
        decreases len - j,
    {
        j += 1;
    }
    if j < len && strutil::str_eq(v[j].as_str(), s.as_str()) {
        // Already present: the set gains nothing.
        proof {
            assert(string_views(v@).contains(s@));
            assert(string_views(v@) =~= string_views(v@).insert(s@));
        }
        return;
    }
    let ghost v_old = v@;
    let ghost jj = j as int;
    proof {
        if jj < v_old.len() {
            strutil::lemma_lex_connected(v_old[jj]@, s@);
        }
    }
    v.insert(j, s);
    proof {
        assert forall|a: int, b: int| 0 <= a < b < v@.len() implies strutil::lex_lt(
            (#[trigger] v@[a])@,
            (#[trigger] v@[b])@,
        ) by {
            if a == jj && b > jj {
                if b - 1 > jj {
                    strutil::lemma_lex_trans(s@, v_old[jj]@, v_old[b - 1]@);
                }
            } else if a < jj && b == jj {
            } else if a < jj && b > jj {
                if a < b - 1 {
                } else {
                    strutil::lemma_lex_trans(v_old[a]@, s@, v_old[jj]@);
                }
            }
        }
        assert(string_views(v@) =~= string_views(v_old).insert(s@)) by {
            assert forall|x: Seq<char>| string_views(v@).contains(x) implies string_views(
                v_old,
            ).insert(s@).contains(x) by {
                let i = choose|i: int| 0 <= i < v@.len() && v@[i]@ == x;
                if i < jj {
                    assert(v_old[i]@ == x);
                } else if i == jj {
                } else {
                    assert(v_old[i - 1]@ == x);
                }
            }
            assert forall|x: Seq<char>| string_views(v_old).insert(s@).contains(x) implies
                string_views(v@).contains(x) by {
                if x == s@ {
                    assert(v@[jj]@ == x);
                } else {
                    let i = choose|i: int| 0 <= i < v_old.len() && v_old[i]@ == x;
                    if i < jj {
                        assert(v@[i]@ == x);
                    } else {
                        assert(v@[i + 1]@ == x);
                    }
                }
            }
        }
    }
}

impl Library {
    /// The distinct non-empty artist tags, in lexicographic order, with one
    /// placeholder entry at the end when any track has an empty artist tag.
    pub fn get_artists(&self) -> (r: Vec<String>)
        ensures
            ({
                let has_unknown = exists|i: int|
                    0 <= i < self.tracks@.len() && (#[trigger] self.tracks@[i].artist@).len() == 0;
                let main = if has_unknown {
                    r@.drop_last()
                } else {
                    r@
                };
                &&& has_unknown ==> r@.len() >= 1 && r@.last()@ == "Unknown Artist"@
                &&& sorted_unique(main)
                &&& string_views(main) == Set::new(
                    |p: Seq<char>|
                        p.len() > 0 && exists|i: int|
                            0 <= i < self.tracks@.len() && (#[trigger] self.tracks@[i].artist@)
                                == p,
                )
            }),
    {
        let mut r: Vec<String> = Vec::new();
        let mut has_unknown = false;
        let mut i: usize = 0;
        while i < self.tracks.len()
            invariant
                i <= self.tracks@.len(),
                sorted_unique(r@),
                has_unknown == exists|k: int|
                    0 <= k < i && (#[trigger] self.tracks@[k].artist@).len() == 0,
                string_views(r@) == Set::new(
                    |p: Seq<char>|
                        p.len() > 0 && exists|k: int|
                            0 <= k < i && (#[trigger] self.tracks@[k].artist@) == p,
                ),
            decreases self.tracks@.len() - i,
        {
            let ghost r_old = r@;
            let ghost set_old = string_views(r@);
            if self.tracks[i].artist.as_str().unicode_len() == 0 {
                has_unknown = true;
                proof {
                    assert(string_views(r@) =~= Set::new(
                        |p: Seq<char>|
                            p.len() > 0 && exists|k: int|
                                0 <= k < i + 1 && (#[trigger] self.tracks@[k].artist@) == p,
                    )) by {
                        assert forall|x: Seq<char>|
                            x.len() > 0 && (exists|k: int|
                                0 <= k < i + 1 && (#[trigger] self.tracks@[k].artist@)
                                    == x) implies set_old.contains(x) by {
                            let k = choose|k: int|
                                0 <= k < i + 1 && (#[trigger] self.tracks@[k].artist@) == x;
                            assert(k < i);
                        }
                    }
                }
            } else {
                let a = self.tracks[i].artist.clone();
                insert_sorted_unique(&mut r, a);
                proof {
                    assert(string_views(r@) =~= Set::new(
                        |p: Seq<char>|
                            p.len() > 0 && exists|k: int|
                                0 <= k < i + 1 && (#[trigger] self.tracks@[k].artist@) == p,
                    )) by {
                        assert forall|x: Seq<char>| string_views(r@).contains(x) implies x.len()
                            > 0 && (exists|k: int|
                            0 <= k < i + 1 && (#[trigger] self.tracks@[k].artist@) == x) by {
                            if x == self.tracks@[i as int].artist@ {
                                assert(self.tracks@[i as int].artist@ == x);
                            } else {
                                assert(set_old.contains(x));
                                let k = choose|k: int|
                                    0 <= k < i && (#[trigger] self.tracks@[k].artist@) == x;
                                assert(self.tracks@[k].artist@ == x);
                            }
                        }
                        assert forall|x: Seq<char>|
                            x.len() > 0 && (exists|k: int|
                                0 <= k < i + 1 && (#[trigger] self.tracks@[k].artist@)
                                    == x) implies string_views(r@).contains(x) by {
                            let k = choose|k: int|
                                0 <= k < i + 1 && (#[trigger] self.tracks@[k].artist@) == x;
                            if k < i {
                                assert(set_old.contains(x));
                            }
                        }
                    }
                }
            }
            i += 1;
        }
        if has_unknown {
            let ghost main = r@;
            r.push(String::from_str("Unknown Artist"));
            proof {
                assert(r@.drop_last() =~= main);
            }
        }
        r
    }
}

/// Strict order on string pairs: by first component, then by second.
pub open spec fn pair_lt(a: (Seq<char>, Seq<char>), b: (Seq<char>, Seq<char>)) -> bool {
    strutil::lex_lt(a.0, b.0) || (a.0 == b.0 && strutil::lex_lt(a.1, b.1))
}

/// The string pairs stand in strictly increasing order.
pub open spec fn sorted_unique_pairs(vs: Seq<(String, String)>) -> bool {
    forall|i: int, j: int|
        0 <= i < j < vs.len() ==> pair_lt(
            ((#[trigger] vs[i]).0@, vs[i].1@),
            ((#[trigger] vs[j]).0@, vs[j].1@),
        )
}

/// The set of character-sequence pairs a pair vector holds.
pub open spec fn pair_views(vs: Seq<(String, String)>) -> Set<(Seq<char>, Seq<char>)> {
    Set::new(
        |p: (Seq<char>, Seq<char>)|
            exists|i: int| 0 <= i < vs.len() && ((#[trigger] vs[i]).0@, vs[i].1@) == p,
    )
}

/// Inserts a pair into a sorted, duplicate-free vector, keeping it so.
fn insert_sorted_unique_pair(v: &mut Vec<(String, String)>, s: (String, String))
    requires
        sorted_unique_pairs(old(v)@),
    ensures
        sorted_unique_pairs(final(v)@),
        pair_views(final(v)@) == pair_views(old(v)@).insert((s.0@, s.1@)),
{
    let len = v.len();
    let mut j: usize = 0;
    while j < len && pair_lt_exec(&v[j], &s)
        invariant
            j <= len,
            len == v@.len(),
            sorted_unique_pairs(v@),
            forall|k: int|
                0 <= k < j ==> pair_lt(((#[trigger] v@[k]).0@, v@[k].1@), (s.0@, s.1@)),
        decreases len - j,
    {
        j += 1;
    }
    if j < len && strutil::str_eq(v[j].0.as_str(), s.0.as_str()) && strutil::str_eq(
        v[j].1.as_str(),
        s.1.as_str(),
    ) {
        proof {
            assert(pair_views(v@).contains((s.0@, s.1@)));
            assert(pair_views(v@) =~= pair_views(v@).insert((s.0@, s.1@)));
        }
        return;
    }
    let ghost v_old = v@;
    let ghost jj = j as int;
    let ghost sv = (s.0@, s.1@);
    proof {
        if jj < v_old.len() {
            strutil::lemma_lex_connected(v_old[jj].0@, s.0@);
            strutil::lemma_lex_connected(v_old[jj].1@, s.1@);
        }
    }
    v.insert(j, s);
    proof {
        assert forall|a: int, b: int| 0 <= a < b < v@.len() implies pair_lt(
            ((#[trigger] v@[a]).0@, v@[a].1@),
            ((#[trigger] v@[b]).0@, v@[b].1@),
        ) by {
            if a == jj && b > jj {
                if b - 1 > jj {
                    lemma_pair_lt_trans(sv, (v_old[jj].0@, v_old[jj].1@), (v_old[b - 1].0@, v_old[b - 1].1@));
                }
            } else if a < jj && b == jj {
            } else if a < jj && b > jj {
                if a < b - 1 {
                } else {
                    lemma_pair_lt_trans((v_old[a].0@, v_old[a].1@), sv, (v_old[jj].0@, v_old[jj].1@));
                }
            }
        }
        assert(pair_views(v@) =~= pair_views(v_old).insert(sv)) by {
            assert forall|x: (Seq<char>, Seq<char>)| pair_views(v@).contains(x) implies pair_views(
                v_old,
            ).insert(sv).contains(x) by {
                let i = choose|i: int| 0 <= i < v@.len() && ((#[trigger] v@[i]).0@, v@[i].1@) == x;
                if i < jj {
                    assert((v_old[i].0@, v_old[i].1@) == x);
                } else if i == jj {
                } else {
                    assert((v_old[i - 1].0@, v_old[i - 1].1@) == x);
                }
            }
            assert forall|x: (Seq<char>, Seq<char>)| pair_views(v_old).insert(sv).contains(
                x,
            ) implies pair_views(v@).contains(x) by {
                if x == sv {
                    assert(((v@[jj]).0@, v@[jj].1@) == x);
                } else {
                    let i = choose|i: int|
                        0 <= i < v_old.len() && ((#[trigger] v_old[i]).0@, v_old[i].1@) == x;
                    if i < jj {
                        assert(((v@[i]).0@, v@[i].1@) == x);
                    } else {
                        assert(((v@[i + 1]).0@, v@[i + 1].1@) == x);
                    }
                }
            }
        }
    }
}

/// Executable form of the pair order.
fn pair_lt_exec(a: &(String, String), b: &(String, String)) -> (r: bool)
    ensures
        r == pair_lt((a.0@, a.1@), (b.0@, b.1@)),
{
    if strutil::str_lt(a.0.as_str(), b.0.as_str()) {
        true
    } else if strutil::str_eq(a.0.as_str(), b.0.as_str()) {
        strutil::str_lt(a.1.as_str(), b.1.as_str())
    } else {
        false
    }
}

/// The pair order is transitive.
proof fn lemma_pair_lt_trans(
    a: (Seq<char>, Seq<char>),
    b: (Seq<char>, Seq<char>),
    c: (Seq<char>, Seq<char>),
)
    requires
        pair_lt(a, b),
        pair_lt(b, c),
    ensures
        pair_lt(a, c),
{
    strutil::lemma_lex_trans(a.0, b.0, c.0);
    strutil::lemma_lex_trans(a.1, b.1, c.1);
    strutil::lemma_lex_irrefl(a.0);
    strutil::lemma_lex_asymmetric(a.0, b.0);
    strutil::lemma_lex_asymmetric(b.0, c.0);
}

/// The artist an album is listed under: the album-artist tag, or the artist
/// tag when no album artist is set.
pub open spec fn album_listing_artist(t: Track) -> Seq<char> {
    if t.album_artist@.len() == 0 {
        t.artist@
    } else {
        t.album_artist@
    }
}

impl Library {
    /// The distinct non-empty album-artist tags, in lexicographic order.
    pub fn get_album_artists(&self) -> (r: Vec<String>)
        ensures
            sorted_unique(r@),
            string_views(r@) == Set::new(
                |p: Seq<char>|
                    p.len() > 0 && exists|i: int|
                        0 <= i < self.tracks@.len() && (#[trigger] self.tracks@[i].album_artist@)
                            == p,
            ),
    {
        let mut r: Vec<String> = Vec::new();
        let mut i: usize = 0;
        while i < self.tracks.len()
            invariant
                i <= self.tracks@.len(),
                sorted_unique(r@),
                string_views(r@) == Set::new(
                    |p: Seq<char>|
                        p.len() > 0 && exists|k: int|
                            0 <= k < i && (#[trigger] self.tracks@[k].album_artist@) == p,
                ),
            decreases self.tracks@.len() - i,
        {
            let ghost set_old = string_views(r@);
            if self.tracks[i].album_artist.as_str().unicode_len() > 0 {
                let a = self.tracks[i].album_artist.clone();
                insert_sorted_unique(&mut r, a);
            }
            proof {
                assert(string_views(r@) =~= Set::new(
                    |p: Seq<char>|
                        p.len() > 0 && exists|k: int|
                            0 <= k < i + 1 && (#[trigger] self.tracks@[k].album_artist@) == p,
                )) by {
                    assert forall|x: Seq<char>| string_views(r@).contains(x) implies x.len() > 0
                        && (exists|k: int|
                        0 <= k < i + 1 && (#[trigger] self.tracks@[k].album_artist@) == x) by {
                        if self.tracks@[i as int].album_artist@.len() > 0 && x
                            == self.tracks@[i as int].album_artist@ {
                            assert(self.tracks@[i as int].album_artist@ == x);
                        } else {
                            assert(set_old.contains(x));
                            let k = choose|k: int|
                                0 <= k < i && (#[trigger] self.tracks@[k].album_artist@) == x;
                            assert(self.tracks@[k].album_artist@ == x);
                        }
                    }
                    assert forall|x: Seq<char>|
                        x.len() > 0 && (exists|k: int|
                            0 <= k < i + 1 && (#[trigger] self.tracks@[k].album_artist@)
                                == x) implies string_views(r@).contains(x) by {
                        let k = choose|k: int|
                            0 <= k < i + 1 && (#[trigger] self.tracks@[k].album_artist@) == x;
                        if k < i {
                            assert(set_old.contains(x));
                        }
                    }
                }
            }
            i += 1;
        }
        r
    }

    /// The distinct non-empty genre tags, in lexicographic order.
    pub fn get_genres(&self) -> (r: Vec<String>)
        ensures
            sorted_unique(r@),
            string_views(r@) == Set::new(
                |p: Seq<char>|
                    p.len() > 0 && exists|i: int|
                        0 <= i < self.tracks@.len() && (#[trigger] self.tracks@[i].genre@) == p,
            ),
    {
        let mut r: Vec<String> = Vec::new();
        let mut i: usize = 0;
        while i < self.tracks.len()
            invariant
                i <= self.tracks@.len(),
                sorted_unique(r@),
                string_views(r@) == Set::new(
                    |p: Seq<char>|
                        p.len() > 0 && exists|k: int|
                            0 <= k < i && (#[trigger] self.tracks@[k].genre@) == p,
                ),
            decreases self.tracks@.len() - i,
        {
            let ghost set_old = string_views(r@);
            if self.tracks[i].genre.as_str().unicode_len() > 0 {
                let g = self.tracks[i].genre.clone();
                insert_sorted_unique(&mut r, g);
            }
            proof {
                assert(string_views(r@) =~= Set::new(
                    |p: Seq<char>|
                        p.len() > 0 && exists|k: int|
                            0 <= k < i + 1 && (#[trigger] self.tracks@[k].genre@) == p,
                )) by {
                    assert forall|x: Seq<char>| string_views(r@).contains(x) implies x.len() > 0
                        && (exists|k: int|
                        0 <= k < i + 1 && (#[trigger] self.tracks@[k].genre@) == x) by {
                        if self.tracks@[i as int].genre@.len() > 0 && x
                            == self.tracks@[i as int].genre@ {
                            assert(self.tracks@[i as int].genre@ == x);
                        } else {
                            assert(set_old.contains(x));
                            let k = choose|k: int|
                                0 <= k < i && (#[trigger] self.tracks@[k].genre@) == x;
                            assert(self.tracks@[k].genre@ == x);
                        }
                    }
                    assert forall|x: Seq<char>|
                        x.len() > 0 && (exists|k: int|
                            0 <= k < i + 1 && (#[trigger] self.tracks@[k].genre@)
                                == x) implies string_views(r@).contains(x) by {
                        let k = choose|k: int|
                            0 <= k < i + 1 && (#[trigger] self.tracks@[k].genre@) == x;
                        if k < i {
                            assert(set_old.contains(x));
                        }
                    }
                }
            }
            i += 1;
        }
        r
    }

    /// The distinct albums with a non-empty album tag, each listed under its
    /// album artist (or the track artist when none is set), ordered by album
    /// and then by that artist.
    pub fn get_albums(&self) -> (r: Vec<(String, String)>)
        ensures
            sorted_unique_pairs(r@),
            pair_views(r@) == Set::new(
                |p: (Seq<char>, Seq<char>)|
                    p.0.len() > 0 && exists|i: int|
                        0 <= i < self.tracks@.len() && ((#[trigger] self.tracks@[i]).album@,
                        album_listing_artist(self.tracks@[i])) == p,
            ),
    {
        let mut r: Vec<(String, String)> = Vec::new();
        let mut i: usize = 0;
        while i < self.tracks.len()
            invariant
                i <= self.tracks@.len(),
                sorted_unique_pairs(r@),
                pair_views(r@) == Set::new(
                    |p: (Seq<char>, Seq<char>)|
                        p.0.len() > 0 && exists|k: int|
                            0 <= k < i && ((#[trigger] self.tracks@[k]).album@,
                            album_listing_artist(self.tracks@[k])) == p,
                ),
            decreases self.tracks@.len() - i,
        {
            let ghost set_old = pair_views(r@);
            if self.tracks[i].album.as_str().unicode_len() > 0 {
                let album = self.tracks[i].album.clone();
                let artist = if self.tracks[i].album_artist.as_str().unicode_len() == 0 {
                    self.tracks[i].artist.clone()
                } else {
                    self.tracks[i].album_artist.clone()
                };
                insert_sorted_unique_pair(&mut r, (album, artist));
            }
            proof {
                assert(pair_views(r@) =~= Set::new(
                    |p: (Seq<char>, Seq<char>)|
                        p.0.len() > 0 && exists|k: int|
                            0 <= k < i + 1 && ((#[trigger] self.tracks@[k]).album@,
                            album_listing_artist(self.tracks@[k])) == p,
                )) by {
                    assert forall|x: (Seq<char>, Seq<char>)| pair_views(r@).contains(x) implies x.0.len()
                        > 0 && (exists|k: int|
                        0 <= k < i + 1 && ((#[trigger] self.tracks@[k]).album@,
                        album_listing_artist(self.tracks@[k])) == x) by {
                        if self.tracks@[i as int].album@.len() > 0 && x == (
                        self.tracks@[i as int].album@, album_listing_artist(
                            self.tracks@[i as int],
                        )) {
                            assert((self.tracks@[i as int].album@, album_listing_artist(
                                self.tracks@[i as int],
                            )) == x);
                        } else {
                            assert(set_old.contains(x));
                            let k = choose|k: int|
                                0 <= k < i && ((#[trigger] self.tracks@[k]).album@,
                                album_listing_artist(self.tracks@[k])) == x;
                            assert((self.tracks@[k].album@, album_listing_artist(
                                self.tracks@[k],
                            )) == x);
                        }
                    }
                    assert forall|x: (Seq<char>, Seq<char>)|
                        x.0.len() > 0 && (exists|k: int|
                            0 <= k < i + 1 && ((#[trigger] self.tracks@[k]).album@,
                            album_listing_artist(self.tracks@[k])) == x) implies pair_views(
                        r@,
                    ).contains(x) by {
                        let k = choose|k: int|
                            0 <= k < i + 1 && ((#[trigger] self.tracks@[k]).album@,
                            album_listing_artist(self.tracks@[k])) == x;
                        if k < i {
                            assert(set_old.contains(x));
                        }
                    }
                }
            }
            i += 1;
        }
        r
    }

    /// The distinct non-empty albums of one album artist, in lexicographic
    /// order.
    pub fn get_albums_by_album_artist(&self, album_artist: &str) -> (r: Vec<String>)
        ensures
            sorted_unique(r@),
            string_views(r@) == Set::new(
                |p: Seq<char>|
                    p.len() > 0 && exists|i: int|
                        0 <= i < self.tracks@.len() && (#[trigger] self.tracks@[i].album@) == p
                            && self.tracks@[i].album_artist@ == album_artist@,
            ),
    {
        let mut r: Vec<String> = Vec::new();
        let mut i: usize = 0;
        while i < self.tracks.len()
            invariant
                i <= self.tracks@.len(),
                sorted_unique(r@),
                string_views(r@) == Set::new(
                    |p: Seq<char>|
                        p.len() > 0 && exists|k: int|
                            0 <= k < i && (#[trigger] self.tracks@[k].album@) == p
                                && self.tracks@[k].album_artist@ == album_artist@,
                ),
            decreases self.tracks@.len() - i,
        {
            let ghost set_old = string_views(r@);
            if strutil::str_eq(self.tracks[i].album_artist.as_str(), album_artist)
                && self.tracks[i].album.as_str().unicode_len() > 0 {
                let a = self.tracks[i].album.clone();
                insert_sorted_unique(&mut r, a);
            }
            proof {
                assert(string_views(r@) =~= Set::new(
                    |p: Seq<char>|
                        p.len() > 0 && exists|k: int|
                            0 <= k < i + 1 && (#[trigger] self.tracks@[k].album@) == p
                                && self.tracks@[k].album_artist@ == album_artist@,
                )) by {
                    assert forall|x: Seq<char>| string_views(r@).contains(x) implies x.len() > 0
                        && (exists|k: int|
                        0 <= k < i + 1 && (#[trigger] self.tracks@[k].album@) == x
                            && self.tracks@[k].album_artist@ == album_artist@) by {
                        if self.tracks@[i as int].album_artist@ == album_artist@
                            && self.tracks@[i as int].album@.len() > 0 && x
                            == self.tracks@[i as int].album@ {
                            assert(self.tracks@[i as int].album@ == x);
                        } else {
                            assert(set_old.contains(x));
                            let k = choose|k: int|
                                0 <= k < i && (#[trigger] self.tracks@[k].album@) == x
                                    && self.tracks@[k].album_artist@ == album_artist@;
                            assert(self.tracks@[k].album@ == x);
                        }
                    }
                    assert forall|x: Seq<char>|
                        x.len() > 0 && (exists|k: int|
                            0 <= k < i + 1 && (#[trigger] self.tracks@[k].album@) == x
                                && self.tracks@[k].album_artist@ == album_artist@) implies
                        string_views(r@).contains(x) by {
                        let k = choose|k: int|
                            0 <= k < i + 1 && (#[trigger] self.tracks@[k].album@) == x
                                && self.tracks@[k].album_artist@ == album_artist@;
                        if k < i {
                            assert(set_old.contains(x));
                        }
                    }
                }
            }
            i += 1;
        }
        r
    }
}

/// The immediate subdirectory of `dir` a track path lies under, when it lies
/// deeper than `dir` itself.
pub open spec fn subdir_of(p: Seq<char>, dir: Seq<char>) -> Option<Seq<char>> {
    let par = strutil::parent_of(p);
    if par == dir {
        None
    } else if strutil::starts_with(par, dir + seq!['/']) {
        let rel = par.skip(dir.len() as int + 1);
        let j = strutil::find_first(rel, '/');
        if j < 0 {
            Some(rel)
        } else {
            Some(rel.take(j))
        }
    } else {
        None
    }
}

impl Library {
    /// The browse entries of one directory: its immediate subdirectories (in
    /// lexicographic order, each once) and the indices of the tracks lying
    /// directly in it (in increasing order).
    pub fn get_directory_entries(&self, dir: &str) -> (r: (Vec<String>, Vec<usize>))
        ensures
            sorted_unique(r.0@),
            string_views(r.0@) == Set::new(
                |s: Seq<char>|
                    exists|i: int|
                        0 <= i < self.tracks@.len() && subdir_of(
                            (#[trigger] self.tracks@[i]).path@,
                            dir@,
                        ) == Some(s),
            ),
            indices_view(r.1@) == matching_indices(
                self.tracks@,
                |t: Track| strutil::parent_of(t.path@) == dir@,
            ),
    {
        let ghost p = |t: Track| strutil::parent_of(t.path@) == dir@;
        let dlen = dir.unicode_len();
        let mut dir_slash = String::from_str(dir);
        strutil::push_char(&mut dir_slash, '/');
        proof {
            assert(dir_slash@ =~= dir@ + seq!['/']);
        }
        let mut subdirs: Vec<String> = Vec::new();
        let mut tracks_out: Vec<usize> = Vec::new();
        let mut i: usize = 0;
        while i < self.tracks.len()
            invariant
                i <= self.tracks@.len(),
                dlen == dir@.len(),
                dir_slash@ == dir@ + seq!['/'],
                sorted_unique(subdirs@),
                string_views(subdirs@) == Set::new(
                    |s: Seq<char>|
                        exists|k: int|
                            0 <= k < i && subdir_of((#[trigger] self.tracks@[k]).path@, dir@)
                                == Some(s),
                ),
                indices_view(tracks_out@) == matching_indices(self.tracks@.take(i as int), p),
                forall|k: int| 0 <= k < tracks_out@.len() ==> (#[trigger] tracks_out@[k]) < i,
                p == (|t: Track| strutil::parent_of(t.path@) == dir@),
            decreases self.tracks@.len() - i,
        {
            let ghost t_old = tracks_out@;
            let ghost set_old = string_views(subdirs@);
            let parent = strutil::path_parent(self.tracks[i].path.as_str());
            let is_direct = strutil::str_eq(parent.as_str(), dir);
            proof {
                assert(is_direct == p(self.tracks@[i as int]));
            }
            if is_direct {
                tracks_out.push(i);
            } else if strutil::str_starts_with(parent.as_str(), dir_slash.as_str()) {
                let plen = parent.as_str().unicode_len();
                let rel = parent.as_str().substring_char(dlen + 1, plen);
                proof {
                    assert(rel@ =~= parent@.skip(dir@.len() as int + 1));
                }
                let first: String = match strutil::find_first_char(rel, '/') {
                    Some(j) => {
                        let f = rel.substring_char(0, j);
                        proof {
                            assert(f@ =~= rel@.take(strutil::find_first(rel@, '/')));
                        }
                        f.to_owned()
                    },
                    None => rel.to_owned(),
                };
                proof {
                    assert(subdir_of(self.tracks@[i as int].path@, dir@) == Some(first@));
                }
                insert_sorted_unique(&mut subdirs, first);
            }
            proof {
                lemma_filter_step(t_old, tracks_out@, self.tracks@, p, i);
                assert(string_views(subdirs@) =~= Set::new(
                    |s: Seq<char>|
                        exists|k: int|
                            0 <= k < i + 1 && subdir_of((#[trigger] self.tracks@[k]).path@, dir@)
                                == Some(s),
                )) by {
                    assert forall|x: Seq<char>| string_views(subdirs@).contains(x) implies exists|
                        k: int,
                    |
                        0 <= k < i + 1 && subdir_of((#[trigger] self.tracks@[k]).path@, dir@)
                            == Some(x) by {
                        if subdir_of(self.tracks@[i as int].path@, dir@) == Some(x) {
                            assert(subdir_of(self.tracks@[i as int].path@, dir@) == Some(x));
                        } else {
                            assert(set_old.contains(x));
                            let k = choose|k: int|
                                0 <= k < i && subdir_of(
                                    (#[trigger] self.tracks@[k]).path@,
                                    dir@,
                                ) == Some(x);
                            assert(subdir_of(self.tracks@[k].path@, dir@) == Some(x));
                        }
                    }
                    assert forall|x: Seq<char>|
                        (exists|k: int|
                            0 <= k < i + 1 && subdir_of((#[trigger] self.tracks@[k]).path@, dir@)
                                == Some(x)) implies string_views(subdirs@).contains(x) by {
                        let k = choose|k: int|
                            0 <= k < i + 1 && subdir_of((#[trigger] self.tracks@[k]).path@, dir@)
                                == Some(x);
                        if k < i {
                            assert(set_old.contains(x));
                        }
                    }
                }
            }
            i += 1;
        }
        proof {
            assert(self.tracks@.take(self.tracks@.len() as int) =~= self.tracks@);
        }
        (subdirs, tracks_out)
    }
}

/// File names the scanner skips outright, and the fixed set of admitted
/// audio extensions: the pure admission rule of the directory scan.
pub open spec fn spec_scan_admits(p: Seq<char>) -> bool {
    &&& !strutil::starts_with(strutil::file_name_of(p), "._"@)
    &&& match strutil::extension_of(p) {
        Some(e) => {
            let low = strutil::lower_of(e);
            low == "flac"@ || low == "mp3"@ || low == "m4a"@ || low == "mp4"@ || low == "ogg"@
                || low == "wav"@
        },
        None => false,
    }
}

/// Whether the scanner admits a file path as an audio candidate: its name is
/// not a resource-fork artifact and its extension, lowered, is one of the
/// known audio extensions.
pub fn scan_admits(path: &str) -> (r: bool)
    ensures
        r == spec_scan_admits(path@),
{
    let name = strutil::path_file_name(path);
    if strutil::str_starts_with(name.as_str(), "._") {
        return false;
    }
    match strutil::path_extension(path) {
        Some(e) => {
            let low = strutil::lowercase(e.as_str());
            strutil::str_eq(low.as_str(), "flac") || strutil::str_eq(low.as_str(), "mp3")
                || strutil::str_eq(low.as_str(), "m4a") || strutil::str_eq(low.as_str(), "mp4")
                || strutil::str_eq(low.as_str(), "ogg") || strutil::str_eq(low.as_str(), "wav")
        },
        None => false,
    }
}

} // verus!
