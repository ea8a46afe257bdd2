//! Cursor and scroll state of the dashboard panes, and the directory
//! browser's entry list. Drawing lives outside the library; these types hold
//! the selections the reducer and the remap must keep in range.

use vstd::prelude::*;

use crate::app::{clamp_cursor, App};
use crate::library;
use crate::strutil;
use crate::track::Track;

verus! {

/// One row of the directory browser.
#[derive(Debug, Clone)]
pub enum DirEntry {
    ParentDir,
    Directory(String),
    Track(usize),
}

/// The names of the directory rows, in order.
pub open spec fn dir_names(es: Seq<DirEntry>) -> Seq<Seq<char>>
    decreases es.len(),
{
    if es.len() == 0 {
        Seq::empty()
    } else {
        let rest = dir_names(es.drop_last());
        match es.last() {
            DirEntry::Directory(n) => rest.push(n@),
            _ => rest,
        }
    }
}

/// The track indices of the track rows, in order.
pub open spec fn track_entry_indices(es: Seq<DirEntry>) -> Seq<int>
    decreases es.len(),
{
    if es.len() == 0 {
        Seq::empty()
    } else {
        let rest = track_entry_indices(es.drop_last());
        match es.last() {
            DirEntry::Track(i) => rest.push(i as int),
            _ => rest,
        }
    }
}

/// The browser's row order: an optional parent row first, then directory
/// rows, then track rows.
pub open spec fn entries_shaped(es: Seq<DirEntry>) -> bool {
    &&& forall|k: int| 0 < k < es.len() ==> !((#[trigger] es[k]) is ParentDir)
    &&& forall|i: int, j: int|
        0 <= i < j < es.len() ==> !((#[trigger] es[i]) is Track && (#[trigger] es[j]) is Directory)
}

/// The scroll state of the play-queue pane.
#[derive(Debug, Clone)]
pub struct QueuePane {
    pub scroll_offset: usize,
    pub hover_row: Option<usize>,
}

impl QueuePane {
    pub fn new() -> (r: QueuePane)
        ensures
            r.scroll_offset == 0,
            r.hover_row is None,
    {
        QueuePane { scroll_offset: 0, hover_row: None }
    }

    /// Clamps the scroll to a queue of `len` entries.
    pub fn clamp_to(&mut self, len: usize)
        ensures
            final(self).scroll_offset == clamp_cursor(old(self).scroll_offset as int, len as int),
            final(self).hover_row == old(self).hover_row,
    {
        if len == 0 {
            self.scroll_offset = 0;
        } else if self.scroll_offset > len - 1 {
            self.scroll_offset = len - 1;
        }
    }
}

/// Selection state of the artists list.
#[derive(Debug, Clone)]
pub struct ArtistsPane {
    pub selected: usize,
    pub scroll_offset: usize,
}

impl ArtistsPane {
    pub fn new() -> (r: ArtistsPane)
        ensures
            r.selected == 0,
            r.scroll_offset == 0,
    {
        ArtistsPane { selected: 0, scroll_offset: 0 }
    }

    /// Clamps both cursors to a list of `len` entries.
    pub fn clamp_to(&mut self, len: usize)
        ensures
            final(self).selected == clamp_cursor(old(self).selected as int, len as int),
            final(self).scroll_offset == clamp_cursor(old(self).scroll_offset as int, len as int),
    {
        if len == 0 {
            self.selected = 0;
            self.scroll_offset = 0;
        } else {
            if self.selected > len - 1 {
                self.selected = len - 1;
            }
            if self.scroll_offset > len - 1 {
                self.scroll_offset = len - 1;
            }
        }
    }
}

/// Selection state of the library list on the queue tab.
#[derive(Debug, Clone)]
pub struct LibraryPane {
    pub selected: usize,
    pub scroll_offset: usize,
    pub hover_row: Option<usize>,
}

impl LibraryPane {
    pub fn new() -> (r: LibraryPane)
        ensures
            r.selected == 0,
            r.scroll_offset == 0,
            r.hover_row is None,
    {
        LibraryPane { selected: 0, scroll_offset: 0, hover_row: None }
    }

    /// Returns the cursors to the top, as after a snapshot swap.
    pub fn reset_top(&mut self)
        ensures
            final(self).selected == 0,
            final(self).scroll_offset == 0,
            final(self).hover_row == old(self).hover_row,
    {
        self.selected = 0;
        self.scroll_offset = 0;
    }
}

/// Scroll state of the lyrics pane.
#[derive(Debug, Clone)]
pub struct LyricsPane {
    pub scroll_offset: u16,
}

impl LyricsPane {
    pub fn new() -> (r: LyricsPane)
        ensures
            r.scroll_offset == 0,
    {
        LyricsPane { scroll_offset: 0 }
    }
}

/// Selection state of the playlists list.
#[derive(Debug, Clone)]
pub struct PlaylistsPane {
    pub selected: usize,
    pub scroll_offset: usize,
    pub hover_row: Option<usize>,
}

impl PlaylistsPane {
    pub fn new() -> (r: PlaylistsPane)
        ensures
            r.selected == 0,
            r.scroll_offset == 0,
            r.hover_row is None,
    {
        PlaylistsPane { selected: 0, scroll_offset: 0, hover_row: None }
    }

    /// Clamps both cursors to a list of `len` entries.
    pub fn clamp_to(&mut self, len: usize)
        ensures
            final(self).selected == clamp_cursor(old(self).selected as int, len as int),
            final(self).scroll_offset == clamp_cursor(old(self).scroll_offset as int, len as int),
            final(self).hover_row == old(self).hover_row,
    {
        if len == 0 {
            self.selected = 0;
            self.scroll_offset = 0;
        } else {
            if self.selected > len - 1 {
                self.selected = len - 1;
            }
            if self.scroll_offset > len - 1 {
                self.scroll_offset = len - 1;
            }
        }
    }
}

/// Selection and input state of the search pane.
#[derive(Debug, Clone)]
pub struct SearchPane {
    pub selected: usize,
    pub scroll_offset: usize,
    pub input_mode: bool,
    pub hover_row: Option<usize>,
}

impl SearchPane {
    pub fn new() -> (r: SearchPane)
        ensures
            r.selected == 0,
            r.scroll_offset == 0,
            !r.input_mode,
            r.hover_row is None,
    {
        SearchPane { selected: 0, scroll_offset: 0, input_mode: false, hover_row: None }
    }
}

/// The directory browser: a current directory and its rows.
#[derive(Debug, Clone)]
pub struct DirBrowserPane {
    pub current_dir: String,
    pub entries: Vec<DirEntry>,
    pub selected: usize,
    pub scroll_offset: usize,
    pub hover_row: Option<usize>,
}

impl DirBrowserPane {
    pub fn new(music_dir: String) -> (r: DirBrowserPane)
        ensures
            r.current_dir == music_dir,
            r.entries@.len() == 0,
            r.selected == 0,
            r.scroll_offset == 0,
            r.hover_row is None,
    {
        DirBrowserPane {
            current_dir: music_dir,
            entries: Vec::new(),
            selected: 0,
            scroll_offset: 0,
            hover_row: None,
        }
    }

    /// Returns the cursors to the top, as after a snapshot swap.
    pub fn reset_top(&mut self)
        ensures
            final(self).selected == 0,
            final(self).scroll_offset == 0,
            final(self).current_dir == old(self).current_dir,
            final(self).entries == old(self).entries,
            final(self).hover_row == old(self).hover_row,
    {
        self.selected = 0;
        self.scroll_offset = 0;
    }

    /// Rebuilds the rows for the current directory: a parent row unless the
    /// browser sits at the music root, then the subdirectories, then the
    /// tracks lying directly in the directory.
    pub fn refresh(&mut self, app: &App)
        ensures
            final(self).current_dir == old(self).current_dir,
            final(self).selected == old(self).selected,
            final(self).scroll_offset == old(self).scroll_offset,
            final(self).hover_row == old(self).hover_row,
            ({
                let es = final(self).entries@;
                let dir = old(self).current_dir@;
                let has_parent = dir != app.music_dir@;
                &&& entries_shaped(es)
                &&& (es.len() > 0 && es[0] is ParentDir) == has_parent
                &&& seq_set(dir_names(es)) == Set::new(
                    |s: Seq<char>|
                        exists|i: int|
                            0 <= i < app.library.tracks@.len() && library::subdir_of(
                                (#[trigger] app.library.tracks@[i]).path@,
                                dir,
                            ) == Some(s),
                )
                &&& track_entry_indices(es) == library::matching_indices(
                    app.library.tracks@,
                    |t: Track| strutil::parent_of(t.path@) == dir,
                )
            }),
    {
        let (subdirs, tracks) = app.library.get_directory_entries(self.current_dir.as_str());
        let mut es: Vec<DirEntry> = Vec::new();
        let has_parent = !strutil::str_eq(self.current_dir.as_str(), app.music_dir.as_str());
        if has_parent {
            es.push(DirEntry::ParentDir);
        }
        let ghost base = es@;
        let mut i: usize = 0;
        while i < subdirs.len()
            invariant
                i <= subdirs@.len(),
                es@.len() == base.len() + i,
                es@.take(base.len() as int) == base,
                forall|k: int|
                    base.len() <= k < es@.len() ==> ((#[trigger] es@[k]) matches DirEntry::Directory(
                        n,
                    ) && n@ == subdirs@[k - base.len()]@),
            decreases subdirs@.len() - i,
        {
            let ghost es_old = es@;
            es.push(DirEntry::Directory(subdirs[i].clone()));
            proof {
                assert(es@.take(base.len() as int) =~= base);
            }
            i += 1;
        }
        let ghost mid = es@;
        let mut j: usize = 0;
        while j < tracks.len()
            invariant
                j <= tracks@.len(),
                es@.len() == mid.len() + j,
                es@.take(mid.len() as int) == mid,
                forall|k: int|
                    mid.len() <= k < es@.len() ==> ((#[trigger] es@[k]) matches DirEntry::Track(t)
                        && t == tracks@[k - mid.len()]),
            decreases tracks@.len() - j,
        {
            es.push(DirEntry::Track(tracks[j]));
            proof {
                assert(es@.take(mid.len() as int) =~= mid);
            }
            j += 1;
        }
        proof {
            lemma_entries_structure(es@, base, mid, subdirs@, tracks@);
        }
        self.entries = es;
    }
}

/// The column at which text of the given display width sits centered within
/// an area.
pub fn center_x(area_x: u16, area_w: u16, display_w: u16) -> (r: u16)
    requires
        area_x + area_w <= u16::MAX,
    ensures
        r == area_x + (if display_w > area_w {
            0u16
        } else {
            ((area_w - display_w) / 2) as u16
        }),
{
    let margin = if display_w > area_w {
        0
    } else {
        (area_w - display_w) / 2
    };
    area_x + margin
}

/// The entry list built from a parent marker, directory names and track
/// indices has the browser's shape, and its projections are those inputs.
proof fn lemma_entries_structure(
    es: Seq<DirEntry>,
    base: Seq<DirEntry>,
    mid: Seq<DirEntry>,
    subdirs: Seq<String>,
    tracks: Seq<usize>,
)
    requires
        base.len() <= 1,
        base.len() == 1 ==> base[0] is ParentDir,
        mid.len() == base.len() + subdirs.len(),
        mid.take(base.len() as int) == base,
        forall|k: int|
            base.len() <= k < mid.len() ==> ((#[trigger] mid[k]) matches DirEntry::Directory(n)
                && n@ == subdirs[k - base.len()]@),
        es.len() == mid.len() + tracks.len(),
        es.take(mid.len() as int) == mid,
        forall|k: int|
            mid.len() <= k < es.len() ==> ((#[trigger] es[k]) matches DirEntry::Track(t) && t
                == tracks[k - mid.len()]),
    ensures
        entries_shaped(es),
        (es.len() > 0 && es[0] is ParentDir) == (base.len() == 1),
        seq_set(dir_names(es)) == library::string_views(subdirs),
        track_entry_indices(es) == crate::library::indices_view(tracks),
{
    assert forall|k: int| 0 <= k < mid.len() implies es[k] == mid[k] by {
        assert(es.take(mid.len() as int)[k] == es[k]);
    }
    assert forall|k: int| 0 <= k < base.len() implies mid[k] == base[k] by {
        assert(mid.take(base.len() as int)[k] == mid[k]);
    }
    lemma_projections(es, base.len() as int, mid.len() as int);
    assert(seq_set(dir_names(es)) =~= library::string_views(subdirs)) by {
        assert forall|x: Seq<char>| seq_set(dir_names(es)).contains(x) implies library::string_views(
            subdirs,
        ).contains(x) by {
            let k = choose|k: int| 0 <= k < dir_names(es).len() && dir_names(es)[k] == x;
            assert(subdirs[k]@ == x);
        }
        assert forall|x: Seq<char>| library::string_views(subdirs).contains(x) implies seq_set(
            dir_names(es),
        ).contains(x) by {
            let k = choose|k: int| 0 <= k < subdirs.len() && subdirs[k]@ == x;
            assert(dir_names(es)[k] == x);
        }
    }
    assert(track_entry_indices(es) =~= crate::library::indices_view(tracks));
}

/// The set of character sequences a sequence of them holds.
pub open spec fn seq_set(vs: Seq<Seq<char>>) -> Set<Seq<char>> {
    Set::new(|p: Seq<char>| vs.contains(p))
}

proof fn lemma_projections(es: Seq<DirEntry>, b: int, m: int)
    requires
        0 <= b <= m <= es.len(),
        forall|k: int| 0 <= k < b ==> !((#[trigger] es[k]) is Directory) && !(es[k] is Track),
        forall|k: int| b <= k < m ==> (#[trigger] es[k]) is Directory,
        forall|k: int| m <= k < es.len() ==> (#[trigger] es[k]) is Track,
    ensures
        dir_names(es).len() == m - b,
        forall|k: int|
            0 <= k < m - b ==> (#[trigger] dir_names(es)[k]) == (match es[b + k] {
                DirEntry::Directory(n) => n@,
                _ => Seq::<char>::empty(),
            }),
        track_entry_indices(es).len() == es.len() - m,
        forall|k: int|
            0 <= k < es.len() - m ==> (#[trigger] track_entry_indices(es)[k]) == (match es[m + k] {
                DirEntry::Track(t) => t as int,
                _ => 0,
            }),
    decreases es.len(),
{
    if es.len() > 0 {
        if m < es.len() {
            lemma_projections(es.drop_last(), b, m);
        } else if b < m {
            lemma_projections(es.drop_last(), b, m - 1);
        } else {
            lemma_projections(es.drop_last(), b - 1, m - 1);
        }
    }
}

} // verus!
