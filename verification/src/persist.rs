//! The persisted settings record and its exchange with live state:
//! playlists are saved as path lists and re-resolved to indices against
//! whatever snapshot exists at load time; paths no longer present are
//! silently dropped.

use vstd::prelude::*;

use crate::app::{App, AppAction, Effect};
use crate::library::{indices_view, Library};
use crate::state::Playlist;
use crate::sync::spec_path_index;
use crate::track::Track;

verus! {

/// A playlist as persisted: a name and a list of file paths.
#[derive(Debug, Clone)]
pub struct SavedPlaylist {
    pub name: String,
    pub tracks: Vec<String>,
}

/// The small record persisted across runs. The disk format lives outside
/// the library; this is its plain-value shape, with the volume in percent.
#[derive(Debug, Clone)]
pub struct SavedState {
    pub volume: u8,
    pub shuffle: bool,
    pub repeat: String,
    pub pane_widths: [u16; 3],
    pub playlists: Vec<SavedPlaylist>,
    pub info_view: String,
    pub right_split: u16,
}

/// The indices a persisted path list resolves to against a snapshot, in
/// order, skipping paths the snapshot no longer holds.
pub open spec fn resolve_indices(tracks: Seq<Track>, paths: Seq<String>) -> Seq<int>
    decreases paths.len(),
{
    if paths.len() == 0 {
        Seq::empty()
    } else {
        let rest = resolve_indices(tracks, paths.drop_last());
        match spec_path_index(tracks, paths.last()@) {
            Some(i) => rest.push(i),
            None => rest,
        }
    }
}

proof fn lemma_resolve_step(tracks: Seq<Track>, paths: Seq<String>, i: usize)
    requires
        i < paths.len(),
    ensures
        ({
            let prev = resolve_indices(tracks, paths.take(i as int));
            resolve_indices(tracks, paths.take(i + 1)) == match spec_path_index(
                tracks,
                paths[i as int]@,
            ) {
                Some(ni) => prev.push(ni),
                None => prev,
            }
        }),
{
    assert(paths.take(i + 1).drop_last() =~= paths.take(i as int));
    assert(paths.take(i + 1).last() == paths[i as int]);
}

/// Resolves one persisted path list against a snapshot.
fn resolve_one(lib: &Library, paths: &Vec<String>) -> (r: Vec<usize>)
    ensures
        indices_view(r@) == resolve_indices(lib.tracks@, paths@),
        forall|k: int| 0 <= k < r@.len() ==> (#[trigger] r@[k]) < lib.tracks@.len(),
{
    let mut r: Vec<usize> = Vec::new();
    let mut i: usize = 0;
    while i < paths.len()
        invariant
            i <= paths@.len(),
            indices_view(r@) == resolve_indices(lib.tracks@, paths@.take(i as int)),
            forall|k: int| 0 <= k < r@.len() ==> (#[trigger] r@[k]) < lib.tracks@.len(),
        decreases paths@.len() - i,
    {
        let ghost r_old = r@;
        match lib.path_to_index(paths[i].as_str()) {
            Some(ni) => {
                proof {
                    crate::sync::lemma_path_index_agrees(lib.tracks@, paths@[i as int]@, Some(ni));
                }
                r.push(ni);
                proof {
                    assert(indices_view(r@) =~= indices_view(r_old).push(ni as int));
                }
            },
            None => {
                proof {
                    crate::sync::lemma_path_index_agrees(
                        lib.tracks@,
                        paths@[i as int]@,
                        None::<usize>,
                    );
                }
            },
        }
        proof {
            lemma_resolve_step(lib.tracks@, paths@, i);
        }
        i += 1;
    }
    proof {
        assert(paths@.take(paths@.len() as int) =~= paths@);
    }
    r
}

/// Re-resolves persisted playlists against the snapshot at load time. Each
/// playlist keeps its name and the indices of the paths that still exist;
/// with nothing persisted, a single empty bookmark playlist is created.
pub fn resolve_playlists(lib: &Library, saved: &Vec<SavedPlaylist>) -> (r: Vec<Playlist>)
    ensures
        saved@.len() == 0 ==> r@.len() == 1 && r@[0].name@ == "Bookmarks"@ && r@[0].tracks@.len()
            == 0,
        saved@.len() > 0 ==> {
            &&& r@.len() == saved@.len()
            &&& forall|k: int|
                0 <= k < saved@.len() ==> (#[trigger] r@[k]).name == saved@[k].name
                    && indices_view(r@[k].tracks@) == resolve_indices(
                    lib.tracks@,
                    saved@[k].tracks@,
                )
        },
        forall|k: int| 0 <= k < r@.len() ==> (#[trigger] r@[k]).wf(lib.tracks@.len() as int),
{
    let mut r: Vec<Playlist> = Vec::new();
    if saved.len() == 0 {
        r.push(Playlist::new(String::from_str("Bookmarks")));
        return r;
    }
    let mut i: usize = 0;
    while i < saved.len()
        invariant
            i <= saved@.len(),
            r@.len() == i,
            forall|k: int|
                0 <= k < i ==> (#[trigger] r@[k]).name == saved@[k].name && indices_view(
                    r@[k].tracks@,
                ) == resolve_indices(lib.tracks@, saved@[k].tracks@),
            forall|k: int| 0 <= k < r@.len() ==> (#[trigger] r@[k]).wf(lib.tracks@.len() as int),
        decreases saved@.len() - i,
    {
        let tracks = resolve_one(lib, &saved[i].tracks);
        let name = saved[i].name.clone();
        r.push(Playlist { name, tracks });
        i += 1;
    }
    r
}

/// Exports the live playlists as path lists for persistence: each entry
/// becomes the path of the track it references.
pub fn export_playlists(app: &App) -> (r: Vec<SavedPlaylist>)
    requires
        app.wf(),
    ensures
        r@.len() == app.playlists@.len(),
        forall|k: int|
            0 <= k < r@.len() ==> {
                &&& (#[trigger] r@[k]).name == app.playlists@[k].name
                &&& r@[k].tracks@.len() == app.playlists@[k].tracks@.len()
                &&& forall|m: int|
                    0 <= m < r@[k].tracks@.len() ==> (#[trigger] r@[k].tracks@[m])@
                        == app.library.tracks@[app.playlists@[k].tracks@[m] as int].path@
            },
{
    let mut r: Vec<SavedPlaylist> = Vec::new();
    let mut i: usize = 0;
    while i < app.playlists.len()
        invariant
            app.wf(),
            i <= app.playlists@.len(),
            r@.len() == i,
            forall|k: int|
                0 <= k < i ==> {
                    &&& (#[trigger] r@[k]).name == app.playlists@[k].name
                    &&& r@[k].tracks@.len() == app.playlists@[k].tracks@.len()
                    &&& forall|m: int|
                        0 <= m < r@[k].tracks@.len() ==> (#[trigger] r@[k].tracks@[m])@
                            == app.library.tracks@[app.playlists@[k].tracks@[m] as int].path@
                },
        decreases app.playlists@.len() - i,
    {
        let pl = &app.playlists[i];
        let mut paths: Vec<String> = Vec::new();
        let mut m: usize = 0;
        while m < pl.tracks.len()
            invariant
                app.wf(),
                i < app.playlists@.len(),
                pl == &app.playlists[i as int],
                m <= pl.tracks@.len(),
                paths@.len() == m,
                forall|j: int|
                    0 <= j < m ==> (#[trigger] paths@[j])@ == app.library.tracks@[pl.tracks@[j] as int].path@,
            decreases pl.tracks@.len() - m,
        {
            let ti = pl.tracks[m];
            paths.push(app.library.tracks[ti].path.clone());
            m += 1;
        }
        r.push(SavedPlaylist { name: pl.name.clone(), tracks: paths });
        i += 1;
    }
    r
}

/// Applies a loaded settings record to a fresh application: volume (through
/// the reducer, so the worker hears of it), shuffle, repeat mode, and the
/// re-resolved playlists.
pub fn restore_saved(app: &mut App, saved: &SavedState) -> (eff: Vec<Effect>)
    requires
        old(app).wf(),
    ensures
        final(app).wf(),
        final(app).playback.volume == (if saved.volume > crate::state::VOLUME_MAX {
            crate::state::VOLUME_MAX
        } else {
            saved.volume
        }),
        final(app).playback.shuffle == saved.shuffle,
        final(app).playback.repeat == (if saved.repeat@ == "All"@ {
            crate::state::RepeatMode::All
        } else if saved.repeat@ == "One"@ {
            crate::state::RepeatMode::One
        } else {
            crate::state::RepeatMode::Off
        }),
        saved.playlists@.len() == 0 ==> final(app).playlists@.len() == 1
            && final(app).playlists@[0].name@ == "Bookmarks"@
            && final(app).playlists@[0].tracks@.len() == 0,
        saved.playlists@.len() > 0 ==> {
            &&& final(app).playlists@.len() == saved.playlists@.len()
            &&& forall|k: int|
                0 <= k < saved.playlists@.len() ==> (#[trigger] final(app).playlists@[k]).name
                    == saved.playlists@[k].name && indices_view(final(app).playlists@[k].tracks@)
                    == resolve_indices(final(app).library.tracks@, saved.playlists@[k].tracks@)
        },
        final(app).library == old(app).library,
        final(app).queue == old(app).queue,
        eff@.len() == 1,
{
    app.playback.shuffle = saved.shuffle;
    app.playback.repeat = crate::state::RepeatMode::from_label(saved.repeat.as_str());
    let playlists = resolve_playlists(&app.library, &saved.playlists);
    app.playlists = playlists;
    app.handle_action(AppAction::SetVolume(saved.volume))
}

} // verus!
