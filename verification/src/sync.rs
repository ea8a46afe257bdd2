//! The snapshot synchronizer's remap: rewriting index-based references from
//! an old snapshot to a new one, with the file path as the stable identity.

use vstd::prelude::*;

use crate::library::{indices_view, Library};
use crate::track::Track;

verus! {

/// Index of the first track in `s` whose path is `p`.
pub open spec fn spec_path_index(s: Seq<Track>, p: Seq<char>) -> Option<int>
    decreases s.len(),
{
    if s.len() == 0 {
        None
    } else if s[0].path@ == p {
        Some(0int)
    } else {
        match spec_path_index(s.drop_first(), p) {
            Some(i) => Some(i + 1),
            None => None,
        }
    }
}

/// What `spec_path_index` returns: the first position holding the path, or
/// nothing when no position holds it.
pub proof fn lemma_path_index_char(s: Seq<Track>, p: Seq<char>)
    ensures
        match spec_path_index(s, p) {
            Some(i) => 0 <= i < s.len() && s[i].path@ == p && forall|j: int|
                0 <= j < i ==> (#[trigger] s[j].path@) != p,
            None => forall|j: int| 0 <= j < s.len() ==> (#[trigger] s[j].path@) != p,
        },
    decreases s.len(),
{
    if s.len() > 0 && s[0].path@ != p {
        lemma_path_index_char(s.drop_first(), p);
        assert forall|j: int| 1 <= j < s.len() implies s[j] == s.drop_first()[j - 1] by {}
    }
}

/// One reference list carried over to the new snapshot: each old index is
/// followed to its path and on to the path's position in the new snapshot;
/// entries whose path is gone are dropped.
pub open spec fn remap_indices(ol: Seq<Track>, nl: Seq<Track>, q: Seq<usize>) -> Seq<int>
    decreases q.len(),
{
    if q.len() == 0 {
        Seq::empty()
    } else {
        let rest = remap_indices(ol, nl, q.drop_last());
        let oi = q.last();
        if oi < ol.len() {
            match spec_path_index(nl, ol[oi as int].path@) {
                Some(ni) => rest.push(ni),
                None => rest,
            }
        } else {
            rest
        }
    }
}

/// Position of the first occurrence of `x` in `s`.
pub open spec fn first_pos_of(s: Seq<usize>, x: usize) -> Option<int>
    decreases s.len(),
{
    if s.len() == 0 {
        None
    } else if s[0] == x {
        Some(0int)
    } else {
        match first_pos_of(s.drop_first(), x) {
            Some(i) => Some(i + 1),
            None => None,
        }
    }
}

/// What `first_pos_of` returns: the first position holding the value, or
/// nothing when no position holds it.
pub proof fn lemma_first_pos_char(s: Seq<usize>, x: usize)
    ensures
        match first_pos_of(s, x) {
            Some(i) => 0 <= i < s.len() && s[i] == x && forall|j: int|
                0 <= j < i ==> (#[trigger] s[j]) != x,
            None => forall|j: int| 0 <= j < s.len() ==> (#[trigger] s[j]) != x,
        },
    decreases s.len(),
{
    if s.len() > 0 && s[0] != x {
        lemma_first_pos_char(s.drop_first(), x);
        assert forall|j: int| 1 <= j < s.len() implies s[j] == s.drop_first()[j - 1] by {}
    }
}

/// Position of the first occurrence of `x` in `v`.
pub fn find_first_pos(v: &Vec<usize>, x: usize) -> (r: Option<usize>)
    ensures
        match r {
            Some(i) => first_pos_of(v@, x) == Some(i as int) && i < v@.len(),
            None => first_pos_of(v@, x) is None,
        },
{
    let mut i: usize = 0;
    while i < v.len()
        invariant
            i <= v@.len(),
            forall|j: int| 0 <= j < i ==> (#[trigger] v@[j]) != x,
        decreases v@.len() - i,
    {
        if v[i] == x {
            proof {
                lemma_first_pos_char(v@, x);
            }
            return Some(i);
        }
        i += 1;
    }
    proof {
        lemma_first_pos_char(v@, x);
    }
    None
}

/// A first-match lookup (the contract of `Library::path_to_index`) returns
/// exactly what `spec_path_index` denotes.
pub proof fn lemma_path_index_agrees(nl: Seq<Track>, p: Seq<char>, r: Option<usize>)
    requires
        match r {
            Some(i) => i < nl.len() && nl[i as int].path@ == p && forall|j: int|
                0 <= j < i ==> (#[trigger] nl[j].path@) != p,
            None => forall|j: int| 0 <= j < nl.len() ==> (#[trigger] nl[j].path@) != p,
        },
    ensures
        spec_path_index(nl, p) == match r {
            Some(i) => Some(i as int),
            None => None::<int>,
        },
{
    lemma_path_index_char(nl, p);
    match r {
        Some(i) => {
            match spec_path_index(nl, p) {
                Some(si) => {
                    if si < i {
                        assert(nl[si].path@ != p);
                    } else if i < si {
                        assert(nl[i as int].path@ != p);
                    }
                },
                None => {
                    assert(nl[i as int].path@ != p);
                },
            }
        },
        None => {
            match spec_path_index(nl, p) {
                Some(si) => {
                    assert(nl[si].path@ != p);
                },
                None => {},
            }
        },
    }
}

proof fn lemma_remap_step(ol: Seq<Track>, nl: Seq<Track>, q: Seq<usize>, i: usize)
    requires
        i < q.len(),
    ensures
        ({
            let prev = remap_indices(ol, nl, q.take(i as int));
            let oi = q[i as int];
            remap_indices(ol, nl, q.take(i + 1)) == if oi < ol.len() {
                match spec_path_index(nl, ol[oi as int].path@) {
                    Some(ni) => prev.push(ni),
                    None => prev,
                }
            } else {
                prev
            }
        }),
{
    assert(q.take(i + 1).drop_last() =~= q.take(i as int));
    assert(q.take(i + 1).last() == q[i as int]);
}

/// Rewrites one list of old-snapshot indices against the new snapshot,
/// dropping entries whose path no longer exists.
pub fn remap_vec(old_lib: &Library, new_lib: &Library, v: &Vec<usize>) -> (r: Vec<usize>)
    ensures
        indices_view(r@) == remap_indices(old_lib.tracks@, new_lib.tracks@, v@),
        forall|k: int| 0 <= k < r@.len() ==> (#[trigger] r@[k]) < new_lib.tracks@.len(),
{
    let ghost ol = old_lib.tracks@;
    let ghost nl = new_lib.tracks@;
    let mut r: Vec<usize> = Vec::new();
    let mut i: usize = 0;
    while i < v.len()
        invariant
            i <= v@.len(),
            indices_view(r@) == remap_indices(ol, nl, v@.take(i as int)),
            ol == old_lib.tracks@,
            nl == new_lib.tracks@,
            forall|k: int| 0 <= k < r@.len() ==> (#[trigger] r@[k]) < nl.len(),
        decreases v@.len() - i,
    {
        let ghost r_old = r@;
        let oi = v[i];
        if oi < old_lib.tracks.len() {
            match new_lib.path_to_index(old_lib.tracks[oi].path.as_str()) {
                Some(ni) => {
                    proof {
                        lemma_path_index_agrees(nl, ol[oi as int].path@, Some(ni));
                    }
                    r.push(ni);
                    proof {
                        assert(indices_view(r@) =~= indices_view(r_old).push(ni as int));
                    }
                },
                None => {
                    proof {
                        lemma_path_index_agrees(nl, ol[oi as int].path@, None::<usize>);
                    }
                },
            }
        }
        proof {
            lemma_remap_step(ol, nl, v@, i);
        }
        i += 1;
    }
    proof {
        assert(v@.take(v@.len() as int) =~= v@);
    }
    r
}

/// The set of paths a reference list points at within a snapshot.
pub open spec fn referenced_paths(q: Seq<usize>, tracks: Seq<Track>) -> Set<Seq<char>> {
    Set::new(
        |p: Seq<char>|
            exists|k: int|
                0 <= k < q.len() && q[k] < tracks.len() && (#[trigger] tracks[q[k] as int].path@)
                    == p,
    )
}

/// The set of paths a snapshot holds.
pub open spec fn paths_of(tracks: Seq<Track>) -> Set<Seq<char>> {
    Set::new(
        |p: Seq<char>| exists|j: int| 0 <= j < tracks.len() && (#[trigger] tracks[j].path@) == p,
    )
}

/// The remap keeps exactly the referenced paths that still exist: what the
/// rewritten list points at is what the old list pointed at, intersected
/// with the new snapshot's paths.
pub proof fn lemma_remap_referenced(ol: Seq<Track>, nl: Seq<Track>, q: Seq<usize>, r: Seq<usize>)
    requires
        indices_view(r) == remap_indices(ol, nl, q),
        forall|k: int| 0 <= k < q.len() ==> (#[trigger] q[k]) < ol.len(),
    ensures
        referenced_paths(r, nl) == referenced_paths(q, ol).intersect(paths_of(nl)),
    decreases q.len(),
{
    if q.len() == 0 {
        assert(r.len() == indices_view(r).len());
        assert(referenced_paths(r, nl) =~= referenced_paths(q, ol).intersect(paths_of(nl)));
    } else {
        let qd = q.drop_last();
        let oi = q.last();
        let p = ol[oi as int].path@;
        lemma_path_index_char(nl, p);
        match spec_path_index(nl, p) {
            Some(ni) => {
                // The last entry survives as position `ni` of the new snapshot.
                let rd = r.drop_last();
                assert(indices_view(r).len() == remap_indices(ol, nl, qd).push(ni).len());
                assert(indices_view(rd) =~= remap_indices(ol, nl, qd)) by {
                    assert forall|k: int| 0 <= k < rd.len() implies indices_view(rd)[k]
                        == remap_indices(ol, nl, qd)[k] by {
                        assert(indices_view(r)[k] == remap_indices(ol, nl, qd).push(ni)[k]);
                    }
                }
                lemma_remap_referenced(ol, nl, qd, rd);
                assert(r.last() as int == indices_view(r)[r.len() - 1]);
                assert(r.last() == ni as usize);
                assert(referenced_paths(r, nl) =~= referenced_paths(qd, ol).intersect(
                    paths_of(nl),
                ).insert(p)) by {
                    assert forall|x: Seq<char>| referenced_paths(r, nl).contains(x) implies
                        referenced_paths(qd, ol).intersect(paths_of(nl)).insert(p).contains(x) by {
                        let k = choose|k: int|
                            0 <= k < r.len() && r[k] < nl.len() && nl[r[k] as int].path@ == x;
                        if k < r.len() - 1 {
                            assert(rd[k] == r[k]);
                            assert(referenced_paths(rd, nl).contains(x));
                        } else {
                            assert(x == p);
                        }
                    }
                    assert forall|x: Seq<char>|
                        referenced_paths(qd, ol).intersect(paths_of(nl)).insert(p).contains(
                            x,
                        ) implies referenced_paths(r, nl).contains(x) by {
                        if x == p {
                            assert(r[r.len() - 1] == ni as usize);
                            assert(nl[r[r.len() - 1] as int].path@ == x);
                        } else {
                            let k = choose|k: int|
                                0 <= k < rd.len() && rd[k] < nl.len() && nl[rd[k] as int].path@
                                    == x;
                            assert(r[k] == rd[k]);
                            assert(nl[r[k] as int].path@ == x);
                        }
                    }
                }
                assert(referenced_paths(q, ol) =~= referenced_paths(qd, ol).insert(p)) by {
                    assert forall|x: Seq<char>| referenced_paths(q, ol).contains(x) implies
                        referenced_paths(qd, ol).insert(p).contains(x) by {
                        let k = choose|k: int|
                            0 <= k < q.len() && q[k] < ol.len() && ol[q[k] as int].path@ == x;
                        if k < q.len() - 1 {
                            assert(qd[k] == q[k]);
                            assert(referenced_paths(qd, ol).contains(x));
                        } else {
                            assert(x == p);
                        }
                    }
                    assert forall|x: Seq<char>| referenced_paths(qd, ol).insert(p).contains(
                        x,
                    ) implies referenced_paths(q, ol).contains(x) by {
                        if x == p {
                            assert(ol[q[q.len() - 1] as int].path@ == x);
                        } else {
                            let k = choose|k: int|
                                0 <= k < qd.len() && qd[k] < ol.len() && ol[qd[k] as int].path@
                                    == x;
                            assert(q[k] == qd[k]);
                            assert(ol[q[k] as int].path@ == x);
                        }
                    }
                }
                assert(paths_of(nl).contains(p)) by {
                    assert(nl[ni].path@ == p);
                }
                assert(referenced_paths(qd, ol).intersect(paths_of(nl)).insert(p)
                    =~= referenced_paths(qd, ol).insert(p).intersect(paths_of(nl)));
            },
            None => {
                // The last entry's path is gone; the rewritten list drops it.
                lemma_remap_referenced(ol, nl, qd, r);
                assert(!paths_of(nl).contains(p));
                assert(referenced_paths(q, ol) =~= referenced_paths(qd, ol).insert(p)) by {
                    assert forall|x: Seq<char>| referenced_paths(q, ol).contains(x) implies
                        referenced_paths(qd, ol).insert(p).contains(x) by {
                        let k = choose|k: int|
                            0 <= k < q.len() && q[k] < ol.len() && ol[q[k] as int].path@ == x;
                        if k < q.len() - 1 {
                            assert(qd[k] == q[k]);
                            assert(referenced_paths(qd, ol).contains(x));
                        } else {
                            assert(x == p);
                        }
                    }
                    assert forall|x: Seq<char>| referenced_paths(qd, ol).insert(p).contains(
                        x,
                    ) implies referenced_paths(q, ol).contains(x) by {
                        if x == p {
                            assert(ol[q[q.len() - 1] as int].path@ == x);
                        } else {
                            let k = choose|k: int|
                                0 <= k < qd.len() && qd[k] < ol.len() && ol[qd[k] as int].path@
                                    == x;
                            assert(q[k] == qd[k]);
                            assert(ol[q[k] as int].path@ == x);
                        }
                    }
                }
                assert(referenced_paths(qd, ol).insert(p).intersect(paths_of(nl))
                    =~= referenced_paths(qd, ol).intersect(paths_of(nl)));
            },
        }
    }
}

/// Every index the remap produces points into the new snapshot.
pub proof fn lemma_remap_in_range(ol: Seq<Track>, nl: Seq<Track>, q: Seq<usize>)
    ensures
        forall|k: int|
            0 <= k < remap_indices(ol, nl, q).len() ==> 0 <= (#[trigger] remap_indices(
                ol,
                nl,
                q,
            )[k]) < nl.len(),
    decreases q.len(),
{
    if q.len() > 0 {
        lemma_remap_in_range(ol, nl, q.drop_last());
        let oi = q.last();
        if oi < ol.len() {
            lemma_path_index_char(nl, ol[oi as int].path@);
        }
        let rd = remap_indices(ol, nl, q.drop_last());
        assert forall|k: int| 0 <= k < remap_indices(ol, nl, q).len() implies 0 <= (
        #[trigger] remap_indices(ol, nl, q)[k]) < nl.len() by {
            if k < rd.len() {
                assert(remap_indices(ol, nl, q)[k] == rd[k]);
            }
        }
    }
}

/// What a reference list points at always lies within its own snapshot.
pub proof fn lemma_referenced_subset(q: Seq<usize>, tracks: Seq<Track>)
    ensures
        referenced_paths(q, tracks).subset_of(paths_of(tracks)),
{
    assert forall|x: Seq<char>| referenced_paths(q, tracks).contains(x) implies paths_of(
        tracks,
    ).contains(x) by {
        let k = choose|k: int|
            0 <= k < q.len() && q[k] < tracks.len() && tracks[q[k] as int].path@ == x;
        assert(tracks[q[k] as int].path@ == x);
    }
}

} // verus!
