use vstd::prelude::*;

use delaunator::next_halfedge;

use crate::utils::lemma_next_edge_in_triangle;

verus! {

/// Marks a half-edge that has no twin (it lies on the convex hull), and a
/// lookup that found nothing. Equal to `delaunator::EMPTY`.
pub const EMPTY: usize = usize::MAX;

/// The triangulation produced by delaunator: `triangles[e]` is the site that
/// half-edge `e` starts from, `halfedges[e]` its twin or `EMPTY`, and `hull`
/// the sites of the convex hull. All three fields are public vectors of
/// indices and are read directly.
#[verifier::external_type_specification]
pub struct ExTriangulation(delaunator::Triangulation);

/// The half-edge that follows `e` in its triangle.
pub open spec fn next_edge(e: int) -> int {
    if e % 3 == 2 {
        e - 2
    } else {
        e + 1
    }
}

/// Relies on delaunator::next_halfedge: `i - 2` when `i % 3 == 2`, else
/// `i + 1` (which overflows only at `usize::MAX`).
pub assume_specification[ delaunator::next_halfedge ](i: usize) -> (r: usize)
    requires
        i < usize::MAX,
    ensures
        r == next_edge(i as int),
;

/// The half-edge structure of a triangulation: one twin entry per
/// half-edge, three half-edges per triangle, every twin a half-edge or
/// `EMPTY`.
pub open spec fn halfedges_wf(t: delaunator::Triangulation) -> bool {
    &&& t.triangles@.len() == t.halfedges@.len()
    &&& t.triangles@.len() % 3 == 0
    &&& forall|e: int|
        0 <= e < t.halfedges@.len() ==> (#[trigger] t.halfedges@[e] == EMPTY
            || t.halfedges@[e] < t.halfedges@.len())
}

/// Twin half-edges run in opposite directions: the twin of `e` ends where
/// `e` starts.
pub open spec fn twins_opposite(t: delaunator::Triangulation) -> bool {
    forall|e: int|
        0 <= e < t.halfedges@.len() && #[trigger] t.halfedges@[e] != EMPTY ==> t.triangles@[next_edge(
            t.halfedges@[e] as int,
        )] == t.triangles@[e]
}

/// A triangulation over `num_sites` sites: its half-edge structure is sound,
/// twins run in opposite directions and every half-edge starts from one of
/// the sites.
pub open spec fn triangulation_wf(t: delaunator::Triangulation, num_sites: nat) -> bool {
    &&& halfedges_wf(t)
    &&& twins_opposite(t)
    &&& forall|e: int| 0 <= e < t.triangles@.len() ==> #[trigger] t.triangles@[e] < num_sites
}

/// Checks the shape that `triangulation_wf` describes.
pub fn is_triangulation_wf(t: &delaunator::Triangulation, num_sites: usize) -> (r: bool)
    ensures
        r == triangulation_wf(*t, num_sites as nat),
{
    let len = t.triangles.len();
    if len != t.halfedges.len() || len % 3 != 0 {
        return false;
    }
    let mut i: usize = 0;
    while i < len
        invariant
            len == t.triangles@.len(),
            len == t.halfedges@.len(),
            len % 3 == 0,
            i <= len,
            forall|e: int|
                0 <= e < i ==> (#[trigger] t.halfedges@[e] == EMPTY || t.halfedges@[e] < len),
            forall|e: int| 0 <= e < i ==> #[trigger] t.triangles@[e] < num_sites,
            forall|e: int|
                0 <= e < i && #[trigger] t.halfedges@[e] != EMPTY ==> t.triangles@[next_edge(
                    t.halfedges@[e] as int,
                )] == t.triangles@[e],
        decreases len - i,
    {
        let h = t.halfedges[i];
        if h != EMPTY {
            if h >= len {
                return false;
            }
            proof {
                lemma_next_edge_in_triangle(h as int, len as int);
            }
            if t.triangles[next_halfedge(h)] != t.triangles[i] {
                return false;
            }
        }
        if t.triangles[i] >= num_sites {
            return false;
        }
        i = i + 1;
    }
    true
}

} // verus!
