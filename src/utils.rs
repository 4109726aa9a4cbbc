use vstd::prelude::*;

use delaunator::{next_halfedge, Triangulation};

use crate::delaunay::{next_edge, EMPTY};
use crate::voronoi::Voronoi;

verus! {

/// Gets the index of the triangle a half-edge belongs to.
pub fn triangle_of_edge(edge: usize) -> (r: usize)
    ensures
        r == edge / 3,
{
    edge / 3
}

/// Three steps of `next_halfedge` come back to the starting half-edge:
/// every triangle has exactly three half-edges.
pub proof fn lemma_next_edge_cycles(e: int)
    requires
        0 <= e,
    ensures
        next_edge(next_edge(next_edge(e))) == e,
        next_edge(e) / 3 == e / 3,
        0 <= next_edge(e),
{
}

/// The site that half-edge `e` points to (while `triangles[e]` is the site it
/// starts from).
pub fn site_of_incoming(triangulation: &Triangulation, e: usize) -> (r: usize)
    requires
        e < triangulation.triangles@.len(),
        triangulation.triangles@.len() % 3 == 0,
    ensures
        r == triangulation.triangles@[next_edge(e as int)],
{
    let len = triangulation.triangles.len();
    proof {
        lemma_next_edge_in_triangle(e as int, len as int);
    }
    triangulation.triangles[next_halfedge(e)]
}

/// The next half-edge stays inside a triangulation whose length is a
/// multiple of three, and inside the same triangle.
pub(crate) proof fn lemma_next_edge_in_triangle(e: int, len: int)
    requires
        0 <= e < len,
        len % 3 == 0,
    ensures
        0 <= next_edge(e) < len,
        next_edge(e) / 3 == e / 3,
{
}

/// Half-edge `3 * t + k` of triangle `t` is followed by `3 * t + k + 1`, and
/// the last one by the first.
proof fn lemma_next_edge_of_base(t: int, k: int)
    requires
        0 <= t,
        0 <= k < 3,
    ensures
        next_edge(3 * t + k) == if k < 2 { 3 * t + k + 1 } else { 3 * t },
{
    assert((3 * t + k) % 3 == k) by (nonlinear_arith)
        requires
            0 <= t,
            0 <= k < 3,
    ;
}

/// Whether some half-edge of triangle `b` has the half-edge `3 * a + k` of
/// triangle `a` as its twin.
pub open spec fn twin_in_triangle(halfedges: Seq<usize>, a: int, b: int, k: int) -> bool {
    exists|j: int| 3 * b <= j < 3 * b + 3 && #[trigger] halfedges[j] == 3 * a + k
}

/// The Delaunay half-edge crossed by the Voronoi edge between the
/// circumcenters of triangles `a` and `b`: the first half-edge of `a`, in
/// triangle order, whose twin lies in `b`; `EMPTY` when either index is not
/// a triangle or the two triangles share no edge.
pub open spec fn delaunay_edge_of(t: Triangulation, a: int, b: int) -> usize {
    let n = t.triangles@.len() / 3;
    let h = t.halfedges@;
    if !(0 <= a < n && 0 <= b < n) {
        EMPTY
    } else if twin_in_triangle(h, a, b, 0) {
        (3 * a) as usize
    } else if twin_in_triangle(h, a, b, 1) {
        (3 * a + 1) as usize
    } else if twin_in_triangle(h, a, b, 2) {
        (3 * a + 2) as usize
    } else {
        EMPTY
    }
}

/// Gets the Delaunay edge associated with a Voronoi edge whose end points are
/// the circumcenters of triangles `a` and `b`.
///
/// Returns `EMPTY` if the Voronoi edge does not exist (or was clipped, so its
/// end points are not circumcenters).
pub fn delaunay_edge_from_voronoi_edge(triangulation: &Triangulation, a: usize, b: usize) -> (r:
    usize)
    requires
        triangulation.triangles@.len() == triangulation.halfedges@.len(),
        triangulation.triangles@.len() % 3 == 0,
    ensures
        r == delaunay_edge_of(*triangulation, a as int, b as int),
        a >= triangulation.triangles@.len() / 3 ==> r == EMPTY,
        b >= triangulation.triangles@.len() / 3 ==> r == EMPTY,
{
    let len = triangulation.triangles.len();
    let n = len / 3;
    if a < n && b < n {
        let ghost h = triangulation.halfedges@;
        assert(len == 3 * n);
        let mut ta = a * 3;
        let mut k: usize = 0;
        while k < 3
            invariant
                triangulation.halfedges@ == h,
                h.len() == 3 * n,
                len == 3 * n,
                a < n,
                b < n,
                triangulation.triangles@.len() == len,
                k <= 3,
                ta == if k < 3 { 3 * a + k } else { 3 * a },
                forall|i: int| 0 <= i < k ==> !twin_in_triangle(h, a as int, b as int, i),
            decreases 3 - k,
        {
            let mut tb = b * 3;
            let mut j: usize = 0;
            while j < 3
                invariant
                    triangulation.halfedges@ == h,
                    h.len() == 3 * n,
                    len == 3 * n,
                    triangulation.triangles@.len() == len,
                    a < n,
                    b < n,
                    k < 3,
                    forall|i: int| 0 <= i < k ==> !twin_in_triangle(h, a as int, b as int, i),
                    ta == 3 * a + k,
                    j <= 3,
                    tb == if j < 3 { 3 * b + j } else { 3 * b },
                    forall|i: int| 3 * b <= i < 3 * b + j ==> #[trigger] h[i] != ta,
                decreases 3 - j,
            {
                if ta == triangulation.halfedges[tb] {
                    assert(twin_in_triangle(h, a as int, b as int, k as int)) by {
                        assert(h[3 * b + j] == 3 * a + k);
                    }
                    return ta;
                }
                proof {
                    lemma_next_edge_of_base(b as int, j as int);
                }
                tb = next_halfedge(tb);
                j = j + 1;
            }
            assert(!twin_in_triangle(h, a as int, b as int, k as int));
            proof {
                lemma_next_edge_of_base(a as int, k as int);
            }
            ta = next_halfedge(ta);
            k = k + 1;
        }
    }
    EMPTY
}

} // verus!

verus! {

/// Two triangle lists share a Voronoi edge when they have at least two
/// distinct triangles in common: the edge joins those two circumcenters.
pub open spec fn shares_voronoi_edge(ta: Seq<usize>, tb: Seq<usize>) -> bool {
    exists|x: usize, y: usize|
        x != y && #[trigger] ta.contains(x) && #[trigger] ta.contains(y) && tb.contains(x)
            && tb.contains(y)
}

/// Whether `x` occurs in `v`.
pub(crate) fn contains_index(v: &Vec<usize>, x: usize) -> (r: bool)
    ensures
        r == v@.contains(x),
{
    let mut i: usize = 0;
    while i < v.len()
        invariant
            i <= v@.len(),
            forall|j: int| 0 <= j < i ==> v@[j] != x,
        decreases v@.len() - i,
    {
        if v[i] == x {
            return true;
        }
        i = i + 1;
    }
    false
}

/// Given a Voronoi diagram and two sites, returns whether their cells share
/// a common Voronoi edge, that is at least two incident triangles (a single
/// shared triangle is only a shared vertex).
pub fn has_common_voronoi_edge(voronoi: &Voronoi, a: usize, b: usize) -> (r: bool)
    requires
        a < voronoi.cells@.len(),
        b < voronoi.cells@.len(),
    ensures
        r == shares_voronoi_edge(voronoi.cell_triangles(a as int), voronoi.cell_triangles(b as int)),
{
    let ta = voronoi.cell(a).triangles();
    let tb = voronoi.cell(b).triangles();
    let mut first: Option<usize> = None;
    let mut i: usize = 0;
    while i < ta.len()
        invariant
            ta@ == voronoi.cell_triangles(a as int),
            tb@ == voronoi.cell_triangles(b as int),
            i <= ta@.len(),
            first is None ==> forall|j: int| 0 <= j < i ==> !tb@.contains(#[trigger] ta@[j]),
            first matches Some(f) ==> {
                &&& ta@.contains(f)
                &&& tb@.contains(f)
                &&& forall|j: int| 0 <= j < i && tb@.contains(#[trigger] ta@[j]) ==> ta@[j] == f
            },
        decreases ta@.len() - i,
    {
        let x = ta[i];
        if contains_index(tb, x) {
            match first {
                None => {
                    first = Some(x);
                },
                Some(f) => {
                    if f != x {
                        assert(ta@[i as int] == x);
                        assert(ta@.contains(x) && ta@.contains(f) && tb@.contains(x) && tb@.contains(f));
                        assert(shares_voronoi_edge(ta@, tb@));
                        return true;
                    }
                },
            }
        }
        i = i + 1;
    }
    proof {
        if shares_voronoi_edge(ta@, tb@) {
            let (x, y) = choose|x: usize, y: usize|
                x != y && #[trigger] ta@.contains(x) && #[trigger] ta@.contains(y)
                    && tb@.contains(x) && tb@.contains(y);
            let jx = choose|j: int| 0 <= j < ta@.len() && ta@[j] == x;
            let jy = choose|j: int| 0 <= j < ta@.len() && ta@[j] == y;
            assert(tb@.contains(ta@[jx]));
            assert(tb@.contains(ta@[jy]));
        }
    }
    false
}

/// Sharing a Voronoi edge is symmetric: `has_common_voronoi_edge(v, a, b)`
/// and `has_common_voronoi_edge(v, b, a)` always agree.
pub proof fn lemma_common_voronoi_edge_symmetric(voronoi: &Voronoi, a: int, b: int)
    requires
        0 <= a < voronoi.cells@.len(),
        0 <= b < voronoi.cells@.len(),
    ensures
        shares_voronoi_edge(voronoi.cell_triangles(a), voronoi.cell_triangles(b))
            == shares_voronoi_edge(voronoi.cell_triangles(b), voronoi.cell_triangles(a)),
{
    let ta = voronoi.cell_triangles(a);
    let tb = voronoi.cell_triangles(b);
    if shares_voronoi_edge(ta, tb) {
        let (x, y) = choose|x: usize, y: usize|
            x != y && #[trigger] ta.contains(x) && #[trigger] ta.contains(y) && tb.contains(x)
                && tb.contains(y);
        assert(tb.contains(x) && tb.contains(y));
    }
    if shares_voronoi_edge(tb, ta) {
        let (x, y) = choose|x: usize, y: usize|
            x != y && #[trigger] tb.contains(x) && #[trigger] tb.contains(y) && ta.contains(x)
                && ta.contains(y);
        assert(ta.contains(x) && ta.contains(y));
    }
}

} // verus!
