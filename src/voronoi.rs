use vstd::prelude::*;

use delaunator::{next_halfedge, Triangulation};

use crate::delaunay::{
    halfedges_wf, is_triangulation_wf, next_edge, triangulation_wf, twins_opposite, EMPTY,
};
use crate::utils::{contains_index, lemma_next_edge_in_triangle};

verus! {

/// The combinatorial part of one Voronoi cell: its owning site and the
/// triangles around that site, in counter-clockwise order. The circumcenter
/// of each triangle is one vertex of the cell.
pub struct Cell {
    pub site: usize,
    pub triangles: Vec<usize>,
}

impl Cell {
    /// The index of the site that owns this cell.
    pub fn site(&self) -> (r: usize)
        ensures
            r == self.site,
    {
        self.site
    }

    /// The triangles whose circumcenters are the cell's vertices.
    pub fn triangles(&self) -> (r: &Vec<usize>)
        ensures
            r@ == self.triangles@,
    {
        &self.triangles
    }
}

/// The Voronoi diagram's cells, one per site, `cells[i]` owned by site `i`.
pub struct Voronoi {
    pub cells: Vec<Cell>,
}

impl Voronoi {
    /// Every cell sits at its own site's index.
    pub open spec fn wf(&self) -> bool {
        forall|i: int| 0 <= i < self.cells@.len() ==> (#[trigger] self.cells@[i]).site == i
    }

    /// The triangles of the cell of site `i`.
    pub open spec fn cell_triangles(&self, i: int) -> Seq<usize> {
        self.cells@[i].triangles@
    }

    /// The cell of site `site`.
    pub fn cell(&self, site: usize) -> (r: &Cell)
        requires
            site < self.cells@.len(),
        ensures
            *r == self.cells@[site as int],
    {
        &self.cells[site]
    }

    /// All cells, in site order; the slice can be walked any number of times.
    pub fn iter_cells(&self) -> (r: &[Cell])
        ensures
            r@ == self.cells@,
    {
        self.cells.as_slice()
    }

    /// The number of cells, which is the number of sites.
    pub fn number_of_cells(&self) -> (r: usize)
        ensures
            r == self.cells@.len(),
    {
        self.cells.len()
    }
}

/// The `k`-th half-edge of the rotation that starts at `seed`: each step
/// leaves the site through the next half-edge of the triangle and comes back
/// in through that half-edge's twin.
pub open spec fn walk_edge(halfedges: Seq<usize>, seed: int, k: nat) -> int
    decreases k,
{
    if k == 0 {
        seed
    } else {
        halfedges[next_edge(walk_edge(halfedges, seed, (k - 1) as nat))] as int
    }
}

/// `tris` lists, in order, the triangles of the rotation around the site
/// that `seed` points to: it stops before the twin is `EMPTY` (a hull site),
/// before it comes back to `seed` (an interior site), or after as many
/// steps as there are triangles.
pub open spec fn is_rotation(t: Triangulation, seed: int, tris: Seq<usize>) -> bool {
    let h = t.halfedges@;
    let n = t.triangles@.len() / 3;
    &&& 1 <= tris.len() <= n
    &&& forall|k: int|
        0 <= k < tris.len() ==> 0 <= #[trigger] walk_edge(h, seed, k as nat) < h.len()
            && tris[k] == walk_edge(h, seed, k as nat) / 3
    &&& forall|k: int| 1 <= k < tris.len() ==> #[trigger] walk_edge(h, seed, k as nat) != seed
    &&& tris.len() < n ==> (walk_edge(h, seed, tris.len()) == EMPTY || walk_edge(
        h,
        seed,
        tris.len(),
    ) == seed)
}

/// Site `s` is one of the three corners of triangle `tri`.
pub open spec fn has_corner(t: Triangulation, tri: usize, s: int) -> bool {
    exists|j: int| 3 * tri <= j < 3 * tri + 3 && #[trigger] t.triangles@[j] == s
}

/// The site that half-edge `e` points to is a corner of `e`'s triangle.
proof fn lemma_corner_of_next(t: Triangulation, e: int, tri: usize)
    requires
        0 <= e,
        tri == e / 3,
        0 <= next_edge(e) < t.triangles@.len(),
    ensures
        has_corner(t, tri, incoming(t, e)),
{
    let j = next_edge(e);
    assert(3 * tri <= j < 3 * tri + 3);
    assert(t.triangles@[j] == incoming(t, e));
}

/// Collects the triangles around the site that half-edge `seed` points to,
/// in counter-clockwise order; where twins run in opposite directions, each
/// of them has that site as a corner.
pub fn triangles_around_site(triangulation: &Triangulation, seed: usize) -> (r: Vec<usize>)
    requires
        halfedges_wf(*triangulation),
        seed < triangulation.halfedges@.len(),
    ensures
        is_rotation(*triangulation, seed as int, r@),
        twins_opposite(*triangulation) ==> forall|k: int|
            0 <= k < r@.len() ==> has_corner(
                *triangulation,
                #[trigger] r@[k],
                incoming(*triangulation, seed as int),
            ),
{
    let ghost h = triangulation.halfedges@;
    let len = triangulation.halfedges.len();
    let n = triangulation.triangles.len() / 3;
    let mut out: Vec<usize> = Vec::new();
    out.push(seed / 3);
    let mut e = seed;
    let mut k: usize = 1;
    let mut done = false;
    assert(len == 3 * n);
    proof {
        lemma_next_edge_in_triangle(seed as int, len as int);
        lemma_corner_of_next(*triangulation, seed as int, seed / 3);
    }
    while k < n && !done
        invariant
            halfedges_wf(*triangulation),
            h == triangulation.halfedges@,
            len == h.len(),
            len == 3 * n,
            n == triangulation.triangles@.len() / 3,
            1 <= k <= n,
            out@.len() == k,
            e < len,
            e == walk_edge(h, seed as int, (k - 1) as nat),
            forall|j: int|
                0 <= j < k ==> 0 <= #[trigger] walk_edge(h, seed as int, j as nat) < len
                    && out@[j] == walk_edge(h, seed as int, j as nat) / 3,
            forall|j: int| 1 <= j < k ==> #[trigger] walk_edge(h, seed as int, j as nat) != seed,
            twins_opposite(*triangulation) ==> incoming(*triangulation, e as int) == incoming(
                *triangulation,
                seed as int,
            ),
            twins_opposite(*triangulation) ==> forall|j: int|
                0 <= j < k ==> has_corner(
                    *triangulation,
                    #[trigger] out@[j],
                    incoming(*triangulation, seed as int),
                ),
            done ==> (walk_edge(h, seed as int, k as nat) == EMPTY || walk_edge(
                h,
                seed as int,
                k as nat,
            ) == seed),
        decreases n - k + if done { 0int } else { 1int },
    {
        proof {
            lemma_next_edge_in_triangle(e as int, len as int);
        }
        let twin = triangulation.halfedges[next_halfedge(e)];
        assert(twin == walk_edge(h, seed as int, k as nat));
        if twin == EMPTY || twin == seed {
            done = true;
        } else {
            proof {
                lemma_next_edge_in_triangle(twin as int, len as int);
                lemma_corner_of_next(*triangulation, twin as int, twin / 3);
            }
            out.push(twin / 3);
            e = twin;
            k = k + 1;
        }
    }
    out
}

/// The site that half-edge `e` points to.
pub open spec fn incoming(t: Triangulation, e: int) -> int {
    t.triangles@[next_edge(e)] as int
}

/// Half-edge `e` points to site `s` and has no twin: it is the hull edge
/// through which a rotation around hull site `s` must start.
pub open spec fn hull_incoming(t: Triangulation, s: int, e: int) -> bool {
    incoming(t, e) == s && t.halfedges@[e] == EMPTY
}

/// `seed` is the half-edge chosen for site `s` among the first `i`
/// half-edges: `EMPTY` when none of them points to `s`; otherwise the last
/// hull half-edge pointing to `s` when there is one, and the first
/// half-edge pointing to `s` when there is none.
pub open spec fn is_seed_among(t: Triangulation, s: int, seed: usize, i: int) -> bool {
    &&& (seed == EMPTY) == (forall|j: int| 0 <= j < i ==> #[trigger] incoming(t, j) != s)
    &&& seed != EMPTY ==> seed < i && incoming(t, seed as int) == s
    &&& (exists|j: int| 0 <= j < i && #[trigger] hull_incoming(t, s, j)) ==> (hull_incoming(
        t,
        s,
        seed as int,
    ) && forall|j: int| seed < j < i ==> !#[trigger] hull_incoming(t, s, j))
    &&& (!(exists|j: int| 0 <= j < i && #[trigger] hull_incoming(t, s, j)) && seed != EMPTY)
        ==> forall|j: int| 0 <= j < seed ==> #[trigger] incoming(t, j) != s
}

/// For each site, a half-edge that points to it (`EMPTY` for a site that no
/// triangle touches); for a hull site, the hull half-edge that points to it,
/// so that the rotation covers all its triangles.
pub fn incoming_halfedges(triangulation: &Triangulation, num_sites: usize) -> (r: Vec<usize>)
    requires
        triangulation_wf(*triangulation, num_sites as nat),
    ensures
        r@.len() == num_sites,
        forall|s: int|
            0 <= s < num_sites ==> is_seed_among(
                *triangulation,
                s,
                #[trigger] r@[s],
                triangulation.triangles@.len() as int,
            ),
{
    let len = triangulation.triangles.len();
    let mut seeds: Vec<usize> = Vec::new();
    let mut s: usize = 0;
    while s < num_sites
        invariant
            s <= num_sites,
            seeds@.len() == s,
            forall|j: int| 0 <= j < s ==> #[trigger] seeds@[j] == EMPTY,
        decreases num_sites - s,
    {
        seeds.push(EMPTY);
        s = s + 1;
    }
    let mut e: usize = 0;
    while e < len
        invariant
            triangulation_wf(*triangulation, num_sites as nat),
            len == triangulation.triangles@.len(),
            e <= len,
            seeds@.len() == num_sites,
            forall|s: int|
                0 <= s < num_sites ==> is_seed_among(*triangulation, s, #[trigger] seeds@[s], e as int),
        decreases len - e,
    {
        proof {
            lemma_next_edge_in_triangle(e as int, len as int);
        }
        let site = triangulation.triangles[next_halfedge(e)];
        let ghost old_seeds = seeds@;
        if seeds[site] == EMPTY || triangulation.halfedges[e] == EMPTY {
            seeds.set(site, e);
        }
        assert forall|s: int| 0 <= s < num_sites implies is_seed_among(
            *triangulation,
            s,
            #[trigger] seeds@[s],
            e + 1,
        ) by {
            assert(is_seed_among(*triangulation, s, old_seeds[s], e as int));
            let t = *triangulation;
            let ei = e as int;
            if s != site {
                assert(incoming(t, ei) != s);
                assert(!hull_incoming(t, s, ei));
                if exists|j: int| 0 <= j < ei + 1 && #[trigger] hull_incoming(t, s, j) {
                    let j = choose|j: int| 0 <= j < ei + 1 && #[trigger] hull_incoming(t, s, j);
                    assert(j < ei);
                }
                if !(forall|j: int| 0 <= j < ei + 1 ==> #[trigger] incoming(t, j) != s) {
                    let j = choose|j: int| !(0 <= j < ei + 1 ==> #[trigger] incoming(t, j) != s);
                    assert(j < ei);
                }
            } else {
                assert(incoming(t, ei) == s);
                if old_seeds[s] == EMPTY {
                    assert(!(forall|j: int| 0 <= j < ei + 1 ==> #[trigger] incoming(t, j) != s));
                    if exists|j: int| 0 <= j < ei + 1 && #[trigger] hull_incoming(t, s, j) {
                        let j = choose|j: int| 0 <= j < ei + 1 && #[trigger] hull_incoming(t, s, j);
                        assert(incoming(t, j) == s);
                        assert(j == ei);
                    }
                } else if t.halfedges@[ei] == EMPTY {
                    assert(hull_incoming(t, s, ei));
                    assert(incoming(t, old_seeds[s] as int) == s);
                } else {
                    assert(!hull_incoming(t, s, ei));
                    assert(incoming(t, old_seeds[s] as int) == s);
                    if exists|j: int| 0 <= j < ei + 1 && #[trigger] hull_incoming(t, s, j) {
                        let j = choose|j: int| 0 <= j < ei + 1 && #[trigger] hull_incoming(t, s, j);
                        assert(j < ei);
                    }
                }
            }
        }
        e = e + 1;
    }
    seeds
}

/// The `p`-th corner of the triangles `tris`: corner `p % 3` of triangle
/// `tris[p / 3]`.
pub open spec fn corner(t: Triangulation, tris: Seq<usize>, p: int) -> usize {
    t.triangles@[3 * tris[p / 3] + p % 3]
}

/// Whether `x` is among the first `m` corners of the triangles `tris`.
pub open spec fn is_corner_before(t: Triangulation, tris: Seq<usize>, x: usize, m: int) -> bool {
    exists|p: int| 0 <= p < m && #[trigger] corner(t, tris, p) == x
}

/// `out` holds exactly the sites other than `site` among the first `m`
/// corners of `tris`.
pub open spec fn tracks_neighbors(
    out: Seq<usize>,
    t: Triangulation,
    tris: Seq<usize>,
    site: usize,
    m: int,
) -> bool {
    forall|y: usize| #[trigger] out.contains(y) <==> y != site && is_corner_before(t, tris, y, m)
}

/// Taking corner `m` into account: add it unless it is `site` or already
/// present.
proof fn lemma_tracks_step(
    before: Seq<usize>,
    after: Seq<usize>,
    t: Triangulation,
    tris: Seq<usize>,
    site: usize,
    m: int,
    x: usize,
)
    requires
        0 <= m,
        tracks_neighbors(before, t, tris, site, m),
        corner(t, tris, m) == x,
        (x != site && !before.contains(x)) ==> after == before.push(x),
        !(x != site && !before.contains(x)) ==> after == before,
    ensures
        tracks_neighbors(after, t, tris, site, m + 1),
{
    assert forall|y: usize| #[trigger]
        after.contains(y) <==> y != site && is_corner_before(t, tris, y, m + 1) by {
        if is_corner_before(t, tris, y, m + 1) && y != x {
            let q = choose|q: int| 0 <= q < m + 1 && #[trigger] corner(t, tris, q) == y;
            assert(q < m);
        }
        if is_corner_before(t, tris, y, m) {
            let q = choose|q: int| 0 <= q < m && #[trigger] corner(t, tris, q) == y;
            assert(q < m + 1);
        }
        if y == x {
            assert(corner(t, tris, m) == y);
        }
        if x != site && !before.contains(x) {
            if after.contains(y) && y != x {
                let j = choose|j: int| 0 <= j < after.len() && after[j] == y;
                assert(before[j] == y);
            }
            if before.contains(y) {
                let j = choose|j: int| 0 <= j < before.len() && before[j] == y;
                assert(after[j] == y);
            }
            if y == x {
                assert(after[before.len() as int] == x);
            }
        }
    }
}

/// The sites that share a triangle with `site`, each once, in the order in
/// which they first appear among the corners of `triangles`. The cell of
/// `site` is cut by the bisector with each of them.
pub fn neighbor_sites(triangulation: &Triangulation, triangles: &Vec<usize>, site: usize) -> (r:
    Vec<usize>)
    requires
        triangulation.triangles@.len() % 3 == 0,
        forall|i: int|
            0 <= i < triangles@.len() ==> #[trigger] triangles@[i] < triangulation.triangles@.len()
                / 3,
    ensures
        r@.no_duplicates(),
        forall|x: usize|
            r@.contains(x) <==> x != site && is_corner_before(
                *triangulation,
                triangles@,
                x,
                (3 * triangles@.len()) as int,
            ),
{
    let ghost t = *triangulation;
    let ghost tris = triangles@;
    let len = triangulation.triangles.len();
    let mut out: Vec<usize> = Vec::new();
    let mut i: usize = 0;
    while i < triangles.len()
        invariant
            t == *triangulation,
            tris == triangles@,
            len == t.triangles@.len(),
            len % 3 == 0,
            forall|i: int| 0 <= i < tris.len() ==> #[trigger] tris[i] < len / 3,
            i <= tris.len(),
            out@.no_duplicates(),
            tracks_neighbors(out@, t, tris, site, 3 * i),
        decreases tris.len() - i,
    {
        let base = 3 * triangles[i];
        let mut k: usize = 0;
        while k < 3
            invariant
                t == *triangulation,
                tris == triangles@,
                len == t.triangles@.len(),
                i < tris.len(),
                base == 3 * tris[i as int],
                base + 3 <= len,
                k <= 3,
                out@.no_duplicates(),
                tracks_neighbors(out@, t, tris, site, 3 * i + k),
            decreases 3 - k,
        {
            let x = triangulation.triangles[base + k];
            let ghost p = 3 * i + k;
            assert(corner(t, tris, p) == x) by {
                assert(p / 3 == i && p % 3 == k);
            }
            let ghost before = out@;
            let fresh = x != site && !contains_index(&out, x);
            if fresh {
                out.push(x);
            }
            proof {
                lemma_tracks_step(before, out@, t, tris, site, p, x);
            }
            k = k + 1;
            assert(p + 1 == 3 * i + k);
        }
        i = i + 1;
    }
    out
}

/// Why a diagram could not be built.
#[derive(Debug, Clone, Copy, PartialEq, Eq, Structural)]
pub enum BuildError {
    /// Fewer than three sites were given.
    TooFewSites,
    /// The triangulation's arrays do not have the shape of a triangulation
    /// of the given sites.
    InvalidTriangulation,
    /// The triangulation has no triangle: all sites are collinear.
    NoTriangles,
}

/// `tris` are the triangles of site `s`'s cell: those of the rotation from
/// the seed half-edge chosen for `s`, and none when no triangle touches `s`.
pub open spec fn is_cell_of(t: Triangulation, s: int, tris: Seq<usize>) -> bool {
    exists|seed: usize|
        #[trigger] is_seed_among(t, s, seed, t.triangles@.len() as int) && if seed == EMPTY {
            tris.len() == 0
        } else {
            is_rotation(t, seed as int, tris)
        }
}

/// `v` has one cell per site, each at its site's index, holding the triangles
/// of the rotation around that site, each of which has the site as a corner.
pub open spec fn is_diagram_of(v: Voronoi, t: Triangulation, num_sites: int) -> bool {
    &&& v.wf()
    &&& v.cells@.len() == num_sites
    &&& forall|s: int| 0 <= s < num_sites ==> is_cell_of(t, s, #[trigger] v.cell_triangles(s))
    &&& forall|s: int, k: int|
        0 <= s < num_sites && 0 <= k < v.cell_triangles(s).len() ==> has_corner(
            t,
            #[trigger] v.cell_triangles(s)[k],
            s,
        )
}

impl Voronoi {
    /// Builds the cells of the diagram of `num_sites` sites from their
    /// Delaunay triangulation: cell `s` holds the triangles around site `s`.
    pub fn from_triangulation(triangulation: &Triangulation, num_sites: usize) -> (r: Result<
        Voronoi,
        BuildError,
    >)
        ensures
            num_sites < 3 ==> r == Err::<Voronoi, BuildError>(BuildError::TooFewSites),
            num_sites >= 3 && !triangulation_wf(*triangulation, num_sites as nat) ==> r == Err::<
                Voronoi,
                BuildError,
            >(BuildError::InvalidTriangulation),
            num_sites >= 3 && triangulation_wf(*triangulation, num_sites as nat)
                && triangulation.triangles@.len() == 0 ==> r == Err::<Voronoi, BuildError>(
                BuildError::NoTriangles,
            ),
            num_sites >= 3 && triangulation_wf(*triangulation, num_sites as nat)
                && triangulation.triangles@.len() > 0 ==> (r matches Ok(v) && is_diagram_of(
                v,
                *triangulation,
                num_sites as int,
            )),
    {
        if num_sites < 3 {
            return Err(BuildError::TooFewSites);
        }
        if !is_triangulation_wf(triangulation, num_sites) {
            return Err(BuildError::InvalidTriangulation);
        }
        if triangulation.triangles.len() == 0 {
            return Err(BuildError::NoTriangles);
        }
        let seeds = incoming_halfedges(triangulation, num_sites);
        let ghost len = triangulation.triangles@.len() as int;
        let mut cells: Vec<Cell> = Vec::new();
        let mut s: usize = 0;
        while s < num_sites
            invariant
                triangulation_wf(*triangulation, num_sites as nat),
                len == triangulation.triangles@.len(),
                seeds@.len() == num_sites,
                forall|i: int|
                    0 <= i < num_sites ==> is_seed_among(*triangulation, i, #[trigger] seeds@[i], len),
                s <= num_sites,
                cells@.len() == s,
                forall|i: int| 0 <= i < s ==> (#[trigger] cells@[i]).site == i,
                forall|i: int|
                    0 <= i < s ==> is_cell_of(*triangulation, i, (#[trigger] cells@[i]).triangles@),
                forall|i: int, k: int|
                    0 <= i < s && 0 <= k < cells@[i].triangles@.len() ==> has_corner(
                        *triangulation,
                        #[trigger] cells@[i].triangles@[k],
                        i,
                    ),
            decreases num_sites - s,
        {
            let seed = seeds[s];
            let triangles = if seed == EMPTY {
                Vec::new()
            } else {
                triangles_around_site(triangulation, seed)
            };
            cells.push(Cell { site: s, triangles });
            s = s + 1;
        }
        let v = Voronoi { cells };
        Ok(v)
    }
}

} // verus!
