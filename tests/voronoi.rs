use delaunator::{next_halfedge, triangulate, Point, Triangulation};
use voronoice::{
    delaunay_edge_from_voronoi_edge, has_common_voronoi_edge, incoming_halfedges, neighbor_sites,
    is_triangulation_wf, site_of_incoming, triangle_of_edge, triangles_around_site, BuildError,
    Voronoi, EMPTY,
};

fn points(coords: &[(f64, f64)]) -> Vec<Point> {
    coords.iter().map(|&(x, y)| Point { x, y }).collect()
}

/// Two triangles sharing the short diagonal between sites 2 and 3.
fn diamond() -> (Vec<Point>, Triangulation) {
    let sites = points(&[(0.0, 0.0), (4.0, 0.0), (2.0, 1.0), (2.0, -1.0)]);
    let t = triangulate(&sites);
    (sites, t)
}

/// Three hull sites around one interior site (index 3).
fn star() -> (Vec<Point>, Triangulation) {
    let sites = points(&[(0.0, 0.0), (4.0, 0.0), (2.0, 4.0), (2.0, 1.5)]);
    let t = triangulate(&sites);
    (sites, t)
}

fn sorted(v: &[usize]) -> Vec<usize> {
    let mut v = v.to_vec();
    v.sort();
    v
}

fn circumcenter(a: &Point, b: &Point, c: &Point) -> (f64, f64) {
    let (bx, by) = (b.x - a.x, b.y - a.y);
    let (cx, cy) = (c.x - a.x, c.y - a.y);
    let bb = bx * bx + by * by;
    let cc = cx * cx + cy * cy;
    let d = 1.0 / (2.0 * (bx * cy - by * cx));
    (a.x + d * (cy * bb - by * cc), a.y + d * (bx * cc - cx * bb))
}

#[test]
fn empty_matches_delaunator() {
    assert_eq!(EMPTY, delaunator::EMPTY);
    assert_eq!(EMPTY, usize::MAX);
}

#[test]
fn triangle_of_edge_divides_by_three() {
    assert_eq!(triangle_of_edge(0), 0);
    assert_eq!(triangle_of_edge(2), 0);
    assert_eq!(triangle_of_edge(3), 1);
    assert_eq!(triangle_of_edge(8), 2);
    assert_eq!(triangle_of_edge(9), 3);
}

#[test]
fn next_halfedge_three_times_returns() {
    for e in 0..30usize {
        assert_eq!(next_halfedge(next_halfedge(next_halfedge(e))), e);
        assert_eq!(triangle_of_edge(next_halfedge(e)), triangle_of_edge(e));
    }
    assert_eq!(next_halfedge(3), 4);
    assert_eq!(next_halfedge(5), 3);
}

#[test]
fn site_of_incoming_is_origin_of_next() {
    let (_, t) = diamond();
    assert_eq!(t.triangles.len(), 6);
    for e in 0..t.triangles.len() {
        let s = site_of_incoming(&t, e);
        assert_eq!(s, t.triangles[next_halfedge(e)]);
        assert_ne!(s, t.triangles[e]);
    }
}

#[test]
fn triangulation_shape_is_checked() {
    let (_, t) = diamond();
    assert!(is_triangulation_wf(&t, 4));
    assert!(!is_triangulation_wf(&t, 3));
    let mut bad = t.clone();
    bad.halfedges[0] = 6;
    assert!(!is_triangulation_wf(&bad, 4));
    let mut short = t.clone();
    short.halfedges.pop();
    assert!(!is_triangulation_wf(&short, 4));
}

#[test]
fn delaunay_edge_between_adjacent_triangles() {
    let (_, t) = diamond();
    let e = delaunay_edge_from_voronoi_edge(&t, 0, 1);
    assert_ne!(e, EMPTY);
    assert_eq!(triangle_of_edge(e), 0);
    assert_eq!(triangle_of_edge(t.halfedges[e]), 1);
    // The shared edge joins sites 2 and 3.
    let ends = sorted(&[t.triangles[e], t.triangles[next_halfedge(e)]]);
    assert_eq!(ends, vec![2, 3]);
    let back = delaunay_edge_from_voronoi_edge(&t, 1, 0);
    assert_eq!(back, t.halfedges[e]);
}

#[test]
fn delaunay_edge_missing_or_out_of_range() {
    let (_, t) = diamond();
    assert_eq!(delaunay_edge_from_voronoi_edge(&t, 0, 0), EMPTY);
    assert_eq!(delaunay_edge_from_voronoi_edge(&t, 2, 0), EMPTY);
    assert_eq!(delaunay_edge_from_voronoi_edge(&t, 0, 2), EMPTY);
    assert_eq!(delaunay_edge_from_voronoi_edge(&t, usize::MAX, 0), EMPTY);
    assert_eq!(delaunay_edge_from_voronoi_edge(&t, 1, usize::MAX), EMPTY);
}

#[test]
fn seeds_of_hull_sites_have_no_twin() {
    let (_, t) = star();
    let seeds = incoming_halfedges(&t, 4);
    assert_eq!(seeds.len(), 4);
    for s in 0..4 {
        assert_ne!(seeds[s], EMPTY);
        assert_eq!(site_of_incoming(&t, seeds[s]), s);
    }
    for s in 0..3 {
        assert_eq!(t.halfedges[seeds[s]], EMPTY);
    }
    assert_ne!(t.halfedges[seeds[3]], EMPTY);
}

#[test]
fn seed_of_untouched_site_is_empty() {
    let (_, t) = star();
    let seeds = incoming_halfedges(&t, 6);
    assert_eq!(seeds[4], EMPTY);
    assert_eq!(seeds[5], EMPTY);
}

#[test]
fn rotation_around_interior_site() {
    let (_, t) = star();
    let seeds = incoming_halfedges(&t, 4);
    let tris = triangles_around_site(&t, seeds[3]);
    assert_eq!(sorted(&tris), vec![0, 1, 2]);
    assert_eq!(tris[0], triangle_of_edge(seeds[3]));
}

#[test]
fn rotation_around_hull_site() {
    let (_, t) = star();
    let seeds = incoming_halfedges(&t, 4);
    for s in 0..3 {
        let tris = triangles_around_site(&t, seeds[s]);
        assert_eq!(tris.len(), 2);
        assert_ne!(tris[0], tris[1]);
    }
}

#[test]
fn rotation_is_counter_clockwise() {
    let (sites, t) = star();
    let seeds = incoming_halfedges(&t, 4);
    let tris = triangles_around_site(&t, seeds[3]);
    let centers: Vec<(f64, f64)> = tris
        .iter()
        .map(|&tr| {
            circumcenter(
                &sites[t.triangles[3 * tr]],
                &sites[t.triangles[3 * tr + 1]],
                &sites[t.triangles[3 * tr + 2]],
            )
        })
        .collect();
    let mut area = 0.0;
    for i in 0..centers.len() {
        let (ax, ay) = centers[i];
        let (bx, by) = centers[(i + 1) % centers.len()];
        area += ax * by - bx * ay;
    }
    assert!(area > 0.0);
}

#[test]
fn build_gives_one_cell_per_site() {
    let (_, t) = star();
    let v = Voronoi::from_triangulation(&t, 4).unwrap();
    assert_eq!(v.number_of_cells(), 4);
    for (i, cell) in v.iter_cells().iter().enumerate() {
        assert_eq!(cell.site(), i);
        assert_eq!(v.cell(i).site(), i);
    }
    assert_eq!(sorted(v.cell(3).triangles()), vec![0, 1, 2]);
    for s in 0..3 {
        assert_eq!(v.cell(s).triangles().len(), 2);
    }
}

#[test]
fn build_rejects_too_few_sites() {
    let (_, t) = star();
    assert!(matches!(Voronoi::from_triangulation(&t, 2), Err(BuildError::TooFewSites)));
    assert!(matches!(Voronoi::from_triangulation(&t, 0), Err(BuildError::TooFewSites)));
}

#[test]
fn build_rejects_invalid_triangulation() {
    let (_, t) = star();
    assert!(matches!(
        Voronoi::from_triangulation(&t, 3),
        Err(BuildError::InvalidTriangulation)
    ));
}

#[test]
fn build_rejects_collinear_sites() {
    let sites = points(&[(0.0, 0.0), (1.0, 1.0), (2.0, 2.0)]);
    let t = triangulate(&sites);
    assert!(matches!(Voronoi::from_triangulation(&t, 3), Err(BuildError::NoTriangles)));
}

#[test]
fn build_keeps_untouched_sites_empty() {
    let (_, t) = star();
    let v = Voronoi::from_triangulation(&t, 5).unwrap();
    assert_eq!(v.number_of_cells(), 5);
    assert!(v.cell(4).triangles().is_empty());
}

#[test]
fn common_voronoi_edge_needs_two_triangles() {
    let (_, t) = star();
    let v = Voronoi::from_triangulation(&t, 4).unwrap();
    assert!(has_common_voronoi_edge(&v, 0, 3));
    assert!(has_common_voronoi_edge(&v, 3, 2));
    assert!(!has_common_voronoi_edge(&v, 0, 1));
    let (_, d) = diamond();
    let w = Voronoi::from_triangulation(&d, 4).unwrap();
    assert!(has_common_voronoi_edge(&w, 2, 3));
    assert!(!has_common_voronoi_edge(&w, 0, 1));
    assert!(!has_common_voronoi_edge(&w, 0, 2));
}

#[test]
fn common_voronoi_edge_is_symmetric() {
    let (_, t) = star();
    let v = Voronoi::from_triangulation(&t, 5).unwrap();
    for a in 0..5 {
        for b in 0..5 {
            assert_eq!(has_common_voronoi_edge(&v, a, b), has_common_voronoi_edge(&v, b, a));
        }
    }
}

#[test]
fn unit_square_cells_meet_at_center() {
    let sites = points(&[(0.0, 0.0), (1.0, 0.0), (1.0, 1.0), (0.0, 1.0)]);
    let t = triangulate(&sites);
    let v = Voronoi::from_triangulation(&t, 4).unwrap();
    assert_eq!(v.number_of_cells(), 4);
    for s in 0..4 {
        let tris = v.cell(s).triangles();
        assert!(!tris.is_empty());
        for &tr in tris.iter() {
            let (x, y) = circumcenter(
                &sites[t.triangles[3 * tr]],
                &sites[t.triangles[3 * tr + 1]],
                &sites[t.triangles[3 * tr + 2]],
            );
            assert!((x - 0.5).abs() < 1e-12 && (y - 0.5).abs() < 1e-12);
        }
    }
}

#[test]
fn neighbors_of_interior_site() {
    let (_, t) = star();
    let v = Voronoi::from_triangulation(&t, 4).unwrap();
    let n = neighbor_sites(&t, v.cell(3).triangles(), 3);
    assert_eq!(sorted(&n), vec![0, 1, 2]);
}

#[test]
fn neighbors_of_hull_site() {
    let (_, t) = diamond();
    let v = Voronoi::from_triangulation(&t, 4).unwrap();
    assert_eq!(sorted(&neighbor_sites(&t, v.cell(0).triangles(), 0)), vec![2, 3]);
    assert_eq!(sorted(&neighbor_sites(&t, v.cell(2).triangles(), 2)), vec![0, 1, 3]);
    assert!(neighbor_sites(&t, &Vec::new(), 2).is_empty());
}

#[test]
fn twins_must_run_opposite() {
    let (_, t) = diamond();
    let e = (0..t.halfedges.len()).find(|&e| t.halfedges[e] != EMPTY).unwrap();
    let mut bad = t.clone();
    // Point the twin at the other half-edge of the same neighbouring triangle.
    bad.halfedges[e] = next_halfedge(t.halfedges[e]);
    assert!(!is_triangulation_wf(&bad, 4));
    assert!(matches!(
        Voronoi::from_triangulation(&bad, 4),
        Err(BuildError::InvalidTriangulation)
    ));
}

#[test]
fn cell_triangles_touch_their_site() {
    let (_, t) = star();
    let v = Voronoi::from_triangulation(&t, 4).unwrap();
    for s in 0..4 {
        for &tr in v.cell(s).triangles().iter() {
            assert!(t.triangles[3 * tr..3 * tr + 3].contains(&s));
        }
    }
}
