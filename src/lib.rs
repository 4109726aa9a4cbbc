use vstd::prelude::*;

mod delaunay;
mod utils;
mod voronoi;

pub use delaunay::{
    halfedges_wf, is_triangulation_wf, next_edge, triangulation_wf, twins_opposite, EMPTY,
};
pub use utils::{
    delaunay_edge_from_voronoi_edge, delaunay_edge_of, has_common_voronoi_edge,
    lemma_common_voronoi_edge_symmetric, lemma_next_edge_cycles, shares_voronoi_edge,
    site_of_incoming, triangle_of_edge, twin_in_triangle,
};
pub use voronoi::{
    corner, has_corner, hull_incoming, incoming, incoming_halfedges, is_cell_of,
    is_corner_before, is_diagram_of, is_rotation, is_seed_among, neighbor_sites,
    tracks_neighbors, triangles_around_site, walk_edge, BuildError, Cell, Voronoi,
};

verus! {

} // verus!
