use ccw_render::mesh_edges::{
    canonical_vertices_by_position, classify_mesh_edges, mesh_edge_adjacency, EdgeKey,
    ExtractedMeshEdges,
};

fn position_keys(positions: &[[f32; 3]]) -> Vec<[u32; 3]> {
    positions
        .iter()
        .map(|position| {
            [
                (position[0] + 0.0).to_bits(),
                (position[1] + 0.0).to_bits(),
                (position[2] + 0.0).to_bits(),
            ]
        })
        .collect()
}

fn extract(
    positions: &[[f32; 3]],
    indices: &[u32],
    sharp_two_face_edges: bool,
) -> ExtractedMeshEdges {
    let keys = position_keys(positions);
    let canonical = canonical_vertices_by_position(&keys);
    let usable = vec![true; indices.len() / 3];
    let adjacency = mesh_edge_adjacency(&canonical, indices, &usable);
    let sharp: Vec<bool> = adjacency
        .iter()
        .map(|edge_use| edge_use.face_count == 2 && sharp_two_face_edges)
        .collect();
    classify_mesh_edges(&adjacency, &sharp)
}

#[test]
fn single_triangle_extracts_three_boundary_edges() {
    let edges = extract(
        &[[0.0, 0.0, 0.0], [1.0, 0.0, 0.0], [0.0, 1.0, 0.0]],
        &[0, 1, 2],
        false,
    );

    assert_eq!(edges.boundary_edges, vec![[0, 1], [0, 2], [1, 2]]);
    assert!(edges.crease_edges.is_empty());
}

#[test]
fn coplanar_quad_split_into_triangles_extracts_outer_boundary_only() {
    let edges = extract(
        &[
            [0.0, 0.0, 0.0],
            [1.0, 0.0, 0.0],
            [1.0, 1.0, 0.0],
            [0.0, 1.0, 0.0],
        ],
        &[0, 1, 2, 0, 2, 3],
        false,
    );

    assert_eq!(edges.boundary_edges, vec![[0, 1], [0, 3], [1, 2], [2, 3]]);
    assert!(edges.crease_edges.is_empty());
}

#[test]
fn angled_two_triangle_mesh_extracts_shared_edge_as_crease() {
    let edges = extract(
        &[
            [0.0, 0.0, 0.0],
            [1.0, 0.0, 0.0],
            [0.0, 1.0, 0.0],
            [0.0, 0.0, 1.0],
        ],
        &[0, 1, 2, 1, 0, 3],
        true,
    );

    assert_eq!(edges.crease_edges, vec![[0, 1]]);
}

#[test]
fn non_manifold_shared_edge_extracts_shared_edge_as_crease() {
    let edges = extract(
        &[
            [0.0, 0.0, 0.0],
            [1.0, 0.0, 0.0],
            [0.0, 1.0, 0.0],
            [0.0, 0.0, 1.0],
            [0.0, -1.0, 0.0],
        ],
        &[0, 1, 2, 1, 0, 3, 0, 1, 4],
        false,
    );

    assert!(edges.crease_edges.contains(&[0, 1]));
}

#[test]
fn coincident_vertices_share_their_first_index() {
    let keys = vec![[1, 2, 3], [4, 5, 6], [1, 2, 3], [4, 5, 6], [7, 8, 9]];
    assert_eq!(canonical_vertices_by_position(&keys), vec![0, 1, 0, 1, 4]);
}

#[test]
fn split_vertices_are_welded_before_edges_are_matched() {
    // Two triangles of a flat quad whose shared edge uses duplicated vertices.
    let keys = vec![[0, 0, 0], [1, 0, 0], [1, 1, 0], [0, 0, 0], [1, 1, 0], [0, 1, 0]];
    let canonical = canonical_vertices_by_position(&keys);
    let adjacency = mesh_edge_adjacency(&canonical, &[0, 1, 2, 3, 4, 5], &[true, true]);
    let shared = adjacency
        .iter()
        .find(|edge_use| edge_use.edge == EdgeKey { a: 0, b: 2 })
        .unwrap();
    assert_eq!(shared.face_count, 2);
    assert_eq!(shared.first_face, 0);
    assert_eq!(shared.second_face, Some(1));
    let edges = classify_mesh_edges(&adjacency, &vec![false; adjacency.len()]);
    assert_eq!(edges.boundary_edges, vec![[0, 1], [0, 5], [1, 2], [2, 5]]);
}

#[test]
fn unusable_and_out_of_range_triangles_are_skipped() {
    let canonical = vec![0, 1, 2, 3];
    let adjacency = mesh_edge_adjacency(&canonical, &[0, 1, 2, 1, 2, 9, 0, 2, 3, 7], &[true, true, false]);
    let edges: Vec<EdgeKey> = adjacency.iter().map(|edge_use| edge_use.edge).collect();
    assert_eq!(
        edges,
        vec![EdgeKey { a: 0, b: 1 }, EdgeKey { a: 0, b: 2 }, EdgeKey { a: 1, b: 2 }]
    );
    assert!(adjacency.iter().all(|edge_use| edge_use.face_count == 1));
}

#[test]
fn degenerate_triangles_contribute_only_distinct_edges() {
    let edges = EdgeKey::new(3, 3);
    assert_eq!(edges, None);
    assert_eq!(EdgeKey::new(5, 2), Some(EdgeKey { a: 2, b: 5 }));
    assert_eq!(EdgeKey { a: 2, b: 5 }.as_pair(), [2, 5]);
    let adjacency = mesh_edge_adjacency(&[0, 1, 2], &[0, 0, 1], &[true]);
    assert_eq!(adjacency.len(), 1);
    assert_eq!(adjacency[0].edge, EdgeKey { a: 0, b: 1 });
}
