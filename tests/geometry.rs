use learn_wgpu::geometry::{
    cone_indices, cone_vertex_count, cube_indices, cylinder_indices, cylinder_vertex_count,
    grid_indices, grid_vertex_count, plane_indices, sphere_indices, sphere_vertex_count,
    MeshIndices, INDICES32_THRESHOLD,
};

fn values(m: &MeshIndices) -> Vec<u32> {
    if m.indices32.is_empty() {
        m.indices16.iter().map(|&i| u32::from(i)).collect()
    } else {
        assert!(m.indices16.is_empty());
        m.indices32.clone()
    }
}

fn assert_sized(m: &MeshIndices) {
    let n = m.indices16.len() + m.indices32.len();
    if n > INDICES32_THRESHOLD {
        assert!(m.indices16.is_empty());
        assert_eq!(m.indices32.len(), n);
    } else {
        assert!(m.indices32.is_empty());
        assert_eq!(m.indices16.len(), n);
    }
}

// Straightforward loops over the vertex numbering, one per shape.

fn sphere_expected(levels: u32, slices: u32) -> Vec<u32> {
    let mut v = Vec::new();
    if levels > 1 {
        for j in 1..=slices {
            v.extend([0, j % (slices + 1) + 1, j]);
        }
    }
    for i in 1..(levels - 1) {
        for j in 1..=slices {
            let a = (i - 1) * (slices + 1) + j;
            let b = (i - 1) * (slices + 1) + j % (slices + 1) + 1;
            let c = i * (slices + 1) + j % (slices + 1) + 1;
            let d = i * (slices + 1) + j;
            v.extend([a, b, c, c, d, a]);
        }
    }
    if levels > 1 {
        for j in 1..=slices {
            v.extend([
                (levels - 2) * (slices + 1) + j,
                (levels - 2) * (slices + 1) + j % (slices + 1) + 1,
                (levels - 1) * (slices + 1) + 1,
            ]);
        }
    }
    v
}

fn cylinder_expected(slices: u32, stacks: u32) -> Vec<u32> {
    let mut v = Vec::new();
    for i in 0..stacks {
        for j in 0..slices {
            v.extend([
                i * (slices + 1) + j,
                (i + 1) * (slices + 1) + j,
                (i + 1) * (slices + 1) + j + 1,
                i * (slices + 1) + j,
                (i + 1) * (slices + 1) + j + 1,
                i * (slices + 1) + j + 1,
            ]);
        }
    }
    let mut offset = (slices + 1) * (stacks + 1);
    for i in 1..=slices {
        v.extend([offset, offset + i % (slices + 1) + 1, offset + i]);
    }
    offset += slices + 2;
    for i in 1..=slices {
        v.extend([offset, offset + i, offset + i % (slices + 1) + 1]);
    }
    v
}

fn cone_expected(slices: u32) -> Vec<u32> {
    let mut v = Vec::new();
    for i in 0..slices {
        v.extend([i, slices + (i + 1) % slices, slices + i % slices]);
    }
    let offset = 2 * slices;
    for i in 0..slices {
        v.extend([offset + slices, offset + i % slices, offset + (i + 1) % slices]);
    }
    v
}

fn grid_expected(slices_x: u32, slices_y: u32) -> Vec<u32> {
    let mut v = Vec::new();
    for i in 0..slices_y {
        for j in 0..slices_x {
            v.extend([
                i * (slices_x + 1) + j,
                (i + 1) * (slices_x + 1) + j,
                (i + 1) * (slices_x + 1) + j + 1,
                (i + 1) * (slices_x + 1) + j + 1,
                i * (slices_x + 1) + j + 1,
                i * (slices_x + 1) + j,
            ]);
        }
    }
    v
}

#[test]
fn cube_indices_are_two_triangles_per_face() {
    let m = cube_indices();
    assert_eq!(
        m.indices16,
        vec![
            0, 1, 2, 2, 3, 0, 4, 5, 6, 6, 7, 4, 8, 9, 10, 10, 11, 8, 12, 13, 14, 14, 15, 12, 16,
            17, 18, 18, 19, 16, 20, 21, 22, 22, 23, 20,
        ]
    );
    assert!(m.indices32.is_empty());
}

#[test]
fn plane_indices_are_one_quad() {
    let m = plane_indices();
    assert_eq!(m.indices16, vec![0, 1, 2, 2, 3, 0]);
    assert!(m.indices32.is_empty());
}

#[test]
fn grid_one_cell() {
    let m = grid_indices(1, 1);
    assert_eq!(m.indices16, vec![0, 2, 3, 3, 1, 0]);
    assert_eq!(grid_vertex_count(1, 1), 4);
}

#[test]
fn grid_two_by_one() {
    let m = grid_indices(2, 1);
    assert_eq!(m.indices16, vec![0, 3, 4, 4, 1, 0, 1, 4, 5, 5, 2, 1]);
    assert_eq!(grid_vertex_count(2, 1), 6);
}

#[test]
fn grid_default_size() {
    let m = grid_indices(20, 20);
    assert_eq!(values(&m), grid_expected(20, 20));
    assert_eq!(m.indices16.len(), 2400);
    assert_eq!(grid_vertex_count(20, 20), 441);
}

#[test]
fn grid_without_cells_is_empty() {
    let m = grid_indices(0, 5);
    assert!(m.indices16.is_empty() && m.indices32.is_empty());
    assert_eq!(grid_vertex_count(0, 5), 6);
}

#[test]
fn grid_at_threshold_keeps_16_bits() {
    // 6 * 10922 = 65532 indices
    let m = grid_indices(10922, 1);
    assert_eq!(m.indices16.len(), 65532);
    assert!(m.indices32.is_empty());
    assert_eq!(values(&m), grid_expected(10922, 1));
}

#[test]
fn grid_past_threshold_switches_to_32_bits() {
    // 6 * 10923 = 65538 indices
    let m = grid_indices(10923, 1);
    assert!(m.indices16.is_empty());
    assert_eq!(m.indices32.len(), 65538);
    assert_eq!(m.indices32, grid_expected(10923, 1));
    assert_eq!(*m.indices32.iter().max().unwrap(), 2 * 10924 - 1);
}

#[test]
fn sphere_two_levels_two_slices() {
    let m = sphere_indices(2, 2);
    assert_eq!(m.indices16, vec![0, 2, 1, 0, 3, 2, 1, 2, 4, 2, 3, 4]);
    assert_eq!(sphere_vertex_count(2, 2), 5);
}

#[test]
fn sphere_three_levels_one_slice() {
    let m = sphere_indices(3, 1);
    assert_eq!(m.indices16, vec![0, 2, 1, 1, 2, 4, 4, 3, 1, 3, 4, 5]);
    assert_eq!(sphere_vertex_count(3, 1), 6);
}

#[test]
fn sphere_of_one_level_has_no_triangles() {
    let m = sphere_indices(1, 20);
    assert!(m.indices16.is_empty() && m.indices32.is_empty());
    assert_eq!(sphere_vertex_count(1, 20), 2);
}

#[test]
fn sphere_default_size() {
    let m = sphere_indices(20, 20);
    assert_eq!(m.indices16.len(), 6 * 19 * 20);
    assert_eq!(values(&m), sphere_expected(20, 20));
    assert_eq!(sphere_vertex_count(20, 20), 2 + 19 * 21);
}

#[test]
fn sphere_large_uses_32_bits() {
    let m = sphere_indices(200, 100);
    assert!(m.indices16.is_empty());
    assert_eq!(m.indices32, sphere_expected(200, 100));
}

#[test]
fn cylinder_one_slice_one_stack() {
    let m = cylinder_indices(1, 1);
    assert_eq!(
        m.indices16,
        vec![0, 2, 3, 0, 3, 1, 4, 6, 5, 7, 8, 9]
    );
    assert_eq!(cylinder_vertex_count(1, 1), 10);
}

#[test]
fn cylinder_default_size() {
    let m = cylinder_indices(20, 10);
    assert_eq!(m.indices16.len(), 6 * 20 * 11);
    assert_eq!(values(&m), cylinder_expected(20, 10));
    assert_eq!(cylinder_vertex_count(20, 10), 21 * 13 + 2);
}

#[test]
fn cylinder_large_uses_32_bits() {
    let m = cylinder_indices(300, 40);
    assert!(m.indices16.is_empty());
    assert_eq!(m.indices32, cylinder_expected(300, 40));
}

#[test]
fn cone_three_slices() {
    let m = cone_indices(3);
    assert_eq!(
        m.indices16,
        vec![0, 4, 3, 1, 5, 4, 2, 3, 5, 9, 6, 7, 9, 7, 8, 9, 8, 6]
    );
    assert_eq!(cone_vertex_count(3), 10);
}

#[test]
fn cone_default_size() {
    let m = cone_indices(20);
    assert_eq!(values(&m), cone_expected(20));
    assert_eq!(cone_vertex_count(20), 61);
}

#[test]
fn cone_large_uses_32_bits() {
    let m = cone_indices(20000);
    assert!(m.indices16.is_empty());
    assert_eq!(m.indices32, cone_expected(20000));
}

#[test]
fn cone_without_slices_is_empty() {
    let m = cone_indices(0);
    assert!(m.indices16.is_empty() && m.indices32.is_empty());
    assert_eq!(cone_vertex_count(0), 1);
}

#[test]
fn shapes_match_their_numbering_over_many_sizes() {
    for a in 0..12u32 {
        for b in 0..9u32 {
            let g = grid_indices(a, b);
            assert_sized(&g);
            assert_eq!(values(&g), grid_expected(a, b));
            let c = cylinder_indices(a, b);
            assert_sized(&c);
            assert_eq!(values(&c), cylinder_expected(a, b));
            if b >= 1 {
                let s = sphere_indices(b, a);
                assert_sized(&s);
                assert_eq!(values(&s), sphere_expected(b, a));
            }
        }
        if a >= 1 {
            assert_eq!(values(&cone_indices(a)), cone_expected(a));
        }
    }
}

#[test]
fn every_index_names_a_vertex() {
    for a in 1..10u32 {
        for b in 1..10u32 {
            let n = grid_vertex_count(a, b) as u32;
            assert!(values(&grid_indices(a, b)).iter().all(|&i| i < n));
            let n = cylinder_vertex_count(a, b) as u32;
            assert!(values(&cylinder_indices(a, b)).iter().all(|&i| i < n));
            let n = sphere_vertex_count(b, a) as u32;
            assert!(values(&sphere_indices(b, a)).iter().all(|&i| i < n));
        }
        let n = cone_vertex_count(a) as u32;
        assert!(values(&cone_indices(a)).iter().all(|&i| i < n));
    }
    assert!(values(&cube_indices()).iter().all(|&i| i < 24));
    assert!(values(&plane_indices()).iter().all(|&i| i < 4));
}
