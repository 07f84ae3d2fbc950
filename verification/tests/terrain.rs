use scene_engine::terrain::{generate, index, Edge, NormalTerm, Terrain};

fn cross(a: [f32; 3], b: [f32; 3]) -> [f32; 3] {
    [
        a[1] * b[2] - a[2] * b[1],
        a[2] * b[0] - a[0] * b[2],
        a[0] * b[1] - a[1] * b[0],
    ]
}

fn edge_vector(points: &[[f32; 3]], edge: &Edge) -> [f32; 3] {
    let head = points[edge.head as usize];
    let tail = points[edge.tail as usize];
    [head[0] - tail[0], head[1] - tail[1], head[2] - tail[2]]
}

/// The normals of a terrain whose heights are given by `height`: the sum of
/// the terms of each vertex, scaled to length one unless it is zero.
fn terrain_normals(terrain: &Terrain, height: &dyn Fn(u32, u32) -> f32) -> Vec<[f32; 3]> {
    let count = terrain.vertex_count();
    let mut points = Vec::new();
    for i in 0..count {
        let (x, y) = terrain.grid_point(i);
        points.push([x as f32, height(x, y), y as f32]);
    }
    let mut normals = vec![[0.0f32; 3]; count as usize];
    for y in 0..terrain.size_y() - 1 {
        for x in 0..terrain.size_x() - 1 {
            for term in terrain.cell_normal_terms(x, y).iter() {
                let face = cross(
                    edge_vector(&points, &term.first),
                    edge_vector(&points, &term.second),
                );
                let normal = &mut normals[term.target as usize];
                normal[0] += face[0];
                normal[1] += face[1];
                normal[2] += face[2];
            }
        }
    }
    for normal in normals.iter_mut() {
        let length = (normal[0] * normal[0] + normal[1] * normal[1] + normal[2] * normal[2]).sqrt();
        if length != 0.0 {
            normal[0] /= length;
            normal[1] /= length;
            normal[2] /= length;
        }
    }
    normals
}

#[test]
fn index_is_row_major() {
    assert_eq!(index(0, 0, 4), 0);
    assert_eq!(index(3, 0, 4), 3);
    assert_eq!(index(0, 1, 4), 4);
    assert_eq!(index(2, 3, 4), 14);
    assert_eq!(index(5, 7, 1000), 7005);
}

#[test]
fn two_by_two_grid_is_one_cell() {
    let terrain = generate(2, 2);
    assert_eq!(terrain.vertex_count(), 4);
    assert_eq!(terrain.indices(), &vec![0, 1, 2, 3, 1, 2]);
}

#[test]
fn three_by_three_grid_has_four_cells_row_by_row() {
    let terrain = generate(3, 3);
    assert_eq!(
        terrain.indices(),
        &vec![
            0, 1, 3, 4, 1, 3, // cell (0, 0)
            1, 2, 4, 5, 2, 4, // cell (1, 0)
            3, 4, 6, 7, 4, 6, // cell (0, 1)
            4, 5, 7, 8, 5, 7, // cell (1, 1)
        ]
    );
}

#[test]
fn grid_that_is_not_square_keeps_its_width() {
    let terrain = generate(4, 2);
    assert_eq!(terrain.size_x(), 4);
    assert_eq!(terrain.size_y(), 2);
    assert_eq!(
        terrain.indices(),
        &vec![0, 1, 4, 5, 1, 4, 1, 2, 5, 6, 2, 5, 2, 3, 6, 7, 3, 6]
    );
}

#[test]
fn counts_hold_for_many_grids() {
    for size_x in 2..12u32 {
        for size_y in 2..12u32 {
            let terrain = generate(size_x, size_y);
            assert_eq!(terrain.vertex_count(), size_x * size_y);
            assert_eq!(
                terrain.indices().len() as u32,
                6 * (size_x - 1) * (size_y - 1)
            );
            assert_eq!(terrain.indices().len() % 3, 0);
            for i in terrain.indices().iter() {
                assert!(*i < size_x * size_y);
            }
        }
    }
}

#[test]
fn every_vertex_is_used_by_a_triangle() {
    let terrain = generate(5, 4);
    let mut used = vec![false; 20];
    for i in terrain.indices().iter() {
        used[*i as usize] = true;
    }
    assert!(used.iter().all(|u| *u));
}

#[test]
fn grids_with_a_side_under_two_have_no_triangle() {
    for (size_x, size_y) in [(0u32, 0u32), (0, 5), (5, 0), (1, 1), (1, 7), (7, 1)] {
        let terrain = generate(size_x, size_y);
        assert_eq!(terrain.vertex_count(), size_x * size_y);
        assert!(terrain.indices().is_empty());
    }
}

#[test]
fn grid_point_undoes_index() {
    let terrain = generate(7, 5);
    for y in 0..5u32 {
        for x in 0..7u32 {
            let i = index(x as usize, y as usize, 7) as u32;
            assert_eq!(terrain.grid_point(i), (x, y));
        }
    }
}

#[test]
fn cell_terms_name_the_corners_of_the_cell() {
    let terrain = generate(3, 3);
    // The cell at (1, 1): corners 4, 5, 7, 8.
    let terms = terrain.cell_normal_terms(1, 1);
    let expected = [
        NormalTerm {
            target: 4,
            first: Edge { head: 7, tail: 5 },
            second: Edge { head: 5, tail: 4 },
        },
        NormalTerm {
            target: 5,
            first: Edge { head: 4, tail: 5 },
            second: Edge { head: 7, tail: 5 },
        },
        NormalTerm {
            target: 5,
            first: Edge { head: 7, tail: 5 },
            second: Edge { head: 8, tail: 5 },
        },
        NormalTerm {
            target: 7,
            first: Edge { head: 5, tail: 7 },
            second: Edge { head: 4, tail: 7 },
        },
        NormalTerm {
            target: 7,
            first: Edge { head: 8, tail: 7 },
            second: Edge { head: 5, tail: 7 },
        },
        NormalTerm {
            target: 8,
            first: Edge { head: 5, tail: 8 },
            second: Edge { head: 7, tail: 5 },
        },
    ];
    assert_eq!(terms, expected);
}

#[test]
fn flat_four_by_four_grid_has_normals_straight_up() {
    let terrain = generate(4, 4);
    let normals = terrain_normals(&terrain, &|_, _| 0.0);
    assert_eq!(normals.len(), 16);
    for normal in normals {
        assert_eq!(normal, [0.0, 1.0, 0.0]);
    }
}

#[test]
fn normals_of_a_rough_grid_have_length_one() {
    let terrain = generate(9, 6);
    let height = |x: u32, y: u32| ((x * 7 + y * 13) % 5) as f32 * 0.75 - 1.0;
    for normal in terrain_normals(&terrain, &height) {
        let length =
            (normal[0] * normal[0] + normal[1] * normal[1] + normal[2] * normal[2]).sqrt();
        assert!((length - 1.0).abs() < 1e-5);
        assert!(normal[1] > 0.0);
    }
}

#[test]
fn slope_along_x_tilts_every_normal_alike() {
    let terrain = generate(4, 3);
    for normal in terrain_normals(&terrain, &|x, _| x as f32) {
        let expected = 1.0 / 2.0f32.sqrt();
        assert!((normal[0] + expected).abs() < 1e-6);
        assert!((normal[1] - expected).abs() < 1e-6);
        assert!(normal[2].abs() < 1e-6);
    }
}
