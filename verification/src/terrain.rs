//! The topology of the terrain: a grid of `size_x` by `size_y` vertices in
//! row-major order, each cell of four neighbours cut into two triangles,
//! and for each cell the face normals that its corners collect.
//!
//! Heights and normals are numbers that the library does not compute with;
//! it says which vertices make each triangle and which edge vectors are
//! crossed into the normal of which vertex.

use vstd::prelude::*;
use vstd::arithmetic::div_mod::lemma_fundamental_div_mod_converse;
use crate::spatial::VertexIndex;

verus! {

/// The row-major position of the grid point `(x, y)` in a grid that is
/// `width` points wide.
pub open spec fn grid_index(x: int, y: int, width: int) -> int {
    y * width + x
}

/// The vertex at a corner of the cell whose corner 0 is `(x, y)`:
/// corner 1 lies to its right, corner 2 below it, corner 3 across.
pub open spec fn corner_index(x: int, y: int, width: int, corner: int) -> int {
    if corner == 0 {
        grid_index(x, y, width)
    } else if corner == 1 {
        grid_index(x + 1, y, width)
    } else if corner == 2 {
        grid_index(x, y + 1, width)
    } else {
        grid_index(x + 1, y + 1, width)
    }
}

/// The corners of the two triangles of a cell, in the order of the index
/// buffer: `0 1 2`, then `3 1 2`. Both share the diagonal from 1 to 2.
pub open spec fn triangle_corner(k: int) -> int {
    if k == 0 {
        0
    } else if k == 1 || k == 4 {
        1
    } else if k == 2 || k == 5 {
        2
    } else {
        3
    }
}

/// The number of cells of a grid; none if a side has fewer than two points.
pub open spec fn cell_count(size_x: int, size_y: int) -> int {
    if size_x < 2 || size_y < 2 {
        0
    } else {
        (size_x - 1) * (size_y - 1)
    }
}

/// Entry `k` of the index buffer of a grid `size_x` points wide: cells come
/// row by row, six indices each.
pub open spec fn triangle_index(k: int, size_x: int) -> int {
    let cell = k / 6;
    corner_index(cell % (size_x - 1), cell / (size_x - 1), size_x, triangle_corner(k % 6))
}

/// The index buffer of a grid of `size_x` by `size_y` points.
pub open spec fn triangle_indices(size_x: int, size_y: int) -> Seq<VertexIndex> {
    Seq::new(
        (6 * cell_count(size_x, size_y)) as nat,
        |k: int| triangle_index(k, size_x) as VertexIndex,
    )
}

/// An edge vector: the position of `head` minus the position of `tail`.
#[derive(Clone, Copy, Debug, PartialEq, Eq, Structural)]
pub struct Edge {
    pub head: VertexIndex,
    pub tail: VertexIndex,
}

/// One face normal: the cross product of `first` and `second`, in this
/// order, to be added to the normal of the vertex `target`.
#[derive(Clone, Copy, Debug, PartialEq, Eq, Structural)]
pub struct NormalTerm {
    pub target: VertexIndex,
    pub first: Edge,
    pub second: Edge,
}

/// The corners of term `k` of a cell: the target, then head and tail of the
/// first edge, then head and tail of the second.
///
/// Corner 0 collects one face normal, corners 1 and 2, which lie on the
/// diagonal, two each, and corner 3 one. All six point to the same side of
/// the surface.
pub open spec fn term_corners(k: int) -> (int, int, int, int, int) {
    if k == 0 {
        (0, 2, 1, 1, 0)
    } else if k == 1 {
        (1, 0, 1, 2, 1)
    } else if k == 2 {
        (1, 2, 1, 3, 1)
    } else if k == 3 {
        (2, 1, 2, 0, 2)
    } else if k == 4 {
        (2, 3, 2, 1, 2)
    } else {
        (3, 1, 3, 2, 1)
    }
}

/// Term `k` of the cell whose corner 0 is `(x, y)`.
pub open spec fn cell_term(x: int, y: int, width: int, k: int) -> NormalTerm {
    let c = term_corners(k);
    NormalTerm {
        target: corner_index(x, y, width, c.0) as VertexIndex,
        first: Edge {
            head: corner_index(x, y, width, c.1) as VertexIndex,
            tail: corner_index(x, y, width, c.2) as VertexIndex,
        },
        second: Edge {
            head: corner_index(x, y, width, c.3) as VertexIndex,
            tail: corner_index(x, y, width, c.4) as VertexIndex,
        },
    }
}

/// The six terms of the cell whose corner 0 is `(x, y)`.
pub open spec fn cell_terms(x: int, y: int, width: int) -> Seq<NormalTerm> {
    Seq::new(6, |k: int| cell_term(x, y, width, k))
}

/// The corners of a cell inside the grid are vertices of the grid.
pub proof fn lemma_corner_in_grid(x: int, y: int, size_x: int, size_y: int, corner: int)
    requires
        0 <= x,
        0 <= y,
        x + 1 < size_x,
        y + 1 < size_y,
    ensures
        0 <= corner_index(x, y, size_x, corner) < size_x * size_y,
{
    assert(0 <= y * size_x) by (nonlinear_arith)
        requires
            0 <= y,
            0 <= size_x,
    ;
    assert((y + 1) * size_x + size_x <= size_y * size_x) by (nonlinear_arith)
        requires
            y + 2 <= size_y,
            0 <= size_x,
    ;
    assert((y + 1) * size_x == y * size_x + size_x) by (nonlinear_arith);
    assert(size_y * size_x == size_x * size_y) by (nonlinear_arith);
}

/// The row-major position of the grid point `(x, y)`.
pub fn index(x: usize, y: usize, width: usize) -> (i: usize)
    requires
        grid_index(x as int, y as int, width as int) <= usize::MAX,
    ensures
        i == grid_index(x as int, y as int, width as int),
{
    assert(0 <= y * width <= y * width + x) by (nonlinear_arith)
        requires
            0 <= y,
            0 <= width,
            0 <= x,
    ;
    y * width + x
}

/// Every entry of the index buffer names a vertex of the grid.
pub proof fn lemma_triangle_index_in_grid(size_x: int, size_y: int, k: int)
    requires
        2 <= size_x,
        2 <= size_y,
        0 <= k < 6 * cell_count(size_x, size_y),
    ensures
        0 <= triangle_index(k, size_x) < size_x * size_y,
{
    let cells_per_row = size_x - 1;
    let cell = k / 6;
    let x = cell % cells_per_row;
    let y = cell / cells_per_row;
    assert(cell < cells_per_row * (size_y - 1));
    assert(cell == cells_per_row * y + x) by {
        vstd::arithmetic::div_mod::lemma_fundamental_div_mod(cell, cells_per_row);
    }
    assert(y < size_y - 1) by (nonlinear_arith)
        requires
            cell == cells_per_row * y + x,
            0 <= x,
            cell < cells_per_row * (size_y - 1),
            0 < cells_per_row,
    ;
    assert(0 <= y) by (nonlinear_arith)
        requires
            cell == cells_per_row * y + x,
            x < cells_per_row,
            0 <= cell,
            0 < cells_per_row,
    ;
    lemma_corner_in_grid(x, y, size_x, size_y, triangle_corner(k % 6));
}

/// Every vertex of a grid with cells is the target of a term of some cell,
/// so that the normal of no vertex is left without a face.
pub proof fn lemma_every_vertex_is_a_target(size_x: int, size_y: int, i: int)
    requires
        2 <= size_x,
        2 <= size_y,
        0 <= i < size_x * size_y,
    ensures
        exists|x: int, y: int, k: int|
            0 <= x && x + 1 < size_x && 0 <= y && y + 1 < size_y && 0 <= k < 6
                && corner_index(x, y, size_x, term_corners(k).0) == i,
{
    let vx = i % size_x;
    let vy = i / size_x;
    vstd::arithmetic::div_mod::lemma_fundamental_div_mod(i, size_x);
    assert(0 <= vy < size_y) by (nonlinear_arith)
        requires
            i == size_x * vy + vx,
            0 <= vx < size_x,
            0 <= i < size_x * size_y,
    ;
    let x = if vx + 1 < size_x { vx } else { vx - 1 };
    let y = if vy + 1 < size_y { vy } else { vy - 1 };
    let k = if vx == x && vy == y {
        0int
    } else if vy == y {
        1int
    } else if vx == x {
        3int
    } else {
        5int
    };
    assert(size_x * vy == vy * size_x) by (nonlinear_arith);
    assert((y + 1) * size_x == y * size_x + size_x) by (nonlinear_arith);
    assert(corner_index(x, y, size_x, term_corners(k).0) == i);
}

/// The topology of a terrain: the size of its grid and its index buffer.
pub struct Terrain {
    size_x: u32,
    size_y: u32,
    indices: Vec<VertexIndex>,
}

impl Terrain {
    /// The number of grid points along x.
    pub closed spec fn spec_size_x(&self) -> u32 {
        self.size_x
    }

    /// The number of grid points along y.
    pub closed spec fn spec_size_y(&self) -> u32 {
        self.size_y
    }

    /// The index buffer: three entries for each triangle.
    pub closed spec fn view(&self) -> Seq<VertexIndex> {
        self.indices@
    }

    /// The number of vertices: one for each grid point.
    pub open spec fn spec_vertex_count(&self) -> int {
        self.spec_size_x() * self.spec_size_y()
    }

    /// The invariant: the vertices can be counted in a `VertexIndex`, and
    /// the index buffer is that of the grid.
    pub open spec fn wf(&self) -> bool {
        &&& self.spec_vertex_count() <= VertexIndex::MAX
        &&& self@ == triangle_indices(self.spec_size_x() as int, self.spec_size_y() as int)
    }

    /// The number of grid points along x.
    #[verifier::when_used_as_spec(spec_size_x)]
    pub fn size_x(&self) -> (size: u32)
        ensures
            size == self.spec_size_x(),
    {
        self.size_x
    }

    /// The number of grid points along y.
    #[verifier::when_used_as_spec(spec_size_y)]
    pub fn size_y(&self) -> (size: u32)
        ensures
            size == self.spec_size_y(),
    {
        self.size_y
    }

    /// The number of vertices.
    pub fn vertex_count(&self) -> (count: u32)
        requires
            self.wf(),
        ensures
            count == self.spec_vertex_count(),
    {
        assert(0 <= self.size_x * self.size_y) by (nonlinear_arith);
        self.size_x * self.size_y
    }

    /// The index buffer.
    pub fn indices(&self) -> (indices: &Vec<VertexIndex>)
        ensures
            indices@ == self@,
    {
        &self.indices
    }

    /// The grid point of vertex `i`: its column and its row.
    pub fn grid_point(&self, i: VertexIndex) -> (point: (u32, u32))
        requires
            self.wf(),
            i < self.spec_vertex_count(),
        ensures
            point.0 < self.spec_size_x(),
            point.1 < self.spec_size_y(),
            grid_index(point.0 as int, point.1 as int, self.spec_size_x() as int) == i,
    {
        assert(self.size_x > 0) by (nonlinear_arith)
            requires
                0 <= i < self.size_x * self.size_y,
        ;
        let x = i % self.size_x;
        let y = i / self.size_x;
        proof {
            vstd::arithmetic::div_mod::lemma_fundamental_div_mod(i as int, self.size_x as int);
            assert(y < self.size_y) by (nonlinear_arith)
                requires
                    i == self.size_x * y + x,
                    0 <= x,
                    i < self.size_x * self.size_y,
                    0 < self.size_x,
            ;
            assert(self.size_x * y == y * self.size_x) by (nonlinear_arith);
        }
        (x, y)
    }

    /// The face normals that the corners of the cell at `(x, y)` collect.
    /// The normal of a vertex is the sum of the terms that name it as their
    /// target, over all cells, scaled to length one unless the sum is zero.
    pub fn cell_normal_terms(&self, x: u32, y: u32) -> (terms: [NormalTerm; 6])
        requires
            self.wf(),
            x + 1 < self.spec_size_x(),
            y + 1 < self.spec_size_y(),
        ensures
            terms@ == cell_terms(x as int, y as int, self.spec_size_x() as int),
            forall|k: int|
                0 <= k < 6 ==> {
                    &&& (#[trigger] terms@[k]).target < self.spec_vertex_count()
                    &&& terms@[k].first.head < self.spec_vertex_count()
                    &&& terms@[k].first.tail < self.spec_vertex_count()
                    &&& terms@[k].second.head < self.spec_vertex_count()
                    &&& terms@[k].second.tail < self.spec_vertex_count()
                },
    {
        let width = self.size_x;
        proof {
            lemma_corner_in_grid(x as int, y as int, width as int, self.size_y as int, 0);
            lemma_corner_in_grid(x as int, y as int, width as int, self.size_y as int, 1);
            lemma_corner_in_grid(x as int, y as int, width as int, self.size_y as int, 2);
            lemma_corner_in_grid(x as int, y as int, width as int, self.size_y as int, 3);
            assert((y + 1) * width == y * width + width) by (nonlinear_arith);
        }
        let corner0: VertexIndex = y * width + x;
        let corner1: VertexIndex = corner0 + 1;
        let corner2: VertexIndex = corner0 + width;
        let corner3: VertexIndex = corner2 + 1;
        let terms = [
            NormalTerm {
                target: corner0,
                first: Edge { head: corner2, tail: corner1 },
                second: Edge { head: corner1, tail: corner0 },
            },
            NormalTerm {
                target: corner1,
                first: Edge { head: corner0, tail: corner1 },
                second: Edge { head: corner2, tail: corner1 },
            },
            NormalTerm {
                target: corner1,
                first: Edge { head: corner2, tail: corner1 },
                second: Edge { head: corner3, tail: corner1 },
            },
            NormalTerm {
                target: corner2,
                first: Edge { head: corner1, tail: corner2 },
                second: Edge { head: corner0, tail: corner2 },
            },
            NormalTerm {
                target: corner2,
                first: Edge { head: corner3, tail: corner2 },
                second: Edge { head: corner1, tail: corner2 },
            },
            NormalTerm {
                target: corner3,
                first: Edge { head: corner1, tail: corner3 },
                second: Edge { head: corner2, tail: corner1 },
            },
        ];
        assert(terms@ =~= cell_terms(x as int, y as int, width as int));
        terms
    }
}

/// The topology of a terrain of `size_x` by `size_y` grid points. A grid
/// with a side of fewer than two points has vertices but no triangle.
pub fn generate(size_x: u32, size_y: u32) -> (terrain: Terrain)
    requires
        size_x * size_y <= VertexIndex::MAX,
    ensures
        terrain.spec_size_x() == size_x,
        terrain.spec_size_y() == size_y,
        terrain.spec_vertex_count() == size_x * size_y,
        terrain@ == triangle_indices(size_x as int, size_y as int),
        terrain@.len() == 6 * cell_count(size_x as int, size_y as int),
        terrain@.len() % 3 == 0,
        forall|k: int| 0 <= k < terrain@.len() ==> terrain@[k] < size_x * size_y,
        terrain.wf(),
{
    let mut indices: Vec<VertexIndex> = Vec::new();
    if size_x >= 2 && size_y >= 2 {
        let width = size_x as usize;
        let cells_per_row = width - 1;
        let rows = size_y as usize - 1;
        let mut y: usize = 0;
        while y < rows
            invariant
                2 <= size_x,
                2 <= size_y,
                size_x * size_y <= VertexIndex::MAX,
                width == size_x,
                cells_per_row == width - 1,
                rows == size_y - 1,
                y <= rows,
                indices@.len() == 6 * (y * cells_per_row),
                forall|k: int|
                    0 <= k < indices@.len() ==> indices@[k] == triangle_index(
                        k,
                        size_x as int,
                    ),
            decreases rows - y,
        {
            let mut x: usize = 0;
            while x < cells_per_row
                invariant
                    2 <= size_x,
                    2 <= size_y,
                    size_x * size_y <= VertexIndex::MAX,
                    width == size_x,
                    cells_per_row == width - 1,
                    rows == size_y - 1,
                    y < rows,
                    x <= cells_per_row,
                    indices@.len() == 6 * (y * cells_per_row + x),
                    forall|k: int|
                        0 <= k < indices@.len() ==> indices@[k] == triangle_index(
                            k,
                            size_x as int,
                        ),
                decreases cells_per_row - x,
            {
                let ghost cell = y * cells_per_row + x;
                let ghost before = indices@;
                proof {
                    lemma_corner_in_grid(x as int, y as int, size_x as int, size_y as int, 0);
                    lemma_corner_in_grid(x as int, y as int, size_x as int, size_y as int, 1);
                    lemma_corner_in_grid(x as int, y as int, size_x as int, size_y as int, 2);
                    lemma_corner_in_grid(x as int, y as int, size_x as int, size_y as int, 3);
                    lemma_fundamental_div_mod_converse(
                        cell,
                        cells_per_row as int,
                        y as int,
                        x as int,
                    );
                }
                let c0 = index(x, y, width) as VertexIndex;
                let c1 = index(x + 1, y, width) as VertexIndex;
                let c2 = index(x, y + 1, width) as VertexIndex;
                let c3 = index(x + 1, y + 1, width) as VertexIndex;
                // First triangle
                indices.push(c0);
                indices.push(c1);
                indices.push(c2);
                // Second triangle
                indices.push(c3);
                indices.push(c1);
                indices.push(c2);
                proof {
                    assert forall|k: int| 0 <= k < indices@.len() implies indices@[k]
                        == triangle_index(k, size_x as int) by {
                        if k < before.len() {
                            assert(indices@[k] == before[k]);
                        } else {
                            assert(k / 6 == cell);
                            assert(k % 6 == k - 6 * cell);
                        }
                    }
                }
                x += 1;
            }
            proof {
                assert((y + 1) * cells_per_row == y * cells_per_row + cells_per_row)
                    by (nonlinear_arith);
            }
            y += 1;
        }
        proof {
            assert(rows * cells_per_row == (size_x - 1) * (size_y - 1)) by (nonlinear_arith)
                requires
                    rows == size_y - 1,
                    cells_per_row == size_x - 1,
            ;
        }
    }
    proof {
        assert(indices@ =~= triangle_indices(size_x as int, size_y as int));
        assert forall|k: int| 0 <= k < indices@.len() implies indices@[k] < size_x
            * size_y by {
            lemma_triangle_index_in_grid(size_x as int, size_y as int, k);
        }
    }
    Terrain { size_x, size_y, indices }
}

} // verus!
