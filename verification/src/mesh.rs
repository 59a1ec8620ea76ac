//! Vertex indices for drawing boxes and grids as triangles.
//!
//! A face with the corners 0, 1, 2, 3 in order is drawn as the two triangles
//! 0-1-2 and 0-2-3.

use vstd::prelude::*;
use crate::fixed::SCALE;

verus! {

/// The corner of a face that the `k`-th index of its two triangles names.
pub open spec fn quad_corner(k: int) -> int {
    if k == 0 {
        0
    } else if k == 1 {
        1
    } else if k == 2 {
        2
    } else if k == 3 {
        0
    } else if k == 4 {
        2
    } else {
        3
    }
}

/// The `k`-th of the thirty-six indices of a box whose first vertex has the
/// index `first`: six faces of four vertices each, six indices to a face.
pub open spec fn block_index(first: int, k: int) -> int {
    first + 4 * (k / 6) + quad_corner(k % 6)
}

/// The `j`-th of the six indices of the cell in row `z` and column `x` of a
/// grid of `n` by `n` cells, whose vertices are numbered row by row: the
/// triangles top left, bottom left, bottom right and top left, bottom
/// right, top right.
pub open spec fn grid_index(n: int, z: int, x: int, j: int) -> int {
    let top_left = z * (n + 1) + x;
    let bottom_left = top_left + n + 1;
    if j == 0 || j == 3 {
        top_left
    } else if j == 1 {
        bottom_left
    } else if j == 2 || j == 4 {
        bottom_left + 1
    } else {
        top_left + 1
    }
}

/// Appends the six indices of a face whose first vertex has the index
/// `*index`, and moves `*index` past the four vertices of the face.
pub fn push_quad_indices(indices: &mut Vec<u32>, index: &mut u32)
    requires
        *old(index) <= u32::MAX - 4,
    ensures
        *final(index) == *old(index) + 4,
        final(indices)@.len() == old(indices)@.len() + 6,
        forall|k: int| 0 <= k < old(indices)@.len() ==> final(indices)@[k] == old(indices)@[k],
        forall|k: int|
            0 <= k < 6 ==> #[trigger] final(indices)@[old(indices)@.len() + k] == *old(index)
                + quad_corner(k),
{
    let first: u32 = *index;
    indices.push(first);
    indices.push(first + 1);
    indices.push(first + 2);
    indices.push(first);
    indices.push(first + 2);
    indices.push(first + 3);
    *index = first + 4;
}

/// The thirty-six indices of a box whose first vertex has the index
/// `*index`; `*index` moves past the twenty-four vertices of the box.
pub fn get_block_indices(index: &mut u32) -> (r: Vec<u32>)
    requires
        *old(index) <= u32::MAX - 24,
    ensures
        *final(index) == *old(index) + 24,
        r@.len() == 36,
        forall|k: int| 0 <= k < 36 ==> #[trigger] r@[k] == block_index(*old(index) as int, k),
{
    let mut indices: Vec<u32> = Vec::new();
    let mut face: u32 = 0;
    while face < 6
        invariant
            face <= 6,
            *old(index) <= u32::MAX - 24,
            *index == *old(index) + 4 * face,
            indices@.len() == 6 * face,
            forall|k: int|
                0 <= k < 6 * face ==> #[trigger] indices@[k] == block_index(*old(index) as int, k),
        decreases 6 - face,
    {
        let ghost before = indices@;
        let ghost first = *index;
        push_quad_indices(&mut indices, index);
        proof {
            assert forall|k: int| 0 <= k < 6 * (face + 1) implies #[trigger] indices@[k]
                == block_index(*old(index) as int, k) by {
                if k >= 6 * face {
                    let j = k - 6 * face;
                    assert(indices@[before.len() + j] == first + quad_corner(j));
                    assert(k / 6 == face as int);
                    assert(k % 6 == j);
                } else {
                    assert(indices@[k] == before[k]);
                }
            }
        }
        face += 1;
    }
    indices
}

/// The indices of the triangles of a grid of `n` by `n` cells, cell by cell
/// and row by row.
pub fn grid_indices(n: usize) -> (r: Vec<u16>)
    requires
        n <= 255,
    ensures
        r@.len() == 6 * n * n,
        forall|z: int, x: int, j: int|
            0 <= z < n && 0 <= x < n && 0 <= j < 6 ==> #[trigger] r@[6 * (z * n + x) + j]
                == grid_index(n as int, z, x, j),
{
    let mut indices: Vec<u16> = Vec::new();
    let mut z: usize = 0;
    while z < n
        invariant
            z <= n,
            n <= 255,
            indices@.len() == 6 * (z * n),
            forall|c: int, j: int|
                0 <= c < z * n && 0 <= j < 6 ==> #[trigger] indices@[6 * c + j] == grid_index(
                    n as int,
                    c / (n as int),
                    c % (n as int),
                    j,
                ),
        decreases n - z,
    {
        let mut x: usize = 0;
        while x < n
            invariant
                x <= n,
                z < n,
                n <= 255,
                indices@.len() == 6 * (z * n + x),
                forall|c: int, j: int|
                    0 <= c < z * n + x && 0 <= j < 6 ==> #[trigger] indices@[6 * c + j]
                        == grid_index(n as int, c / (n as int), c % (n as int), j),
            decreases n - x,
        {
            proof {
                lemma_cell_bounds(n as int, z as int, x as int);
            }
            let top_left: u16 = (z * (n + 1) + x) as u16;
            let bottom_left: u16 = top_left + (n + 1) as u16;
            let ghost before = indices@;
            indices.push(top_left);
            indices.push(bottom_left);
            indices.push(bottom_left + 1);
            indices.push(top_left);
            indices.push(bottom_left + 1);
            indices.push(top_left + 1);
            proof {
                let cell = z * n + x;
                assert forall|c: int, j: int| 0 <= c < cell + 1 && 0 <= j < 6 implies #[trigger] indices@[6
                    * c + j] == grid_index(n as int, c / (n as int), c % (n as int), j) by {
                    if c < cell {
                        assert(indices@[6 * c + j] == before[6 * c + j]);
                    } else {
                        assert(c / (n as int) == z && c % (n as int) == x);
                    }
                }
            }
            x += 1;
        }
        proof {
            assert(z * n + n == (z + 1) * n) by (nonlinear_arith);
        }
        z += 1;
    }
    proof {
        assert(6 * (n * n) == 6 * n * n) by (nonlinear_arith);
        assert forall|z: int, x: int, j: int| 0 <= z < n && 0 <= x < n && 0 <= j < 6 implies #[trigger] indices@[6
            * (z * n + x) + j] == grid_index(n as int, z, x, j) by {
            lemma_cell_bounds(n as int, z, x);
        }
    }
    indices
}

/// The coordinate of the `i`-th line of a grid of `n` cells that spans the
/// two units from minus one to one.
pub open spec fn grid_coord(n: int, i: int) -> int {
    -SCALE + i * ((2 * SCALE) / n)
}

/// The `j`-th coordinate of the vertex in row `z` and column `x` of a flat
/// grid of `n` by `n` cells: the columns run along the first axis, the rows
/// along the third, and the grid lies at height zero.
pub open spec fn grid_vertex(n: int, z: int, x: int, j: int) -> int {
    if j == 0 {
        grid_coord(n, x)
    } else if j == 1 {
        0
    } else {
        grid_coord(n, z)
    }
}

/// The coordinates of the vertices of a flat grid of `n` by `n` cells that
/// spans two units each way, vertex by vertex and row by row.
pub fn grid_positions(n: usize) -> (r: Vec<i64>)
    requires
        1 <= n <= 255,
    ensures
        r@.len() == 3 * (n + 1) * (n + 1),
        forall|z: int, x: int, j: int|
            0 <= z <= n && 0 <= x <= n && 0 <= j < 3 ==> #[trigger] r@[3 * (z * (n + 1) + x) + j]
                == grid_vertex(n as int, z, x, j),
{
    let side: usize = n + 1;
    let square_size: i64 = (2 * SCALE) / (n as i64);
    let mut positions: Vec<i64> = Vec::new();
    let mut z: usize = 0;
    while z < side
        invariant
            z <= side,
            side == n + 1,
            1 <= n <= 255,
            square_size == (2 * SCALE) / (n as int),
            0 <= square_size <= 2 * SCALE,
            positions@.len() == 3 * (z * side),
            forall|c: int, j: int|
                0 <= c < z * side && 0 <= j < 3 ==> #[trigger] positions@[3 * c + j] == grid_vertex(
                    n as int,
                    c / (side as int),
                    c % (side as int),
                    j,
                ),
        decreases side - z,
    {
        let mut x: usize = 0;
        while x < side
            invariant
                x <= side,
                z < side,
                side == n + 1,
                1 <= n <= 255,
                square_size == (2 * SCALE) / (n as int),
                0 <= square_size <= 2 * SCALE,
                positions@.len() == 3 * (z * side + x),
                forall|c: int, j: int|
                    0 <= c < z * side + x && 0 <= j < 3 ==> #[trigger] positions@[3 * c + j]
                        == grid_vertex(n as int, c / (side as int), c % (side as int), j),
            decreases side - x,
        {
            proof {
                lemma_vertex_number(side as int, z as int, x as int);
                assert(x * square_size <= 256 * (2 * SCALE) && z * square_size <= 256 * (2
                    * SCALE) && x * square_size >= 0 && z * square_size >= 0) by (nonlinear_arith)
                    requires
                        0 <= x <= 256,
                        0 <= z <= 256,
                        0 <= square_size <= 2 * SCALE,
                ;
            }
            let ghost before = positions@;
            positions.push(-SCALE + (x as i64) * square_size);
            positions.push(0);
            positions.push(-SCALE + (z as i64) * square_size);
            proof {
                let vertex = z * side + x;
                assert forall|c: int, j: int| 0 <= c < vertex + 1 && 0 <= j < 3 implies #[trigger] positions@[3
                    * c + j] == grid_vertex(n as int, c / (side as int), c % (side as int), j) by {
                    if c < vertex {
                        assert(positions@[3 * c + j] == before[3 * c + j]);
                    }
                }
            }
            x += 1;
        }
        proof {
            assert(z * side + side == (z + 1) * side) by (nonlinear_arith);
        }
        z += 1;
    }
    proof {
        assert(3 * (side * side) == 3 * (n + 1) * (n + 1)) by (nonlinear_arith)
            requires
                side == n + 1,
        ;
        assert forall|z: int, x: int, j: int| 0 <= z <= n && 0 <= x <= n && 0 <= j < 3 implies #[trigger] positions@[3
            * (z * (n + 1) + x) + j] == grid_vertex(n as int, z, x, j) by {
            lemma_vertex_number(side as int, z, x);
        }
    }
    positions
}

/// The vertex in row `z` and column `x` of a grid with `side` vertices to a
/// side has a number that gives back its row and column.
proof fn lemma_vertex_number(side: int, z: int, x: int)
    requires
        0 <= z < side,
        0 <= x < side,
    ensures
        0 <= z * side + x < side * side,
        (z * side + x) / side == z,
        (z * side + x) % side == x,
{
    assert(0 <= z * side && z * side + x < side * side) by (nonlinear_arith)
        requires
            0 <= z < side,
            0 <= x < side,
    ;
    vstd::arithmetic::div_mod::lemma_fundamental_div_mod_converse(z * side + x, side, z, x);
}

/// The cell in row `z` and column `x` of a grid with at most 255 cells to a
/// side has a number that gives back its row and column, and its vertices
/// have numbers below 65536.
proof fn lemma_cell_bounds(n: int, z: int, x: int)
    requires
        0 <= z < n,
        0 <= x < n,
        n <= 255,
    ensures
        0 <= z * n + x < n * n,
        (z * n + x) / n == z,
        (z * n + x) % n == x,
        0 <= z * (n + 1) + x,
        z * (n + 1) + x + n + 2 <= 65535,
{
    assert(0 <= z * n && z * n + x < n * n && z * (n + 1) + x + n + 2 <= 65535 && z * (n + 1)
        >= 0) by (nonlinear_arith)
        requires
            0 <= z < n,
            0 <= x < n,
            n <= 255,
    ;
    vstd::arithmetic::div_mod::lemma_fundamental_div_mod_converse(z * n + x, n, z, x);
}

} // verus!
