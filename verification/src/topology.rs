//! Index arithmetic on a torus stored as a flat, row-major buffer.
//!
//! A grid of `width` columns and `height` rows keeps the cell in column `c`
//! of row `r` at index `r * width + c`. Moving one step in any direction
//! from a border re-enters the grid at the opposite border.

use vstd::prelude::*;
use vstd::arithmetic::div_mod::{
    lemma_fundamental_div_mod,
    lemma_fundamental_div_mod_converse,
    lemma_mod_add_multiples_vanish,
    lemma_small_mod,
};

verus! {

/// Column of the flat index `idx`.
pub open spec fn col_of(width: int, idx: int) -> int {
    idx % width
}

/// Row of the flat index `idx`.
pub open spec fn row_of(width: int, idx: int) -> int {
    idx / width
}

/// The coordinate `coord + delta`, wrapped into `0..size`.
pub open spec fn wrap(coord: int, delta: int, size: int) -> int {
    (coord + delta) % size
}

/// Flat index of the cell `dx` columns to the right of and `dy` rows below
/// the cell at `idx`. Rows and columns wrap independently of each other.
pub open spec fn shifted(width: int, height: int, idx: int, dx: int, dy: int) -> int {
    wrap(row_of(width, idx), dy, height) * width + wrap(col_of(width, idx), dx, width)
}

/// The eight neighbours of `idx`, in the order left, right, up, down,
/// right-up, right-down, left-up, left-down.
pub open spec fn neighbor_indices(width: int, height: int, idx: int) -> Seq<int> {
    seq![
        shifted(width, height, idx, -1, 0),
        shifted(width, height, idx, 1, 0),
        shifted(width, height, idx, 0, -1),
        shifted(width, height, idx, 0, 1),
        shifted(width, height, idx, 1, -1),
        shifted(width, height, idx, 1, 1),
        shifted(width, height, idx, -1, -1),
        shifted(width, height, idx, -1, 1),
    ]
}

/// A flat index splits into a row and a column that lie inside the grid.
pub proof fn lemma_row_col(width: int, height: int, idx: int)
    requires
        0 < width,
        0 < height,
        0 <= idx < width * height,
    ensures
        0 <= col_of(width, idx) < width,
        0 <= row_of(width, idx) < height,
        idx == row_of(width, idx) * width + col_of(width, idx),
{
    lemma_fundamental_div_mod(idx, width);
    let r = idx / width;
    let c = idx % width;
    assert(0 <= c < width);
    assert(width * r == r * width) by (nonlinear_arith);
    assert(0 <= r) by (nonlinear_arith)
        requires
            0 < width,
            0 <= idx,
            idx == r * width + c,
            c < width,
    ;
    assert(r < height) by (nonlinear_arith)
        requires
            0 < width,
            idx < width * height,
            idx == r * width + c,
            0 <= c,
    ;
}

/// Row `r`, column `c` is stored at `r * width + c`, and nowhere else.
pub proof fn lemma_index_of(width: int, height: int, r: int, c: int)
    requires
        0 <= c < width,
        0 <= r < height,
    ensures
        0 <= r * width + c < width * height,
        row_of(width, r * width + c) == r,
        col_of(width, r * width + c) == c,
{
    lemma_fundamental_div_mod_converse(r * width + c, width, r, c);
    assert(0 <= r * width) by (nonlinear_arith)
        requires
            0 <= r,
            0 < width,
    ;
    assert(r * width + c < width * height) by (nonlinear_arith)
        requires
            r + 1 <= height,
            c < width,
            0 < width,
    ;
}

/// Wrapping a coordinate of the grid moved by at most one step: it goes
/// to the far border when it leaves at the near one, and back.
pub proof fn lemma_wrap_step(coord: int, delta: int, size: int)
    requires
        0 <= coord < size,
        -1 <= delta <= 1,
    ensures
        0 <= wrap(coord, delta, size) < size,
        wrap(coord, delta, size) == if coord + delta < 0 {
            size - 1
        } else if coord + delta >= size {
            0
        } else {
            coord + delta
        },
{
    if coord + delta < 0 {
        lemma_mod_add_multiples_vanish(-1, size);
        lemma_small_mod((size - 1) as nat, size as nat);
    } else if coord + delta >= size {
        lemma_mod_add_multiples_vanish(0, size);
        lemma_small_mod(0, size as nat);
    } else {
        lemma_small_mod((coord + delta) as nat, size as nat);
    }
}

/// Every neighbour of a cell of the grid is a cell of the grid, in the row
/// and the column that the displacement names.
pub proof fn lemma_shifted_in_grid(width: int, height: int, idx: int, dx: int, dy: int)
    requires
        0 < width,
        0 < height,
        0 <= idx < width * height,
        -1 <= dx <= 1,
        -1 <= dy <= 1,
    ensures
        0 <= shifted(width, height, idx, dx, dy) < width * height,
        row_of(width, shifted(width, height, idx, dx, dy)) == wrap(
            row_of(width, idx),
            dy,
            height,
        ),
        col_of(width, shifted(width, height, idx, dx, dy)) == wrap(
            col_of(width, idx),
            dx,
            width,
        ),
{
    lemma_row_col(width, height, idx);
    lemma_wrap_step(row_of(width, idx), dy, height);
    lemma_wrap_step(col_of(width, idx), dx, width);
    lemma_index_of(
        width,
        height,
        wrap(row_of(width, idx), dy, height),
        wrap(col_of(width, idx), dx, width),
    );
}

/// The displacement by one step in each of the eight directions, in the
/// order of `neighbor_indices`: columns to the right, rows down.
pub open spec fn directions() -> Seq<(int, int)> {
    seq![(-1, 0), (1, 0), (0, -1), (0, 1), (1, -1), (1, 1), (-1, -1), (-1, 1)]
}

/// `neighbor_indices` lists exactly the eight displacements of
/// `directions`, each once and in that order.
pub proof fn lemma_neighbor_indices_by_direction(width: int, height: int, idx: int)
    ensures
        neighbor_indices(width, height, idx).len() == 8,
        directions().len() == 8,
        forall|k: int|
            0 <= k < 8 ==> #[trigger] neighbor_indices(width, height, idx)[k] == shifted(
                width,
                height,
                idx,
                directions()[k].0,
                directions()[k].1,
            ),
        forall|j: int, k: int|
            0 <= j < k < 8 ==> #[trigger] directions()[j] != #[trigger] directions()[k],
        forall|k: int| 0 <= k < 8 ==> #[trigger] directions()[k] != (0int, 0int),
        forall|k: int|
            0 <= k < 8 ==> -1 <= (#[trigger] directions()[k]).0 <= 1 && -1 <= directions()[k].1
                <= 1,
{
}

/// Every one of the eight neighbours of a cell of the grid is a cell of
/// the grid.
pub proof fn lemma_neighbors_in_grid(width: int, height: int, idx: int)
    requires
        0 < width,
        0 < height,
        0 <= idx < width * height,
    ensures
        neighbor_indices(width, height, idx).len() == 8,
        forall|k: int|
            0 <= k < 8 ==> 0 <= #[trigger] neighbor_indices(width, height, idx)[k] < width
                * height,
{
    lemma_shifted_in_grid(width, height, idx, -1, 0);
    lemma_shifted_in_grid(width, height, idx, 1, 0);
    lemma_shifted_in_grid(width, height, idx, 0, -1);
    lemma_shifted_in_grid(width, height, idx, 0, 1);
    lemma_shifted_in_grid(width, height, idx, 1, -1);
    lemma_shifted_in_grid(width, height, idx, 1, 1);
    lemma_shifted_in_grid(width, height, idx, -1, -1);
    lemma_shifted_in_grid(width, height, idx, -1, 1);
}

/// A diagonal neighbour is the vertical neighbour of the horizontal
/// neighbour, and the horizontal neighbour of the vertical one: rows and
/// columns wrap independently.
pub proof fn lemma_shift_composes(width: int, height: int, idx: int, dx: int, dy: int)
    requires
        0 < width,
        0 < height,
        0 <= idx < width * height,
        -1 <= dx <= 1,
        -1 <= dy <= 1,
    ensures
        shifted(width, height, shifted(width, height, idx, dx, 0), 0, dy) == shifted(
            width,
            height,
            idx,
            dx,
            dy,
        ),
        shifted(width, height, shifted(width, height, idx, 0, dy), dx, 0) == shifted(
            width,
            height,
            idx,
            dx,
            dy,
        ),
{
    lemma_row_col(width, height, idx);
    lemma_shifted_in_grid(width, height, idx, dx, 0);
    lemma_shifted_in_grid(width, height, idx, 0, dy);
    lemma_wrap_step(row_of(width, idx), 0, height);
    lemma_wrap_step(col_of(width, idx), 0, width);
    lemma_wrap_step(row_of(width, idx), dy, height);
    lemma_wrap_step(col_of(width, idx), dx, width);
    lemma_wrap_step(wrap(row_of(width, idx), dy, height), 0, height);
    lemma_wrap_step(wrap(col_of(width, idx), dx, width), 0, width);
}

/// Stepping back undoes a step: the cell at `idx` is the neighbour, in
/// the opposite direction, of each of its neighbours.
pub proof fn lemma_shift_back(width: int, height: int, idx: int, dx: int, dy: int)
    requires
        0 < width,
        0 < height,
        0 <= idx < width * height,
        -1 <= dx <= 1,
        -1 <= dy <= 1,
    ensures
        shifted(width, height, shifted(width, height, idx, dx, dy), -dx, -dy) == idx,
{
    lemma_row_col(width, height, idx);
    lemma_shifted_in_grid(width, height, idx, dx, dy);
    lemma_wrap_step(row_of(width, idx), dy, height);
    lemma_wrap_step(col_of(width, idx), dx, width);
    lemma_wrap_step(wrap(row_of(width, idx), dy, height), -dy, height);
    lemma_wrap_step(wrap(col_of(width, idx), dx, width), -dx, width);
}

/// On a grid of at least three columns and three rows, different
/// displacements lead to different cells.
pub proof fn lemma_shifted_injective(
    width: int,
    height: int,
    idx: int,
    dx1: int,
    dy1: int,
    dx2: int,
    dy2: int,
)
    requires
        3 <= width,
        3 <= height,
        0 <= idx < width * height,
        -1 <= dx1 <= 1,
        -1 <= dy1 <= 1,
        -1 <= dx2 <= 1,
        -1 <= dy2 <= 1,
        shifted(width, height, idx, dx1, dy1) == shifted(width, height, idx, dx2, dy2),
    ensures
        dx1 == dx2,
        dy1 == dy2,
{
    lemma_row_col(width, height, idx);
    lemma_shifted_in_grid(width, height, idx, dx1, dy1);
    lemma_shifted_in_grid(width, height, idx, dx2, dy2);
    lemma_wrap_step(row_of(width, idx), dy1, height);
    lemma_wrap_step(row_of(width, idx), dy2, height);
    lemma_wrap_step(col_of(width, idx), dx1, width);
    lemma_wrap_step(col_of(width, idx), dx2, width);
}

/// On a grid of at least three columns and three rows, the eight
/// neighbours of a cell are eight different cells, none of them the cell
/// itself.
pub proof fn lemma_neighbors_distinct(width: int, height: int, idx: int)
    requires
        3 <= width,
        3 <= height,
        0 <= idx < width * height,
    ensures
        forall|j: int, k: int|
            0 <= j < k < 8 ==> #[trigger] neighbor_indices(width, height, idx)[j]
                != #[trigger] neighbor_indices(width, height, idx)[k],
        forall|k: int| 0 <= k < 8 ==> #[trigger] neighbor_indices(width, height, idx)[k] != idx,
{
    lemma_neighbor_indices_by_direction(width, height, idx);
    let at = neighbor_indices(width, height, idx);
    let dir = directions();
    assert(shifted(width, height, idx, 0, 0) == idx) by {
        lemma_row_col(width, height, idx);
        lemma_wrap_step(row_of(width, idx), 0, height);
        lemma_wrap_step(col_of(width, idx), 0, width);
    }
    assert forall|j: int, k: int| 0 <= j < k < 8 implies #[trigger] at[j] != #[trigger] at[k] by {
        if at[j] == at[k] {
            lemma_shifted_injective(width, height, idx, dir[j].0, dir[j].1, dir[k].0, dir[k].1);
            assert(dir[j] == dir[k]);
        }
    }
    assert forall|k: int| 0 <= k < 8 implies #[trigger] at[k] != idx by {
        if at[k] == idx {
            lemma_shifted_injective(width, height, idx, dir[k].0, dir[k].1, 0, 0);
            assert(dir[k] == (0int, 0int));
        }
    }
}

/// On a grid of a single cell, that cell is its own neighbour in every
/// direction.
pub proof fn lemma_single_cell_neighbors()
    ensures
        forall|k: int| 0 <= k < 8 ==> #[trigger] neighbor_indices(1, 1, 0)[k] == 0,
{
    lemma_neighbors_in_grid(1, 1, 0);
}

} // verus!
