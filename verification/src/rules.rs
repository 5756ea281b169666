//! The mathematical model of the simulation: cell states, the B3/S23
//! transition rule, row-major flattening, toroidal wraparound, neighbor
//! sums, and the whole-grid step function.

use vstd::prelude::*;

verus! {

/// The state of one grid cell: dead or alive.
#[derive(Clone, Copy, Debug, PartialEq, Eq, Structural)]
pub enum Cell {
    Dead,
    Alive,
}

/// A live cell contributes exactly one to a neighbor sum, a dead cell zero.
pub open spec fn cell_weight(c: Cell) -> nat {
    match c {
        Cell::Dead => 0nat,
        Cell::Alive => 1nat,
    }
}

/// The classic B3/S23 rule. A live cell with fewer than two live neighbors
/// dies of underpopulation; with two or three it survives; with more than
/// three it dies of overpopulation. A dead cell with exactly three live
/// neighbors comes alive; otherwise it stays dead.
pub open spec fn next_cell(current: Cell, live_count: nat) -> Cell {
    match current {
        Cell::Alive => if live_count == 2 || live_count == 3 {
            Cell::Alive
        } else {
            Cell::Dead
        },
        Cell::Dead => if live_count == 3 {
            Cell::Alive
        } else {
            Cell::Dead
        },
    }
}

/// Row-major flattening of grid coordinates: the buffer index of the cell
/// in row `row` and column `col` on a grid `width` cells wide.
pub open spec fn flat_index(row: int, col: int, width: int) -> int {
    row * width + col
}

/// The coordinate one less, with toroidal wraparound: coordinate 0 wraps
/// to the far edge `dim - 1`.
pub open spec fn wrap_dec(coord: int, dim: int) -> int {
    if coord == 0 {
        dim - 1
    } else {
        coord - 1
    }
}

/// The coordinate one more, with toroidal wraparound: the far edge
/// `dim - 1` wraps back to 0.
pub open spec fn wrap_inc(coord: int, dim: int) -> int {
    if coord + 1 == dim {
        0
    } else {
        coord + 1
    }
}

/// The number of live cells among the eight Moore neighbors of the cell at
/// `(row, col)`, each coordinate wrapped toroidally. On a grid narrower
/// than three cells in either dimension, wrapped positions coincide and a
/// cell standing at two offsets is counted once per offset.
pub open spec fn live_neighbors(
    cells: Seq<Cell>,
    width: int,
    height: int,
    row: int,
    col: int,
) -> nat {
    let above = wrap_dec(row, height);
    let below = wrap_inc(row, height);
    let left = wrap_dec(col, width);
    let right = wrap_inc(col, width);
    cell_weight(cells[flat_index(above, left, width)]) + cell_weight(
        cells[flat_index(above, col, width)],
    ) + cell_weight(cells[flat_index(above, right, width)]) + cell_weight(
        cells[flat_index(row, left, width)],
    ) + cell_weight(cells[flat_index(row, right, width)]) + cell_weight(
        cells[flat_index(below, left, width)],
    ) + cell_weight(cells[flat_index(below, col, width)]) + cell_weight(
        cells[flat_index(below, right, width)],
    )
}

/// One generation of the whole grid: every cell updates simultaneously,
/// from its own state and its live-neighbor count in the previous
/// generation only.
pub open spec fn step(cells: Seq<Cell>, width: int, height: int) -> Seq<Cell> {
    Seq::new(
        (width * height) as nat,
        |i: int| next_cell(cells[i], live_neighbors(cells, width, height, i / width, i % width)),
    )
}

/// `n` generations of the whole grid.
pub open spec fn step_n(cells: Seq<Cell>, width: int, height: int, n: nat) -> Seq<Cell>
    decreases n,
{
    if n == 0 {
        cells
    } else {
        step(step_n(cells, width, height, (n - 1) as nat), width, height)
    }
}

/// Wrapped coordinates stay on the grid.
pub proof fn lemma_wrap_in_range(coord: int, dim: int)
    requires
        0 <= coord < dim,
    ensures
        0 <= wrap_dec(coord, dim) < dim,
        0 <= wrap_inc(coord, dim) < dim,
{
}

/// Row-major flattening of on-grid coordinates lands inside the buffer:
/// every index a neighbor lookup produces lies in `[0, width * height)`.
pub proof fn lemma_flat_index_in_range(row: int, col: int, width: int, height: int)
    requires
        0 <= row < height,
        0 <= col < width,
    ensures
        0 <= flat_index(row, col, width) < width * height,
{
    assert(row * width + col < width * height) by (nonlinear_arith)
        requires
            0 <= row < height,
            0 <= col < width,
    ;
}

/// A neighbor sum ranges over eight cells of weight at most one each, so
/// it is never more than eight.
pub proof fn lemma_neighbor_count_range(
    cells: Seq<Cell>,
    width: int,
    height: int,
    row: int,
    col: int,
)
    ensures
        live_neighbors(cells, width, height, row, col) <= 8,
{
}

/// Toroidal wraparound: the cell at `(0, 0)` counts the cell at
/// `(height - 1, width - 1)` among its neighbors (diagonal wrap), and each
/// of the four grid edges wraps to the opposite edge: row 0 sees row
/// `height - 1` as the row above, row `height - 1` sees row 0 below,
/// column 0 sees column `width - 1` to its left, and column `width - 1`
/// sees column 0 to its right.
pub proof fn lemma_toroidal_wraparound(cells: Seq<Cell>, width: int, height: int)
    requires
        1 <= width,
        1 <= height,
    ensures
        live_neighbors(cells, width, height, 0, 0) >= cell_weight(
            cells[flat_index(height - 1, width - 1, width)],
        ),
        forall|col: int|
            0 <= col < width ==> #[trigger] live_neighbors(cells, width, height, 0, col)
                >= cell_weight(cells[flat_index(height - 1, col, width)]),
        forall|col: int|
            0 <= col < width ==> #[trigger] live_neighbors(cells, width, height, height - 1, col)
                >= cell_weight(cells[flat_index(0, col, width)]),
        forall|row: int|
            0 <= row < height ==> #[trigger] live_neighbors(cells, width, height, row, 0)
                >= cell_weight(cells[flat_index(row, width - 1, width)]),
        forall|row: int|
            0 <= row < height ==> #[trigger] live_neighbors(cells, width, height, row, width - 1)
                >= cell_weight(cells[flat_index(row, 0, width)]),
{
}

/// Determinism: the simulation has no hidden state, so two grids that
/// start equal stay equal after any number of generations.
pub proof fn lemma_step_deterministic(
    first: Seq<Cell>,
    second: Seq<Cell>,
    width: int,
    height: int,
    n: nat,
)
    requires
        first == second,
    ensures
        step_n(first, width, height, n) == step_n(second, width, height, n),
{
}

/// Applies the transition rule to one cell, given its live-neighbor count.
pub fn apply_rule(current: Cell, live_count: u8) -> (next: Cell)
    ensures
        next == next_cell(current, live_count as nat),
{
    match current {
        Cell::Alive => if live_count == 2 || live_count == 3 {
            Cell::Alive
        } else {
            Cell::Dead
        },
        Cell::Dead => if live_count == 3 {
            Cell::Alive
        } else {
            Cell::Dead
        },
    }
}

/// The numeric weight of one cell, for summing neighbor counts.
pub fn cell_value(c: Cell) -> (v: u8)
    ensures
        v as nat == cell_weight(c),
        v <= 1,
{
    match c {
        Cell::Dead => 0,
        Cell::Alive => 1,
    }
}

} // verus!
