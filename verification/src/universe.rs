//! The executable simulation engine: a fixed-size toroidal grid advanced
//! one generation at a time.

use crate::rules::Cell;
use crate::rules::apply_rule;
use crate::rules::cell_value;
use crate::rules::cell_weight;
use crate::rules::flat_index;
use crate::rules::lemma_flat_index_in_range;
use crate::rules::live_neighbors;
use crate::rules::next_cell;
use crate::rules::step;
use crate::rules::wrap_dec;
use crate::rules::wrap_inc;
use vstd::arithmetic::div_mod::lemma_fundamental_div_mod_converse;
use vstd::prelude::*;
use vstd::string::StringExecFns;

verus! {

/// The glyph a cell is rendered as: a white square for a live cell, a
/// black one for a dead cell.
pub open spec fn glyph(c: Cell) -> char {
    match c {
        Cell::Alive => '◻',
        Cell::Dead => '◼',
    }
}

/// One rendered grid row: the glyph of each of its cells in order, closed
/// by a newline.
pub open spec fn rendered_row(cells: Seq<Cell>, width: int, row: int) -> Seq<char> {
    Seq::new(width as nat, |col: int| glyph(cells[flat_index(row, col, width)])).push('\n')
}

/// The first `rows` rendered rows of the grid, concatenated.
pub open spec fn rendered_grid(cells: Seq<Cell>, width: int, rows: int) -> Seq<char>
    decreases rows,
{
    if rows <= 0 {
        Seq::empty()
    } else {
        rendered_grid(cells, width, rows - 1) + rendered_row(cells, width, rows - 1)
    }
}

/// The initial pattern: the cell at flat index `i` starts alive when `i`
/// is even or a multiple of seven, dead otherwise.
pub open spec fn seed_cell(i: int) -> Cell {
    if i % 2 == 0 || i % 7 == 0 {
        Cell::Alive
    } else {
        Cell::Dead
    }
}

/// A toroidal Game of Life grid: a flat cell buffer in row-major order,
/// with dimensions fixed at construction.
pub struct Universe {
    width: usize,
    height: usize,
    cells: Vec<Cell>,
}

/// A rendered grid is one line per row: `rows` rows of `width` glyphs,
/// each closed by a newline.
pub proof fn lemma_rendered_grid_len(cells: Seq<Cell>, width: int, rows: int)
    requires
        0 <= width,
        0 <= rows,
    ensures
        rendered_grid(cells, width, rows).len() == rows * (width + 1),
    decreases rows,
{
    if rows > 0 {
        lemma_rendered_grid_len(cells, width, rows - 1);
        assert(rendered_grid(cells, width, rows) == rendered_grid(cells, width, rows - 1)
            + rendered_row(cells, width, rows - 1));
        assert(rendered_row(cells, width, rows - 1).len() == width + 1);
        assert(rows * (width + 1) == (rows - 1) * (width + 1) + (width + 1))
            by (nonlinear_arith);
    } else {
        assert(rows * (width + 1) == 0) by (nonlinear_arith)
            requires
                rows == 0,
        ;
    }
}

impl Universe {
    /// The grid width, as a mathematical integer.
    pub closed spec fn spec_width(&self) -> int {
        self.width as int
    }

    /// The grid height, as a mathematical integer.
    pub closed spec fn spec_height(&self) -> int {
        self.height as int
    }

    /// The cell buffer, as a mathematical sequence.
    pub closed spec fn spec_cells(&self) -> Seq<Cell> {
        self.cells@
    }

    /// Well-formedness: both dimensions are positive (wraparound divides
    /// by them) and fit a `u32`, and the buffer holds exactly one cell per
    /// grid position.
    pub open spec fn wf(&self) -> bool {
        &&& 1 <= self.spec_width() <= u32::MAX as int
        &&& 1 <= self.spec_height() <= u32::MAX as int
        &&& self.spec_cells().len() == self.spec_width() * self.spec_height()
    }

    /// Builds the grid with the deterministic initial pattern: the cell at
    /// flat index `i` is alive exactly when `i` is even or a multiple of
    /// seven. The reference configuration is 128 by 64.
    pub fn new(width: u32, height: u32) -> (universe: Universe)
        requires
            1 <= width,
            1 <= height,
            width * height <= usize::MAX,
        ensures
            universe.wf(),
            universe.spec_width() == width as int,
            universe.spec_height() == height as int,
            forall|i: int|
                0 <= i < width * height ==> #[trigger] universe.spec_cells()[i] == seed_cell(i),
    {
        let w = width as usize;
        let h = height as usize;
        let n = w * h;
        let mut cells: Vec<Cell> = Vec::new();
        let mut i: usize = 0;
        while i < n
            invariant
                n == width * height,
                i <= n,
                cells@.len() == i,
                forall|j: int| 0 <= j < i ==> cells@[j] == seed_cell(j),
            decreases n - i,
        {
            if i % 2 == 0 || i % 7 == 0 {
                cells.push(Cell::Alive);
            } else {
                cells.push(Cell::Dead);
            }
            i = i + 1;
        }
        Universe { width: w, height: h, cells }
    }

    /// Builds the grid from an explicit cell buffer, already flattened in
    /// row-major order.
    pub fn from_cells(width: u32, height: u32, cells: Vec<Cell>) -> (universe: Universe)
        requires
            1 <= width,
            1 <= height,
            cells@.len() == width * height,
        ensures
            universe.wf(),
            universe.spec_width() == width as int,
            universe.spec_height() == height as int,
            universe.spec_cells() == cells@,
    {
        Universe { width: width as usize, height: height as usize, cells }
    }

    /// The flat buffer index of the cell in row `row` and column `col`.
    pub fn get_idx(&self, row: usize, col: usize) -> (idx: usize)
        requires
            self.wf(),
            row < self.spec_height(),
            col < self.spec_width(),
        ensures
            idx == flat_index(row as int, col as int, self.spec_width()),
            idx < self.spec_cells().len(),
    {
        let buffer_len = self.cells.len();
        proof {
            lemma_flat_index_in_range(
                row as int,
                col as int,
                self.spec_width(),
                self.spec_height(),
            );
            assert(flat_index(row as int, col as int, self.spec_width()) < buffer_len);
        }
        row * self.width + col
    }

    /// The numeric weight of the cell in row `row` and column `col`.
    fn cell_at(&self, row: usize, col: usize) -> (v: u8)
        requires
            self.wf(),
            row < self.spec_height(),
            col < self.spec_width(),
        ensures
            v as nat == cell_weight(
                self.spec_cells()[flat_index(row as int, col as int, self.spec_width())],
            ),
            v <= 1,
    {
        let idx = self.get_idx(row, col);
        cell_value(self.cells[idx])
    }

    /// Sums the eight Moore neighbors of the cell at `(row, col)`, each
    /// coordinate wrapped toroidally, so the count is always at most
    /// eight.
    #[verifier::rlimit(25)]
    pub fn live_neighbor_count(&self, row: usize, col: usize) -> (count: u8)
        requires
            self.wf(),
            row < self.spec_height(),
            col < self.spec_width(),
        ensures
            count as nat == live_neighbors(
                self.spec_cells(),
                self.spec_width(),
                self.spec_height(),
                row as int,
                col as int,
            ),
            count <= 8,
    {
        let above = if row == 0 {
            self.height - 1
        } else {
            row - 1
        };
        let below = if row + 1 == self.height {
            0
        } else {
            row + 1
        };
        let left = if col == 0 {
            self.width - 1
        } else {
            col - 1
        };
        let right = if col + 1 == self.width {
            0
        } else {
            col + 1
        };
        assert(above as int == wrap_dec(row as int, self.spec_height()));
        assert(below as int == wrap_inc(row as int, self.spec_height()));
        assert(left as int == wrap_dec(col as int, self.spec_width()));
        assert(right as int == wrap_inc(col as int, self.spec_width()));
        let mut count: u8 = self.cell_at(above, left);
        count = count + self.cell_at(above, col);
        count = count + self.cell_at(above, right);
        count = count + self.cell_at(row, left);
        count = count + self.cell_at(row, right);
        count = count + self.cell_at(below, left);
        count = count + self.cell_at(below, col);
        count = count + self.cell_at(below, right);
        count
    }

    /// Advances the grid by one generation. The whole next generation is
    /// computed from the current one before any of it is installed, so
    /// every neighbor count reflects the prior generation only, and the
    /// buffer is replaced atomically.
    pub fn tick(&mut self)
        requires
            old(self).wf(),
        ensures
            final(self).wf(),
            final(self).spec_width() == old(self).spec_width(),
            final(self).spec_height() == old(self).spec_height(),
            final(self).spec_cells() == step(
                old(self).spec_cells(),
                old(self).spec_width(),
                old(self).spec_height(),
            ),
    {
        let ghost target = step(old(self).spec_cells(), old(self).spec_width(), old(self).spec_height());
        let mut next: Vec<Cell> = Vec::new();
        let mut row: usize = 0;
        while row < self.height
            invariant
                self == old(self),
                self.wf(),
                row <= self.spec_height(),
                next@.len() == row * self.spec_width(),
                target.len() == self.spec_width() * self.spec_height(),
                target == step(self.spec_cells(), self.spec_width(), self.spec_height()),
                forall|k: int| 0 <= k < next@.len() ==> next@[k] == target[k],
            decreases self.spec_height() - row,
        {
            let mut col: usize = 0;
            while col < self.width
                invariant
                    self == old(self),
                    self.wf(),
                    row < self.spec_height(),
                    col <= self.spec_width(),
                    next@.len() == row * self.spec_width() + col,
                    target.len() == self.spec_width() * self.spec_height(),
                    target == step(self.spec_cells(), self.spec_width(), self.spec_height()),
                    forall|k: int| 0 <= k < next@.len() ==> next@[k] == target[k],
                decreases self.spec_width() - col,
            {
                let idx = self.get_idx(row, col);
                let cell = self.cells[idx];
                let live_count = self.live_neighbor_count(row, col);
                proof {
                    lemma_fundamental_div_mod_converse(
                        idx as int,
                        self.spec_width(),
                        row as int,
                        col as int,
                    );
                    assert(target[idx as int] == next_cell(
                        self.spec_cells()[idx as int],
                        live_neighbors(
                            self.spec_cells(),
                            self.spec_width(),
                            self.spec_height(),
                            row as int,
                            col as int,
                        ),
                    ));
                }
                next.push(apply_rule(cell, live_count));
                col = col + 1;
            }
            proof {
                assert((row + 1) * self.spec_width() == row * self.spec_width()
                    + self.spec_width()) by (nonlinear_arith);
            }
            row = row + 1;
        }
        proof {
            assert(next@.len() == self.spec_height() * self.spec_width());
            assert(self.spec_height() * self.spec_width() == self.spec_width()
                * self.spec_height()) by (nonlinear_arith);
            assert(next@ =~= target);
        }
        self.cells = next;
    }

    /// The grid width, fixed at construction.
    pub fn width(&self) -> (w: u32)
        requires
            self.wf(),
        ensures
            w as int == self.spec_width(),
    {
        self.width as u32
    }

    /// The grid height, fixed at construction.
    pub fn height(&self) -> (h: u32)
        requires
            self.wf(),
        ensures
            h as int == self.spec_height(),
    {
        self.height as u32
    }

    /// Renders the grid as text: one line per row, each cell as its glyph,
    /// rows separated by newlines. Purely derived from the current state.
    pub fn render(&self) -> (text: String)
        requires
            self.wf(),
        ensures
            text@ == rendered_grid(self.spec_cells(), self.spec_width(), self.spec_height()),
    {
        let mut text = String::from_str("");
        proof {
            reveal_strlit("");
            assert(text@ =~= rendered_grid(self.spec_cells(), self.spec_width(), 0));
        }
        let mut row: usize = 0;
        while row < self.height
            invariant
                self.wf(),
                row <= self.spec_height(),
                text@ == rendered_grid(self.spec_cells(), self.spec_width(), row as int),
            decreases self.spec_height() - row,
        {
            let ghost row_glyphs = Seq::new(
                self.spec_width() as nat,
                |col: int| glyph(self.spec_cells()[flat_index(row as int, col, self.spec_width())]),
            );
            let mut col: usize = 0;
            while col < self.width
                invariant
                    self.wf(),
                    row < self.spec_height(),
                    col <= self.spec_width(),
                    row_glyphs == Seq::new(
                        self.spec_width() as nat,
                        |col: int| glyph(
                            self.spec_cells()[flat_index(row as int, col, self.spec_width())],
                        ),
                    ),
                    text@ == rendered_grid(self.spec_cells(), self.spec_width(), row as int)
                        + row_glyphs.take(col as int),
                decreases self.spec_width() - col,
            {
                let idx = self.get_idx(row, col);
                let alive = match self.cells[idx] {
                    Cell::Alive => true,
                    Cell::Dead => false,
                };
                if alive {
                    text.append("◻");
                } else {
                    text.append("◼");
                }
                proof {
                    reveal_strlit("◻");
                    reveal_strlit("◼");
                    assert(row_glyphs.take(col + 1) =~= row_glyphs.take(col as int).push(
                        glyph(self.spec_cells()[idx as int]),
                    ));
                    assert(text@ =~= rendered_grid(self.spec_cells(), self.spec_width(), row as int)
                        + row_glyphs.take(col + 1));
                }
                col = col + 1;
            }
            text.append("\n");
            proof {
                reveal_strlit("\n");
                assert(row_glyphs.take(self.spec_width()) =~= row_glyphs);
                assert(text@ =~= rendered_grid(self.spec_cells(), self.spec_width(), row as int)
                    + rendered_row(self.spec_cells(), self.spec_width(), row as int));
                assert(text@ =~= rendered_grid(
                    self.spec_cells(),
                    self.spec_width(),
                    row as int + 1,
                ));
            }
            row = row + 1;
        }
        text
    }

    /// Read-only view of the cell buffer: exactly the state as of the last
    /// completed generation, in row-major order.
    pub fn cells(&self) -> (cells: &Vec<Cell>)
        ensures
            cells@ == self.spec_cells(),
    {
        &self.cells
    }
}

} // verus!
