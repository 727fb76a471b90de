//! The mathematical model of a universe: a torus of cells and the rules that
//! advance it by one generation.

use crate::bits::block_bit;
use crate::cell::Cell;
use vstd::arithmetic::div_mod::lemma_fundamental_div_mod_converse;
use vstd::prelude::*;

verus! {

/// A generation of the automaton as a mathematical value: the dimensions of
/// the torus and its cells in row-major order.
pub struct Grid {
    pub width: nat,
    pub height: nat,
    pub cells: Seq<Cell>,
}

impl Grid {
    /// Both dimensions are positive and there is exactly one cell for each
    /// position.
    pub open spec fn wf(self) -> bool {
        &&& self.width > 0
        &&& self.height > 0
        &&& self.cells.len() == self.width * self.height
    }

    /// Whether `(row, col)` names a position of the grid.
    pub open spec fn contains(self, row: int, col: int) -> bool {
        0 <= row < self.height && 0 <= col < self.width
    }

    /// The place of `(row, col)` in the row-major sequence of cells.
    pub open spec fn index(self, row: int, col: int) -> int {
        row * self.width + col
    }

    /// The cell at `(row, col)`.
    pub open spec fn cell(self, row: int, col: int) -> Cell {
        self.cells[self.index(row, col)]
    }

    /// The grid with the cell at `(row, col)` replaced by `state`.
    pub open spec fn with_cell(self, row: int, col: int, state: Cell) -> Grid {
        Grid { cells: self.cells.update(self.index(row, col), state), ..self }
    }

    /// One if the cell found at `(row, col)` after wrapping both coordinates
    /// around the torus is alive, zero if it is dead.
    pub open spec fn live(self, row: int, col: int) -> int {
        if self.cell(row % (self.height as int), col % (self.width as int)) is Alive {
            1
        } else {
            0
        }
    }

    /// What the neighbour at offset `(dr, dc)` from `(row, col)` adds to the
    /// neighbour count. Offsets are never negative: a step back along a
    /// dimension is a step forward by one less than its size. The pair of
    /// zero offsets is the cell itself and adds nothing.
    pub open spec fn neighbor_term(self, row: int, col: int, dr: int, dc: int) -> int {
        if dr == 0 && dc == 0 {
            0
        } else {
            self.live(row + dr, col + dc)
        }
    }

    /// What the three neighbours in the row at offset `dr` add to the
    /// neighbour count of `(row, col)`: the columns at offsets `width - 1`,
    /// `0` and `1`.
    pub open spec fn neighbor_row(self, row: int, col: int, dr: int) -> int {
        self.neighbor_term(row, col, dr, self.width - 1) + self.neighbor_term(row, col, dr, 0)
            + self.neighbor_term(row, col, dr, 1)
    }

    /// The number of live cells around `(row, col)` on the torus: the rows at
    /// offsets `height - 1`, `0` and `1`.
    ///
    /// On a grid of at least two rows and two columns these are the eight
    /// positions one step away in any direction. On a grid with a single row
    /// the offset `height - 1` is zero as well, so a pair made of it and a
    /// zero column offset is left out like the cell itself, and fewer than
    /// eight terms remain; likewise with a single column.
    pub open spec fn neighbor_count(self, row: int, col: int) -> int {
        self.neighbor_row(row, col, self.height - 1) + self.neighbor_row(row, col, 0)
            + self.neighbor_row(row, col, 1)
    }

    /// The state that the cell at row-major position `i` has in the next
    /// generation.
    pub open spec fn next_cell(self, i: int) -> Cell {
        self.cells[i].next(self.neighbor_count(i / (self.width as int), i % (self.width as int)))
    }

    /// The next generation: every cell advanced by the rule, each from the
    /// neighbours it has in this generation.
    pub open spec fn step(self) -> Grid {
        Grid { cells: Seq::new(self.cells.len(), |i: int| self.next_cell(i)), ..self }
    }

    /// The generation reached after `n` steps.
    pub open spec fn steps(self, n: nat) -> Grid
        decreases n,
    {
        if n == 0 {
            self
        } else {
            self.steps((n - 1) as nat).step()
        }
    }

    /// Whether every cell is dead.
    pub open spec fn all_dead(self) -> bool {
        forall|i: int| 0 <= i < self.cells.len() ==> self.cells[i] is Dead
    }

    /// Whether the cell at row-major position `i` starts out alive under the
    /// fixed seeding pattern.
    pub open spec fn seed_alive(i: int) -> bool {
        i % 2 == 0 || i % 7 == 0
    }

    /// The grid of the given dimensions filled with the fixed seeding
    /// pattern.
    pub open spec fn seeded(width: nat, height: nat) -> Grid {
        Grid {
            width,
            height,
            cells: Seq::new(width * height, |i: int| Cell::of_bit(Self::seed_alive(i))),
        }
    }

    /// The text of the grid: one line for each row, each line made of one
    /// glyph for each cell and ended by a line break.
    pub open spec fn render(self) -> Seq<char> {
        Seq::new(
            self.height * (self.width + 1),
            |k: int|
                {
                    let row = k / (self.width + 1) as int;
                    let col = k % (self.width + 1) as int;
                    if col == self.width {
                        '\n'
                    } else {
                        self.cell(row, col).glyph()
                    }
                },
        )
    }

    /// Whether `blocks` is the packed form of the cells: thirty-two cells to
    /// a block, cell `i` in bit `i % 32` of block `i / 32`, a set bit for a
    /// live cell.
    pub open spec fn packed_in(self, blocks: Seq<u32>) -> bool {
        &&& blocks.len() == (self.cells.len() + 31) / 32
        &&& forall|i: int|
            0 <= i < self.cells.len() ==> (#[trigger] self.cells[i] is Alive) == block_bit(
                blocks[i / 32],
                i % 32,
            )
    }

    /// The row-major index of a position of the grid is the index of one of
    /// its cells.
    pub proof fn lemma_index_in_range(self, row: int, col: int)
        requires
            self.wf(),
            self.contains(row, col),
        ensures
            0 <= self.index(row, col) < self.cells.len(),
    {
        assert(0 <= row * self.width + col < self.width * self.height) by (nonlinear_arith)
            requires
                0 <= row < self.height,
                0 <= col < self.width,
        ;
    }

    /// Dividing the row-major index of a position by the width gives back
    /// its row, and the remainder is its column.
    pub proof fn lemma_position_of_index(self, row: int, col: int)
        requires
            self.wf(),
            self.contains(row, col),
        ensures
            self.index(row, col) / (self.width as int) == row,
            self.index(row, col) % (self.width as int) == col,
    {
        lemma_fundamental_div_mod_converse(self.index(row, col), self.width as int, row, col);
    }
}

} // verus!
