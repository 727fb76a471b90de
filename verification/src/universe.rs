//! The universe: a torus of cells held in a packed buffer, and the engine
//! that advances it one generation at a time.

use crate::bits::{bit_at, bit_seq, duplicate};
use crate::cell::{next_state, Cell};
use crate::grid::Grid;
use fixedbitset::FixedBitSet;
use vstd::arithmetic::div_mod::lemma_fundamental_div_mod_converse;
use vstd::prelude::*;

verus! {

/// The largest number of cells a universe can hold, so that every cell index
/// fits in a `u32`.
pub const MAX_CELLS: u32 = 0xFFFF_FFFF;

/// Why a universe could not be built.
#[derive(Clone, Copy, Debug, PartialEq, Eq, Structural)]
pub enum UniverseError {
    /// The width or the height is zero.
    ZeroDimension,
    /// The grid would hold more than `MAX_CELLS` cells.
    TooLarge,
    /// The number of cells supplied is not the width times the height.
    LengthMismatch,
}

/// The defect, if any, of a universe of `width` columns and `height` rows
/// that is to be filled with `supplied` cells. A zero dimension is reported
/// before an excessive size, and that before a wrong number of cells.
pub open spec fn defect(width: int, height: int, supplied: int) -> Option<UniverseError> {
    if width == 0 || height == 0 {
        Some(UniverseError::ZeroDimension)
    } else if width * height > MAX_CELLS {
        Some(UniverseError::TooLarge)
    } else if supplied != width * height {
        Some(UniverseError::LengthMismatch)
    } else {
        None
    }
}

/// A toroidal grid of cells, one bit to a cell, in row-major order.
pub struct Universe {
    width: u32,
    height: u32,
    cells: FixedBitSet,
}

impl View for Universe {
    type V = Grid;

    closed spec fn view(&self) -> Grid {
        Grid {
            width: self.width as nat,
            height: self.height as nat,
            cells: cells_of(bit_seq(self.cells)),
        }
    }
}

impl Universe {
    /// The universe is a well-formed grid that is small enough to index.
    pub open spec fn wf(&self) -> bool {
        &&& self@.wf()
        &&& self@.cells.len() <= MAX_CELLS
    }

    /// A universe of sixty-four rows and columns filled with the fixed
    /// seeding pattern.
    pub fn new() -> (universe: Universe)
        ensures
            universe.wf(),
            universe@ == Grid::seeded(64, 64),
    {
        let size: usize = 64 * 64;
        Universe { width: 64, height: 64, cells: seed(size) }
    }

    /// A universe of the given dimensions filled with the fixed seeding
    /// pattern: the cell at row-major position `i` is alive exactly when `i`
    /// is a multiple of two or of seven.
    pub fn with_dimensions(width: u32, height: u32) -> (built: Result<Universe, UniverseError>)
        ensures
            match built {
                Ok(universe) => {
                    &&& defect(width as int, height as int, width * height) is None
                    &&& universe.wf()
                    &&& universe@ == Grid::seeded(width as nat, height as nat)
                },
                Err(error) => defect(width as int, height as int, width * height) == Some(error),
            },
    {
        match cell_count(width, height) {
            Ok(size) => Ok(Universe { width, height, cells: seed(size) }),
            Err(error) => Err(error),
        }
    }

    /// A universe of the given dimensions that holds the given cells, taken
    /// in row-major order. This is the way in for a host that seeds the grid
    /// itself, from a random source or from a drawing.
    pub fn from_cells(width: u32, height: u32, cells: &[Cell]) -> (built: Result<
        Universe,
        UniverseError,
    >)
        ensures
            match built {
                Ok(universe) => {
                    &&& defect(width as int, height as int, cells@.len() as int) is None
                    &&& universe.wf()
                    &&& universe@ == (Grid {
                        width: width as nat,
                        height: height as nat,
                        cells: cells@,
                    })
                },
                Err(error) => defect(width as int, height as int, cells@.len() as int) == Some(
                    error,
                ),
            },
    {
        let size = match cell_count(width, height) {
            Ok(size) => size,
            Err(error) => {
                return Err(error);
            },
        };
        if cells.len() != size {
            return Err(UniverseError::LengthMismatch);
        }
        let mut packed = FixedBitSet::with_capacity(size);
        for i in 0..size
            invariant
                size == cells@.len(),
                bit_seq(packed).len() == size,
                forall|k: int|
                    0 <= k < i ==> Cell::of_bit(#[trigger] bit_seq(packed)[k]) == cells@[k],
        {
            packed.set(i, cells[i].is_alive());
        }
        let universe = Universe { width, height, cells: packed };
        assert(universe@.cells =~= cells@);
        Ok(universe)
    }

    /// The number of columns.
    pub fn width(&self) -> (width: u32)
        ensures
            width == self@.width,
    {
        self.width
    }

    /// The number of rows.
    pub fn height(&self) -> (height: u32)
        ensures
            height == self@.height,
    {
        self.height
    }

    /// The packed cell buffer itself, borrowed for reading: thirty-two cells
    /// to a block, a set bit for a live cell. The borrow ends before the next
    /// change to the universe.
    pub fn cells(&self) -> (blocks: &[u32])
        ensures
            self@.packed_in(blocks@),
    {
        self.cells.as_slice()
    }

    /// The universe as text: one line for each row, a hollow square for a
    /// dead cell and a filled square for a live one.
    pub fn render(&self) -> (text: String)
        requires
            self.wf(),
        ensures
            text@ == self@.render(),
    {
        let ghost grid = self@;
        let ghost line: int = self.width + 1;
        let mut text = String::new();
        proof {
            lemma_line_in_text(line, self.height as int, 0, 0);
        }
        for row in 0..self.height
            invariant
                self.wf(),
                grid == self@,
                line == grid.width + 1,
                text@.len() == row * line,
                forall|k: int| 0 <= k < row * line ==> #[trigger] text@[k] == grid.render()[k],
        {
            for column in 0..self.width
                invariant
                    self.wf(),
                    grid == self@,
                    line == grid.width + 1,
                    row < self.height,
                    text@.len() == row * line + column,
                    forall|k: int|
                        0 <= k < row * line + column ==> #[trigger] text@[k] == grid.render()[k],
            {
                proof {
                    lemma_fundamental_div_mod_converse(
                        row * line + column,
                        line,
                        row as int,
                        column as int,
                    );
                    lemma_line_in_text(line, self.height as int, row as int, column as int);
                    reveal_strlit("\u{25FB}");
                    reveal_strlit("\u{25FC}");
                }
                let symbol = if self.get(row, column) == Cell::Dead {
                    "\u{25FB}"
                } else {
                    "\u{25FC}"
                };
                text.append(symbol);
            }
            proof {
                lemma_fundamental_div_mod_converse(
                    row * line + self.width,
                    line,
                    row as int,
                    self.width as int,
                );
                lemma_line_in_text(line, self.height as int, row as int, self.width as int);
                reveal_strlit("\n");
            }
            text.append("\n");
        }
        text
    }

    /// The place of `(row, column)` in the row-major cell buffer.
    pub fn get_index(&self, row: u32, column: u32) -> (index: usize)
        requires
            self.wf(),
            self@.contains(row as int, column as int),
        ensures
            index == self@.index(row as int, column as int),
            index < self@.cells.len(),
    {
        proof {
            self@.lemma_index_in_range(row as int, column as int);
        }
        (row * self.width + column) as usize
    }

    /// The state of the cell at `(row, column)`.
    pub fn get(&self, row: u32, column: u32) -> (state: Cell)
        requires
            self.wf(),
            self@.contains(row as int, column as int),
        ensures
            state == self@.cell(row as int, column as int),
    {
        let index = self.get_index(row, column);
        Cell::from_bit(bit_at(&self.cells, index))
    }

    /// Overwrites the cell at `(row, column)` and leaves every other cell as
    /// it was.
    pub fn set(&mut self, row: u32, column: u32, state: Cell)
        requires
            old(self).wf(),
            old(self)@.contains(row as int, column as int),
        ensures
            final(self).wf(),
            final(self)@ == old(self)@.with_cell(row as int, column as int, state),
    {
        let index = self.get_index(row, column);
        self.cells.set(index, state.is_alive());
        assert(self@.cells =~= old(self)@.cells.update(index as int, state));
    }

    /// An independent copy of the universe: the same dimensions and the same
    /// cells in a buffer of its own.
    pub fn duplicate(&self) -> (copy: Universe)
        ensures
            copy@ == self@,
    {
        Universe { width: self.width, height: self.height, cells: duplicate(&self.cells) }
    }

    /// The number of live cells around `(row, column)` on the torus.
    ///
    /// The neighbours are reached with the offsets `height - 1`, `0`, `1`
    /// along the rows and `width - 1`, `0`, `1` along the columns, each sum
    /// wrapped around its dimension, and the pair of zero offsets is left
    /// out.
    pub fn live_neighbor_count(&self, row: u32, column: u32) -> (count: u8)
        requires
            self.wf(),
            self@.contains(row as int, column as int),
        ensures
            count == self@.neighbor_count(row as int, column as int),
            count <= 8,
    {
        let row_offsets: [u32; 3] = [self.height - 1, 0, 1];
        let column_offsets: [u32; 3] = [self.width - 1, 0, 1];
        let mut count: u8 = 0;
        for i in 0..3usize
            invariant
                self.wf(),
                self@.contains(row as int, column as int),
                forall|k: int| 0 <= k < 3 ==> row_offsets[k] == offset(self.height as int, k),
                forall|k: int| 0 <= k < 3 ==> column_offsets[k] == offset(self.width as int, k),
                count == rows_prefix(self@, row as int, column as int, i as int),
                count <= 3 * i,
        {
            let delta_row = row_offsets[i];
            for j in 0..3usize
                invariant
                    self.wf(),
                    self@.contains(row as int, column as int),
                    i < 3,
                    delta_row == offset(self.height as int, i as int),
                    forall|k: int| 0 <= k < 3 ==> column_offsets[k] == offset(self.width as int, k),
                    count == rows_prefix(self@, row as int, column as int, i as int) + row_prefix(
                        self@,
                        row as int,
                        column as int,
                        delta_row as int,
                        j as int,
                    ),
                    count <= 3 * i + j,
            {
                let delta_column = column_offsets[j];
                if !(delta_row == 0 && delta_column == 0) {
                    let neighbor_row = wrap(row, delta_row, self.height);
                    let neighbor_column = wrap(column, delta_column, self.width);
                    let index = self.get_index(neighbor_row, neighbor_column);
                    if bit_at(&self.cells, index) {
                        count += 1;
                    }
                }
            }
        }
        count
    }

    /// Advances the universe by one generation. Every cell of the new
    /// generation is computed from the old one, which is replaced only when
    /// the new one is complete.
    pub fn tick(&mut self)
        requires
            old(self).wf(),
        ensures
            final(self).wf(),
            final(self)@ == old(self)@.step(),
    {
        let ghost grid = self@;
        let mut next = duplicate(&self.cells);
        assert(0 * grid.width == 0 && self.height * grid.width == grid.width * grid.height)
            by (nonlinear_arith)
            requires
                grid.height == self.height,
        ;
        for row in 0..self.height
            invariant
                *self == *old(self),
                self.wf(),
                grid == self@,
                bit_seq(next).len() == grid.cells.len(),
                forall|k: int|
                    0 <= k < row * grid.width ==> Cell::of_bit(#[trigger] bit_seq(next)[k])
                        == grid.next_cell(k),
        {
            for column in 0..self.width
                invariant
                    *self == *old(self),
                    self.wf(),
                    grid == self@,
                    row < self.height,
                    bit_seq(next).len() == grid.cells.len(),
                    forall|k: int|
                        0 <= k < row * grid.width + column ==> Cell::of_bit(
                            #[trigger] bit_seq(next)[k],
                        ) == grid.next_cell(k),
            {
                let index = self.get_index(row, column);
                let cell = Cell::from_bit(bit_at(&self.cells, index));
                let live_neighbors = self.live_neighbor_count(row, column);
                proof {
                    grid.lemma_position_of_index(row as int, column as int);
                }
                next.set(index, next_state(cell, live_neighbors).is_alive());
            }
            assert(row * grid.width + grid.width == (row + 1) * grid.width) by (nonlinear_arith);
        }
        self.cells = next;
        assert(self@.cells =~= grid.step().cells);
    }
}

/// The cells that a sequence of stored bits stands for.
spec fn cells_of(stored: Seq<bool>) -> Seq<Cell> {
    Seq::new(stored.len(), |i: int| Cell::of_bit(stored[i]))
}

/// The number of cells of a grid of the given dimensions, or what rules the
/// dimensions out.
fn cell_count(width: u32, height: u32) -> (count: Result<usize, UniverseError>)
    ensures
        match count {
            Ok(size) => size == width * height && defect(
                width as int,
                height as int,
                width * height,
            ) is None,
            Err(error) => error != UniverseError::LengthMismatch && defect(
                width as int,
                height as int,
                width * height,
            ) == Some(error),
        },
{
    if width == 0 || height == 0 {
        return Err(UniverseError::ZeroDimension);
    }
    assert(width * height <= 0xFFFF_FFFF * 0xFFFF_FFFF) by (nonlinear_arith)
        requires
            width <= 0xFFFF_FFFF,
            height <= 0xFFFF_FFFF,
    ;
    let count: u64 = width as u64 * height as u64;
    if count > MAX_CELLS as u64 {
        return Err(UniverseError::TooLarge);
    }
    Ok(count as usize)
}

/// A buffer of `size` cells filled with the fixed seeding pattern.
fn seed(size: usize) -> (packed: FixedBitSet)
    ensures
        cells_of(bit_seq(packed)) == Seq::new(
            size as nat,
            |i: int| Cell::of_bit(Grid::seed_alive(i)),
        ),
{
    let mut packed = FixedBitSet::with_capacity(size);
    for i in 0..size
        invariant
            bit_seq(packed).len() == size,
            forall|k: int| 0 <= k < i ==> #[trigger] bit_seq(packed)[k] == Grid::seed_alive(k),
    {
        packed.set(i, i % 2 == 0 || i % 7 == 0);
    }
    assert(cells_of(bit_seq(packed)) =~= Seq::new(
        size as nat,
        |i: int| Cell::of_bit(Grid::seed_alive(i)),
    ));
    packed
}

/// Moves `coord` forward by `delta` along a dimension of `dim` lines and
/// wraps the result around. The sum is taken in sixty-four bits, where it
/// cannot overflow.
fn wrap(coord: u32, delta: u32, dim: u32) -> (wrapped: u32)
    requires
        dim > 0,
    ensures
        wrapped == (coord + delta) % (dim as int),
        wrapped < dim,
{
    ((coord as u64 + delta as u64) % (dim as u64)) as u32
}

/// The offset that stands at place `k` of the three offsets used along a
/// dimension of `dim` lines: back by one (wrapped), none, forward by one.
spec fn offset(dim: int, k: int) -> int {
    if k == 0 {
        dim - 1
    } else if k == 1 {
        0
    } else {
        1
    }
}

/// The sum of the first `j` terms of a neighbour row.
spec fn row_prefix(grid: Grid, row: int, col: int, dr: int, j: int) -> int {
    if j <= 0 {
        0
    } else if j == 1 {
        grid.neighbor_term(row, col, dr, grid.width - 1)
    } else if j == 2 {
        grid.neighbor_term(row, col, dr, grid.width - 1) + grid.neighbor_term(row, col, dr, 0)
    } else {
        grid.neighbor_row(row, col, dr)
    }
}

/// The sum of the first `i` neighbour rows.
spec fn rows_prefix(grid: Grid, row: int, col: int, i: int) -> int {
    if i <= 0 {
        0
    } else if i == 1 {
        grid.neighbor_row(row, col, grid.height - 1)
    } else if i == 2 {
        grid.neighbor_row(row, col, grid.height - 1) + grid.neighbor_row(row, col, 0)
    } else {
        grid.neighbor_count(row, col)
    }
}

/// In a text of `height` lines of `line` characters each, character `col` of
/// line `row` lies inside the text, and the next line starts right after the
/// last character of this one.
proof fn lemma_line_in_text(line: int, height: int, row: int, col: int)
    by (nonlinear_arith)
    requires
        0 <= row < height,
        0 <= col < line,
    ensures
        0 <= row * line + col < height * line,
        (row + 1) * line == row * line + line,
        0 * line == 0,
{
}

} // verus!
