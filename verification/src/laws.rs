//! What holds of every universe: laws proved over the grid model that the
//! engine's contracts are stated in.

use crate::bits::block_bit;
use crate::cell::{Cell, ALIVE_GLYPH, DEAD_GLYPH};
use crate::grid::Grid;
use vstd::arithmetic::div_mod::{
    lemma_fundamental_div_mod_converse, lemma_mod_add_multiples_vanish, lemma_mod_bound,
};
use vstd::prelude::*;

verus! {

/// A step changes neither dimension, and the number of cells stays the width
/// times the height.
pub proof fn lemma_step_preserves_shape(grid: Grid)
    requires
        grid.wf(),
    ensures
        grid.step().wf(),
        grid.step().width == grid.width,
        grid.step().height == grid.height,
        grid.step().cells.len() == grid.width * grid.height,
{
}

/// However many steps are taken, the dimensions stay what they were and the
/// number of cells stays the width times the height.
pub proof fn lemma_steps_preserve_shape(grid: Grid, n: nat)
    requires
        grid.wf(),
    ensures
        grid.steps(n).wf(),
        grid.steps(n).width == grid.width,
        grid.steps(n).height == grid.height,
        grid.steps(n).cells.len() == grid.width * grid.height,
    decreases n,
{
    if n > 0 {
        lemma_steps_preserve_shape(grid, (n - 1) as nat);
        lemma_step_preserves_shape(grid.steps((n - 1) as nat));
    }
}

/// The rule read as a table: a live cell with fewer than two live neighbours
/// dies, one with two or three lives on, one with more than three dies; a
/// dead cell with exactly three live neighbours comes alive; every other cell
/// stays as it is.
pub proof fn lemma_rule_table(current: Cell, live_neighbors: int)
    ensures
        current is Alive && live_neighbors < 2 ==> current.next(live_neighbors) is Dead,
        current is Alive && (live_neighbors == 2 || live_neighbors == 3) ==> current.next(
            live_neighbors,
        ) is Alive,
        current is Alive && live_neighbors > 3 ==> current.next(live_neighbors) is Dead,
        current is Dead && live_neighbors == 3 ==> current.next(live_neighbors) is Alive,
        current is Dead && live_neighbors != 3 ==> current.next(live_neighbors) == current,
{
}

/// Writing a cell changes what is read at that position and nowhere else,
/// and leaves the shape of the grid as it was.
pub proof fn lemma_with_cell_reads_back(
    grid: Grid,
    row: int,
    col: int,
    state: Cell,
    other_row: int,
    other_col: int,
)
    requires
        grid.wf(),
        grid.contains(row, col),
        grid.contains(other_row, other_col),
    ensures
        grid.with_cell(row, col, state).wf(),
        grid.with_cell(row, col, state).width == grid.width,
        grid.with_cell(row, col, state).height == grid.height,
        grid.with_cell(row, col, state).cell(row, col) == state,
        (other_row != row || other_col != col) ==> grid.with_cell(row, col, state).cell(
            other_row,
            other_col,
        ) == grid.cell(other_row, other_col),
{
    grid.lemma_index_in_range(row, col);
    grid.lemma_index_in_range(other_row, other_col);
    grid.lemma_position_of_index(row, col);
    grid.lemma_position_of_index(other_row, other_col);
}

/// A neighbour count lies between zero and eight, whatever the grid holds.
pub proof fn lemma_neighbor_count_bounds(grid: Grid, row: int, col: int)
    ensures
        0 <= grid.neighbor_count(row, col) <= 8,
{
}

/// Coordinates wrap around the torus: a whole turn in either direction leads
/// to the same cell, so the row above the first is the last and the column
/// after the last is the first.
pub proof fn lemma_live_wraps(grid: Grid, row: int, col: int)
    requires
        grid.wf(),
    ensures
        grid.live(row + grid.height, col) == grid.live(row, col),
        grid.live(row, col + grid.width) == grid.live(row, col),
        grid.contains(row, col) ==> grid.live(row, col) == (if grid.cell(row, col) is Alive {
            1int
        } else {
            0int
        }),
{
    lemma_mod_add_multiples_vanish(row, grid.height as int);
    lemma_mod_add_multiples_vanish(col, grid.width as int);
    if grid.contains(row, col) {
        lemma_fundamental_div_mod_converse(row, grid.height as int, 0, row);
        lemma_fundamental_div_mod_converse(col, grid.width as int, 0, col);
    }
}

/// On a grid of at least two rows and two columns the neighbour count of a
/// position is the number of live cells among the eight positions one step
/// away from it in any direction, each wrapped around the torus.
pub proof fn lemma_neighbors_are_adjacent(grid: Grid, row: int, col: int)
    requires
        grid.wf(),
        grid.width >= 2,
        grid.height >= 2,
    ensures
        grid.neighbor_count(row, col) == grid.live(row - 1, col - 1) + grid.live(row - 1, col)
            + grid.live(row - 1, col + 1) + grid.live(row, col - 1) + grid.live(row, col + 1)
            + grid.live(row + 1, col - 1) + grid.live(row + 1, col) + grid.live(row + 1, col + 1),
{
    lemma_live_wraps(grid, row - 1, col - 1);
    lemma_live_wraps(grid, row - 1, col + grid.width - 1);
    lemma_live_wraps(grid, row - 1, col);
    lemma_live_wraps(grid, row - 1, col + 1);
    lemma_live_wraps(grid, row, col - 1);
    lemma_live_wraps(grid, row + 1, col - 1);
}

/// Wrapping any pair of coordinates gives a position of the grid.
pub proof fn lemma_wrapped_position(grid: Grid, row: int, col: int)
    requires
        grid.wf(),
    ensures
        grid.contains(row % (grid.height as int), col % (grid.width as int)),
        0 <= grid.index(row % (grid.height as int), col % (grid.width as int)) < grid.cells.len(),
{
    lemma_mod_bound(row, grid.height as int);
    lemma_mod_bound(col, grid.width as int);
    grid.lemma_index_in_range(row % (grid.height as int), col % (grid.width as int));
}

/// A grid without a live cell is a fixed point: after any number of steps it
/// is the same grid, still without a live cell.
pub proof fn lemma_dead_grid_is_fixed_point(grid: Grid, n: nat)
    requires
        grid.wf(),
        grid.all_dead(),
    ensures
        grid.steps(n) == grid,
        grid.steps(n).all_dead(),
    decreases n,
{
    if n > 0 {
        lemma_dead_grid_is_fixed_point(grid, (n - 1) as nat);
        assert forall|r: int, c: int| grid.live(r, c) == 0 by {
            lemma_wrapped_position(grid, r, c);
        }
        assert(grid.step().cells =~= grid.cells);
    }
}

/// Seeding is reproducible: two grids seeded for the same dimensions are the
/// same grid, cell `i` of either is alive exactly when `i` is a multiple of
/// two or of seven, and any two packed buffers of them agree on every cell's
/// bit.
pub proof fn lemma_seeding_is_reproducible(
    width: nat,
    height: nat,
    first: Grid,
    second: Grid,
    first_blocks: Seq<u32>,
    second_blocks: Seq<u32>,
)
    requires
        first == Grid::seeded(width, height),
        second == Grid::seeded(width, height),
        first.packed_in(first_blocks),
        second.packed_in(second_blocks),
    ensures
        first == second,
        first.cells.len() == width * height,
        forall|i: int|
            0 <= i < width * height ==> (#[trigger] first.cells[i] is Alive) == (i % 2 == 0 || i % 7
                == 0),
        first_blocks.len() == second_blocks.len(),
        forall|i: int|
            0 <= i < width * height ==> block_bit(#[trigger] first_blocks[i / 32], i % 32)
                == block_bit(second_blocks[i / 32], i % 32),
{
    assert forall|i: int| 0 <= i < width * height implies block_bit(
        #[trigger] first_blocks[i / 32],
        i % 32,
    ) == block_bit(second_blocks[i / 32], i % 32) by {
        assert((first.cells[i] is Alive) == block_bit(first_blocks[i / 32], i % 32));
        assert((second.cells[i] is Alive) == block_bit(second_blocks[i / 32], i % 32));
    }
}

/// A seeded grid of positive dimensions is well formed.
pub proof fn lemma_seeded_is_well_formed(width: nat, height: nat)
    requires
        width > 0,
        height > 0,
    ensures
        Grid::seeded(width, height).wf(),
{
}

/// The text and the packed buffer of a grid agree cell for cell: the glyph
/// that the text shows for a position is the filled square exactly when the
/// position's bit in the buffer is set, and the hollow square exactly when it
/// is clear. Each line of the text ends in a line break.
pub proof fn lemma_render_agrees_with_blocks(grid: Grid, blocks: Seq<u32>, row: int, col: int)
    requires
        grid.wf(),
        grid.contains(row, col),
        grid.packed_in(blocks),
    ensures
        grid.render().len() == grid.height * (grid.width + 1),
        0 <= row * (grid.width + 1) + col < grid.render().len(),
        0 <= grid.index(row, col) / 32 < blocks.len(),
        (grid.render()[row * (grid.width + 1) + col] == ALIVE_GLYPH) == block_bit(
            blocks[grid.index(row, col) / 32],
            grid.index(row, col) % 32,
        ),
        (grid.render()[row * (grid.width + 1) + col] == DEAD_GLYPH) == !block_bit(
            blocks[grid.index(row, col) / 32],
            grid.index(row, col) % 32,
        ),
        grid.render()[row * (grid.width + 1) + grid.width] == '\n',
{
    let line = (grid.width + 1) as int;
    assert(0 <= row * line + col < grid.height * line && row * line + grid.width < grid.height
        * line) by (nonlinear_arith)
        requires
            0 <= row < grid.height,
            0 <= col < grid.width,
            line == grid.width + 1,
    ;
    lemma_fundamental_div_mod_converse(row * line + col, line, row, col);
    lemma_fundamental_div_mod_converse(row * line + grid.width, line, row, grid.width as int);
    grid.lemma_index_in_range(row, col);
    let i = grid.index(row, col);
    assert((grid.cells[i] is Alive) == block_bit(blocks[i / 32], i % 32));
}

} // verus!
