//! The grid's dimensions, what a cell can hold, and where a coordinate lies.

use vstd::prelude::*;

verus! {

/// Number of columns of the grid.
pub const GAME_WIDTH: usize = 60;

/// Number of rows of the grid.
pub const GAME_HEIGHT: usize = 30;

/// Number of cells of the grid.
pub const GAME_CELLS: usize = 1800;

/// What occupies one coordinate of the grid.
#[derive(Debug, Clone, Copy, PartialEq, Eq, Structural)]
pub enum CellState {
    /// Nothing.
    Empty,
    /// The player with this index stands here.
    PlayerCell(usize),
    /// A stone that a player can collect.
    Stone,
    /// Water, which no player can enter.
    Water,
    /// The wall around the grid.
    Wall,
}

/// `(x, y)` is a coordinate of the grid.
pub open spec fn in_grid(x: int, y: int) -> bool {
    0 <= x < GAME_WIDTH && 0 <= y < GAME_HEIGHT
}

/// `(x, y)` is a coordinate of the grid that is not on its outer ring.
pub open spec fn in_interior(x: int, y: int) -> bool {
    1 <= x < GAME_WIDTH - 1 && 1 <= y < GAME_HEIGHT - 1
}

/// `(x, y)` lies on the outer ring of the grid.
pub open spec fn on_border(x: int, y: int) -> bool {
    in_grid(x, y) && !in_interior(x, y)
}

/// Position of `(x, y)` in the row-major sequence of cells.
pub open spec fn cell_index(x: int, y: int) -> int {
    y * GAME_WIDTH + x
}

/// The cell at `(x, y)` of a row-major grid.
pub open spec fn cell_at(grid: Seq<CellState>, x: int, y: int) -> CellState {
    grid[cell_index(x, y)]
}

/// `(x, y)` is within one step of `(cx, cy)` along both axes: it lies in the
/// 3×3 block centred on `(cx, cy)`.
pub open spec fn within_reach(cx: int, cy: int, x: int, y: int) -> bool {
    -1 <= x - cx <= 1 && -1 <= y - cy <= 1
}

/// Writing one cell of a grid changes that cell and no other.
pub proof fn lemma_cell_update(grid: Seq<CellState>, cx: int, cy: int, cell: CellState)
    requires
        grid.len() == GAME_CELLS,
        in_grid(cx, cy),
    ensures
        forall|x: int, y: int|
            in_grid(x, y) ==> #[trigger] cell_at(grid.update(cell_index(cx, cy), cell), x, y)
                == (if x == cx && y == cy {
                cell
            } else {
                cell_at(grid, x, y)
            }),
{
}

/// How many cells of a grid hold a stone.
pub open spec fn stone_cells(grid: Seq<CellState>) -> nat
    decreases grid.len(),
{
    if grid.len() == 0 {
        0
    } else {
        stone_cells(grid.drop_last()) + if grid.last() == CellState::Stone {
            1nat
        } else {
            0nat
        }
    }
}

/// A grid holds no more stones than it has cells.
pub proof fn lemma_stone_cells_bound(grid: Seq<CellState>)
    ensures
        stone_cells(grid) <= grid.len(),
    decreases grid.len(),
{
    if grid.len() > 0 {
        lemma_stone_cells_bound(grid.drop_last());
    }
}

/// Writing one cell changes the number of stones by what left the cell and
/// what came into it.
pub proof fn lemma_stone_cells_update(grid: Seq<CellState>, i: int, cell: CellState)
    requires
        0 <= i < grid.len(),
    ensures
        stone_cells(grid.update(i, cell)) + (if grid[i] == CellState::Stone {
            1nat
        } else {
            0nat
        }) == stone_cells(grid) + (if cell == CellState::Stone {
            1nat
        } else {
            0nat
        }),
    decreases grid.len(),
{
    let written = grid.update(i, cell);
    if i == grid.len() - 1 {
        assert(written.drop_last() =~= grid.drop_last());
    } else {
        assert(written.drop_last() =~= grid.drop_last().update(i, cell));
        lemma_stone_cells_update(grid.drop_last(), i, cell);
    }
}

/// The cell that marks the player with the given index.
pub open spec fn slot_of(player_index: int) -> CellState {
    CellState::PlayerCell(player_index as usize)
}

/// The cell that marks the player with the given index.
pub fn player_cell(player_index: usize) -> (cell: CellState)
    ensures
        cell == slot_of(player_index as int),
{
    CellState::PlayerCell(player_index)
}

/// Row-major position of a coordinate of the grid.
pub fn grid_index(x: usize, y: usize) -> (i: usize)
    requires
        in_grid(x as int, y as int),
    ensures
        i == cell_index(x as int, y as int),
        i < GAME_CELLS,
{
    y * GAME_WIDTH + x
}

} // verus!
