//! Laying out terrain: which cells two noise fields turn into water and
//! stone, and the ground that is cleared around a player.

use vstd::prelude::*;
use crate::cell::{
    cell_at, cell_index, grid_index, in_grid, in_interior, lemma_cell_update, slot_of,
    within_reach, CellState, GAME_CELLS, GAME_HEIGHT, GAME_WIDTH,
};
use crate::player::PlayerView;

verus! {

/// The seeds of the two noise fields from which a map is laid out.
#[derive(Debug, Clone, Copy)]
pub struct NoiseSeeds {
    pub water: u32,
    pub stone: u32,
}

/// Calls `rand::random::<u32>()`, which hands out a number from the
/// thread's random generator. Nothing is claimed of the number.
#[verifier::external_body]
fn random_seed() -> u32 {
    rand::random::<u32>()
}

/// Draws a seed for each of the two noise fields, one after the other, from
/// the random generator. Any two numbers may come back, so nothing is
/// promised of them.
pub fn draw_noise_seeds() -> NoiseSeeds {
    let water = random_seed();
    let stone = random_seed();
    NoiseSeeds { water, stone }
}

/// Where a noise field rises above its threshold: one flag per cell, row by
/// row. A cell that the flags do not reach counts as not marked.
#[derive(Debug)]
pub struct NoiseMask {
    hits: Vec<bool>,
}

impl View for NoiseMask {
    type V = Seq<bool>;

    closed spec fn view(&self) -> Seq<bool> {
        self.hits@
    }
}

/// The mask marks the cell at `(x, y)`.
pub open spec fn mask_hit(mask: Seq<bool>, x: int, y: int) -> bool {
    in_grid(x, y) && cell_index(x, y) < mask.len() && mask[cell_index(x, y)]
}

impl NoiseMask {
    /// A mask from one flag per cell, row by row.
    pub fn from_hits(hits: Vec<bool>) -> (mask: NoiseMask)
        ensures
            mask@ == hits@,
    {
        NoiseMask { hits }
    }

    /// A mask that covers the grid and marks no cell.
    pub fn blank() -> (mask: NoiseMask)
        ensures
            mask@ == Seq::new(GAME_CELLS as nat, |i: int| false),
    {
        let mut hits: Vec<bool> = Vec::new();
        let mut i: usize = 0;
        while i < GAME_CELLS
            invariant
                i <= GAME_CELLS,
                hits@ == Seq::new(i as nat, |k: int| false),
            decreases GAME_CELLS - i,
        {
            hits.push(false);
            i += 1;
            assert(hits@ =~= Seq::new(i as nat, |k: int| false));
        }
        NoiseMask { hits }
    }

    /// Whether the mask marks the cell at `(x, y)`.
    pub fn is_marked(&self, x: usize, y: usize) -> (hit: bool)
        ensures
            hit == mask_hit(self@, x as int, y as int),
    {
        if x < GAME_WIDTH && y < GAME_HEIGHT {
            let i = grid_index(x, y);
            i < self.hits.len() && self.hits[i]
        } else {
            false
        }
    }
}

/// The terrain at `(x, y)` before any player is considered: wall on the
/// outer ring; inside it water where the water mask marks the cell, else
/// stone where the stone mask does, else nothing.
pub open spec fn terrain_cell(water: Seq<bool>, stone: Seq<bool>, x: int, y: int) -> CellState {
    if !in_interior(x, y) {
        CellState::Wall
    } else if mask_hit(water, x, y) {
        CellState::Water
    } else if mask_hit(stone, x, y) {
        CellState::Stone
    } else {
        CellState::Empty
    }
}

/// Whether `(x, y)` lies in the 3×3 block around one of the first `n`
/// players.
pub open spec fn in_clearing(players: Seq<PlayerView>, n: int, x: int, y: int) -> bool
    decreases n,
{
    n > 0 && (players[n - 1].reaches(x, y) || in_clearing(players, n - 1, x, y))
}

/// The index of the one among the first `n` players that stands at
/// `(x, y)`, if there is one; of the last such player, should several stand
/// there.
pub open spec fn occupant(players: Seq<PlayerView>, n: int, x: int, y: int) -> Option<int>
    decreases n,
{
    if n <= 0 {
        None
    } else if players[n - 1].stands_at(x, y) {
        Some(n - 1)
    } else {
        occupant(players, n - 1, x, y)
    }
}

/// The cell at `(x, y)` after the ground around the first `n` players was
/// cleared: nothing on the cells inside the wall ring that lie in the 3×3
/// block around one of them; elsewhere the terrain.
pub open spec fn carved_cell(
    players: Seq<PlayerView>,
    n: int,
    water: Seq<bool>,
    stone: Seq<bool>,
    x: int,
    y: int,
) -> CellState {
    if in_interior(x, y) && in_clearing(players, n, x, y) {
        CellState::Empty
    } else {
        terrain_cell(water, stone, x, y)
    }
}

/// The cell at `(x, y)` after the ground around all players was cleared and
/// the first `n` of them were marked on the grid.
pub open spec fn marked_cell(
    players: Seq<PlayerView>,
    n: int,
    water: Seq<bool>,
    stone: Seq<bool>,
    x: int,
    y: int,
) -> CellState {
    match occupant(players, n, x, y) {
        Some(k) => slot_of(k),
        None => carved_cell(players, players.len() as int, water, stone, x, y),
    }
}

/// The cell at `(x, y)` of a map laid out for the given players: the
/// player's mark where one stands; nothing on the cells inside the wall
/// ring that lie in the 3×3 block around a player; elsewhere the terrain.
pub open spec fn generated_cell(
    players: Seq<PlayerView>,
    water: Seq<bool>,
    stone: Seq<bool>,
    x: int,
    y: int,
) -> CellState {
    marked_cell(players, players.len() as int, water, stone, x, y)
}

/// The whole map laid out for the given players, row by row.
pub open spec fn generated_grid(
    players: Seq<PlayerView>,
    water: Seq<bool>,
    stone: Seq<bool>,
) -> Seq<CellState> {
    Seq::new(
        GAME_CELLS as nat,
        |i: int|
            generated_cell(players, water, stone, i % (GAME_WIDTH as int), i / (GAME_WIDTH as int)),
    )
}

/// A cell lies in the clearing of the first `n` players exactly if it lies
/// in the 3×3 block around one of them.
pub proof fn lemma_in_clearing(players: Seq<PlayerView>, n: int, x: int, y: int)
    requires
        0 <= n <= players.len(),
    ensures
        in_clearing(players, n, x, y) <==> exists|k: int|
            0 <= k < n && (#[trigger] players[k]).reaches(x, y),
    decreases n,
{
    if n > 0 {
        lemma_in_clearing(players, n - 1, x, y);
        if in_clearing(players, n, x, y) {
            if players[n - 1].reaches(x, y) {
            } else {
                let k = choose|k: int| 0 <= k < n - 1 && (#[trigger] players[k]).reaches(x, y);
                assert(players[k].reaches(x, y));
            }
        }
    }
}

/// Where one of the first `n` players is said to stand at a cell, that
/// player does stand there.
pub proof fn lemma_occupant_stands(players: Seq<PlayerView>, n: int, x: int, y: int)
    requires
        0 <= n <= players.len(),
    ensures
        match occupant(players, n, x, y) {
            Some(k) => 0 <= k < n && players[k].stands_at(x, y),
            None => forall|k: int| 0 <= k < n ==> !(#[trigger] players[k]).stands_at(x, y),
        },
    decreases n,
{
    if n > 0 {
        lemma_occupant_stands(players, n - 1, x, y);
    }
}

/// Where no two players share a cell, the one that stands at a cell is the
/// one said to stand there.
pub proof fn lemma_occupant_unique(players: Seq<PlayerView>, n: int, k: int)
    requires
        0 <= k < n <= players.len(),
        forall|i: int, j: int|
            0 <= i < j < players.len() ==> !(#[trigger] players[i]).stands_at(
                (#[trigger] players[j]).x,
                players[j].y,
            ),
    ensures
        occupant(players, n, players[k].x, players[k].y) == Some(k),
    decreases n,
{
    if k < n - 1 {
        assert(!players[k].stands_at(players[n - 1].x, players[n - 1].y));
        lemma_occupant_unique(players, n - 1, k);
    }
}

/// Lays out walls, water and stone over a whole grid; where both masks mark
/// a cell it becomes water.
pub fn base_terrain(water: &NoiseMask, stone: &NoiseMask) -> (grid: Vec<CellState>)
    ensures
        grid@.len() == GAME_CELLS,
        forall|x: int, y: int|
            in_grid(x, y) ==> #[trigger] cell_at(grid@, x, y) == terrain_cell(water@, stone@, x, y),
{
    let mut grid: Vec<CellState> = Vec::new();
    let mut y: usize = 0;
    while y < GAME_HEIGHT
        invariant
            y <= GAME_HEIGHT,
            grid@.len() == y * GAME_WIDTH,
            forall|i: int|
                0 <= i < grid@.len() ==> #[trigger] grid@[i] == terrain_cell(
                    water@,
                    stone@,
                    i % (GAME_WIDTH as int),
                    i / (GAME_WIDTH as int),
                ),
        decreases GAME_HEIGHT - y,
    {
        let mut x: usize = 0;
        while x < GAME_WIDTH
            invariant
                y < GAME_HEIGHT,
                x <= GAME_WIDTH,
                grid@.len() == y * GAME_WIDTH + x,
                forall|i: int|
                    0 <= i < grid@.len() ==> #[trigger] grid@[i] == terrain_cell(
                        water@,
                        stone@,
                        i % (GAME_WIDTH as int),
                        i / (GAME_WIDTH as int),
                    ),
            decreases GAME_WIDTH - x,
        {
            let cell = if x == 0 || y == 0 || x == GAME_WIDTH - 1 || y == GAME_HEIGHT - 1 {
                CellState::Wall
            } else if water.is_marked(x, y) {
                CellState::Water
            } else if stone.is_marked(x, y) {
                CellState::Stone
            } else {
                CellState::Empty
            };
            assert((y * GAME_WIDTH + x) % (GAME_WIDTH as int) == x && (y * GAME_WIDTH + x) / (
                GAME_WIDTH as int) == y);
            grid.push(cell);
            x += 1;
        }
        y += 1;
    }
    assert forall|x: int, y: int| in_grid(x, y) implies #[trigger] cell_at(grid@, x, y)
        == terrain_cell(water@, stone@, x, y) by {
        let i = cell_index(x, y);
        assert(i % (GAME_WIDTH as int) == x && i / (GAME_WIDTH as int) == y);
    }
    grid
}

/// Clears the cells inside the wall ring that lie in the 3×3 block around
/// `(px, py)`.
pub fn carve_around(grid: &mut Vec<CellState>, px: usize, py: usize)
    requires
        old(grid)@.len() == GAME_CELLS,
        in_interior(px as int, py as int),
    ensures
        final(grid)@.len() == GAME_CELLS,
        forall|x: int, y: int|
            in_grid(x, y) ==> #[trigger] cell_at(final(grid)@, x, y) == (if in_interior(x, y)
                && within_reach(px as int, py as int, x, y) {
                CellState::Empty
            } else {
                cell_at(old(grid)@, x, y)
            }),
{
    let mut dy: usize = 0;
    while dy < 3
        invariant
            dy <= 3,
            grid@.len() == GAME_CELLS,
            in_interior(px as int, py as int),
            forall|x: int, y: int|
                in_grid(x, y) ==> #[trigger] cell_at(grid@, x, y) == (if in_interior(x, y)
                    && within_reach(px as int, py as int, x, y) && y < py - 1 + dy {
                    CellState::Empty
                } else {
                    cell_at(old(grid)@, x, y)
                }),
        decreases 3 - dy,
    {
        let ny = py + dy - 1;
        let mut dx: usize = 0;
        while dx < 3
            invariant
                dx <= 3,
                dy < 3,
                ny == py + dy - 1,
                grid@.len() == GAME_CELLS,
                in_interior(px as int, py as int),
                forall|x: int, y: int|
                    in_grid(x, y) ==> #[trigger] cell_at(grid@, x, y) == (if in_interior(x, y)
                        && within_reach(px as int, py as int, x, y) && (y < ny || (y == ny && x < px
                        - 1 + dx)) {
                        CellState::Empty
                    } else {
                        cell_at(old(grid)@, x, y)
                    }),
            decreases 3 - dx,
        {
            let nx = px + dx - 1;
            if ny > 0 && ny < GAME_HEIGHT - 1 && nx > 0 && nx < GAME_WIDTH - 1 {
                proof {
                    lemma_cell_update(grid@, nx as int, ny as int, CellState::Empty);
                }
                grid.set(grid_index(nx, ny), CellState::Empty);
            }
            dx += 1;
        }
        dy += 1;
    }
}

} // verus!
