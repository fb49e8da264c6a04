//! The state of a game and the rules that change it.

use vstd::prelude::*;
use crate::cell::{
    cell_at, cell_index, grid_index, in_grid, in_interior, lemma_cell_update,
    lemma_stone_cells_bound, lemma_stone_cells_update, on_border, player_cell, slot_of,
    stone_cells, within_reach, CellState, GAME_CELLS, GAME_HEIGHT, GAME_WIDTH,
};
use crate::player::{
    carried_stones, fresh_inventory, lemma_carried_at_least, lemma_carried_none,
    lemma_carried_update, Player, PlayerView,
};
use crate::terrain::{
    base_terrain, carve_around, carved_cell, generated_cell, generated_grid,
    lemma_occupant_stands, lemma_occupant_unique, marked_cell, NoiseMask,
};
use crate::text::{
    collected_message, collected_text, no_stones_message, no_stones_text, not_adjacent_message,
    not_adjacent_text, not_empty_message, not_empty_text, out_of_bounds_message,
    out_of_bounds_text, placed_message, placed_text,
};

verus! {

/// How many messages the debug log keeps.
pub const LOG_CAPACITY: usize = 10;

/// The whole state of a game: the players, the grid (row by row), the debug
/// log (oldest message first) and whether the debug panel is shown.
#[derive(Debug)]
pub struct GameState {
    players: Vec<Player>,
    grid: Vec<CellState>,
    debug_log: Vec<String>,
    debug_panel_enabled: bool,
}

/// A [`GameState`] as a mathematical value.
pub struct GameView {
    pub players: Seq<PlayerView>,
    pub grid: Seq<CellState>,
    pub debug_log: Seq<Seq<char>>,
    pub debug_panel_enabled: bool,
}

/// The players of a list as mathematical values, in order.
pub open spec fn players_view(players: Seq<Player>) -> Seq<PlayerView> {
    Seq::new(players.len(), |k: int| players[k]@)
}

/// The messages of a log as sequences of characters, in order.
pub open spec fn log_view(log: Seq<String>) -> Seq<Seq<char>> {
    Seq::new(log.len(), |k: int| log[k]@)
}

/// The log after `message` was added: at capacity the oldest message leaves
/// first.
pub open spec fn logged(log: Seq<Seq<char>>, message: Seq<char>) -> Seq<Seq<char>> {
    if log.len() >= LOG_CAPACITY {
        log.subrange(1, log.len() as int).push(message)
    } else {
        log.push(message)
    }
}

impl GameView {
    /// The cell at `(x, y)`.
    pub open spec fn cell(self, x: int, y: int) -> CellState {
        cell_at(self.grid, x, y)
    }

    /// How many stones there are in the game: those that lie on the grid
    /// and those that the players carry.
    pub open spec fn stones_in_play(self) -> nat {
        carried_stones(self.players) + stone_cells(self.grid)
    }

    /// What holds of every game: the grid is complete, its outer ring is
    /// wall and nothing inside the ring is; there is at least one player;
    /// each player stands inside the ring, has a stone counter, and its
    /// cell bears its mark; a cell that bears a player's mark is the cell
    /// where that player stands; the stones in the game are no more than
    /// the grid has cells; the log is within its capacity.
    pub open spec fn valid(self) -> bool {
        &&& self.grid.len() == GAME_CELLS
        &&& 1 <= self.players.len() <= usize::MAX
        &&& self.debug_log.len() <= LOG_CAPACITY
        &&& self.stones_in_play() <= GAME_CELLS
        &&& forall|k: int|
            0 <= k < self.players.len() ==> in_interior(
                (#[trigger] self.players[k]).x,
                self.players[k].y,
            ) && self.players[k].inventory.len() >= 1
        &&& forall|k: int|
            0 <= k < self.players.len() ==> cell_at(
                self.grid,
                (#[trigger] self.players[k]).x,
                self.players[k].y,
            ) == slot_of(k)
        &&& forall|x: int, y: int|
            on_border(x, y) ==> #[trigger] cell_at(self.grid, x, y) == CellState::Wall
        &&& forall|x: int, y: int|
            in_interior(x, y) ==> #[trigger] cell_at(self.grid, x, y) != CellState::Wall
        &&& forall|x: int, y: int|
            in_grid(x, y) ==> match #[trigger] cell_at(self.grid, x, y) {
                CellState::PlayerCell(k) => k < self.players.len()
                    && self.players[k as int].stands_at(x, y),
                _ => true,
            }
    }

    /// What laying out a map asks of a game: at least one player, each
    /// inside the wall ring, with a stone counter that stands at zero, no
    /// two of them on the same cell, and a log within its capacity. The
    /// grid may hold anything.
    pub open spec fn ready_for_terrain(self) -> bool {
        &&& 1 <= self.players.len() <= usize::MAX
        &&& self.debug_log.len() <= LOG_CAPACITY
        &&& forall|k: int|
            0 <= k < self.players.len() ==> in_interior(
                (#[trigger] self.players[k]).x,
                self.players[k].y,
            ) && self.players[k].inventory.len() >= 1 && self.players[k].stones() == 0
        &&& forall|i: int, j: int|
            0 <= i < j < self.players.len() ==> !(#[trigger] self.players[i]).stands_at(
                (#[trigger] self.players[j]).x,
                self.players[j].y,
            )
    }

    /// The game with a map laid out anew around the players, from the two
    /// masks.
    pub open spec fn with_terrain(self, water: Seq<bool>, stone: Seq<bool>) -> GameView {
        GameView {
            grid: generated_grid(self.players, water, stone),
            ..self
        }
    }

    /// The game after `message` was added to the log.
    pub open spec fn with_message(self, message: Seq<char>) -> GameView {
        GameView { debug_log: logged(self.debug_log, message), ..self }
    }

    /// The game after player `i` stepped from its cell onto `(x, y)`.
    pub open spec fn with_step(self, i: int, x: int, y: int) -> GameView {
        let p = self.players[i];
        GameView {
            players: self.players.update(i, p.moved_to(x, y)),
            grid: self.grid.update(cell_index(p.x, p.y), CellState::Empty).update(
                cell_index(x, y),
                slot_of(i),
            ),
            ..self
        }
    }

    /// The game after player `i`'s stone counter was set to `n`.
    pub open spec fn with_stones(self, i: int, n: nat) -> GameView {
        GameView { players: self.players.update(i, self.players[i].with_stones(n)), ..self }
    }

    /// The game after the cell at `(x, y)` was set to `cell`.
    pub open spec fn with_cell(self, x: int, y: int, cell: CellState) -> GameView {
        GameView { grid: self.grid.update(cell_index(x, y), cell), ..self }
    }
}

/// The game after player `i` was asked to step by `(dx, dy)`.
///
/// A step that would leave the inside of the wall ring changes nothing. A
/// step onto an empty cell moves the player. A step onto a stone moves the
/// player, adds the stone to what it carries and reports it in the log. A
/// step onto anything else (water, another player, the player's own cell)
/// changes nothing.
pub open spec fn move_result(v: GameView, dx: int, dy: int, i: int) -> GameView {
    let p = v.players[i];
    let x = p.x + dx;
    let y = p.y + dy;
    if !in_interior(x, y) {
        v
    } else if v.cell(x, y) == CellState::Empty {
        v.with_step(i, x, y)
    } else if v.cell(x, y) == CellState::Stone {
        v.with_step(i, x, y).with_stones(i, p.stones() + 1).with_message(
            collected_message((i + 1) as nat, p.stones() + 1),
        )
    } else {
        v
    }
}

/// Where a new game puts its two players: one near the upper left corner,
/// one near the lower right, both empty-handed.
pub open spec fn starting_players() -> Seq<PlayerView> {
    seq![
        PlayerView { player_id: 1, x: 2, y: 2, inventory: fresh_inventory() },
        PlayerView {
            player_id: 2,
            x: GAME_WIDTH - 3,
            y: GAME_HEIGHT - 3,
            inventory: fresh_inventory(),
        },
    ]
}

/// A new game on a map laid out from the two masks: the players on their
/// starting cells, an empty log, the debug panel hidden.
pub open spec fn initial_game(water: Seq<bool>, stone: Seq<bool>) -> GameView {
    (GameView {
        players: starting_players(),
        grid: Seq::empty(),
        debug_log: Seq::empty(),
        debug_panel_enabled: false,
    }).with_terrain(water, stone)
}

/// The game after a new map was asked for: each player keeps its place and
/// loses its stones, and the map is laid out anew around them.
pub open spec fn regenerate_result(v: GameView, water: Seq<bool>, stone: Seq<bool>) -> GameView {
    (GameView { players: empty_handed(v.players), ..v }).with_terrain(water, stone)
}

/// The game after player `i` was asked to place a stone at `(tx, ty)`.
///
/// Each refusal leaves one message and changes nothing else; they are tried
/// in this order: the target lies outside the grid; the target is not empty;
/// the player carries no stone; the target is out of the player's reach. A
/// placement puts a stone on the target, takes one from the player and
/// reports it in the log.
pub open spec fn place_result(v: GameView, tx: int, ty: int, i: int) -> GameView {
    let p = v.players[i];
    if !in_grid(tx, ty) {
        v.with_message(out_of_bounds_message(tx as nat, ty as nat))
    } else if v.cell(tx, ty) != CellState::Empty {
        v.with_message(not_empty_message(tx as nat, ty as nat))
    } else if p.stones() == 0 {
        v.with_message(no_stones_message((i + 1) as nat))
    } else if within_reach(p.x, p.y, tx, ty) {
        v.with_cell(tx, ty, CellState::Stone).with_stones(i, (p.stones() - 1) as nat).with_message(
            placed_message((i + 1) as nat, tx as nat, ty as nat),
        )
    } else {
        v.with_message(not_adjacent_message(tx as nat, ty as nat, (i + 1) as nat))
    }
}

/// The players of a game with their stone counters set to zero.
pub open spec fn empty_handed(players: Seq<PlayerView>) -> Seq<PlayerView> {
    Seq::new(players.len(), |k: int| players[k].with_stones(0))
}

/// A valid game whose players were relieved of their stones is ready for a
/// new map.
pub proof fn lemma_reset_ready(v: GameView)
    requires
        v.valid(),
    ensures
        (GameView { players: empty_handed(v.players), ..v }).ready_for_terrain(),
{
    let reset = empty_handed(v.players);
    assert forall|i: int, j: int|
        0 <= i < j < reset.len() implies !(#[trigger] reset[i]).stands_at(
        (#[trigger] reset[j]).x,
        reset[j].y,
    ) by {
        let p = v.players[i];
        let q = v.players[j];
        assert(cell_at(v.grid, p.x, p.y) == slot_of(i));
        assert(cell_at(v.grid, q.x, q.y) == slot_of(j));
    }
    assert forall|j: int| 0 <= j < reset.len() implies in_interior(
        (#[trigger] reset[j]).x,
        reset[j].y,
    ) && reset[j].inventory.len() >= 1 && reset[j].stones() == 0 by {
        let p = v.players[j];
        assert(in_interior(p.x, p.y));
    }
}

/// A map laid out around players that are ready for it makes a valid game.
pub proof fn lemma_laid_out_valid(v: GameView, water: Seq<bool>, stone: Seq<bool>)
    requires
        v.ready_for_terrain(),
    ensures
        v.with_terrain(water, stone).valid(),
        forall|x: int, y: int|
            in_grid(x, y) ==> #[trigger] cell_at(v.with_terrain(water, stone).grid, x, y)
                == generated_cell(v.players, water, stone, x, y),
{
    let g = v.with_terrain(water, stone);
    let n = v.players.len() as int;
    assert forall|x: int, y: int| in_grid(x, y) implies #[trigger] cell_at(g.grid, x, y)
        == generated_cell(v.players, water, stone, x, y) by {
        let i = cell_index(x, y);
        assert(i % (GAME_WIDTH as int) == x && i / (GAME_WIDTH as int) == y);
    }
    assert forall|x: int, y: int| in_grid(x, y) implies match #[trigger] cell_at(g.grid, x, y) {
        CellState::PlayerCell(k) => k < g.players.len() && g.players[k as int].stands_at(x, y),
        _ => true,
    } by {
        lemma_occupant_stands(v.players, n, x, y);
    }
    assert forall|x: int, y: int| on_border(x, y) implies #[trigger] cell_at(g.grid, x, y)
        == CellState::Wall by {
        lemma_occupant_stands(v.players, n, x, y);
    }
    assert forall|x: int, y: int| in_interior(x, y) implies #[trigger] cell_at(g.grid, x, y)
        != CellState::Wall by {
        lemma_occupant_stands(v.players, n, x, y);
    }
    assert forall|k: int| 0 <= k < g.players.len() implies cell_at(
        g.grid,
        (#[trigger] g.players[k]).x,
        g.players[k].y,
    ) == slot_of(k) by {
        lemma_occupant_unique(v.players, n, k);
    }
    lemma_carried_none(v.players);
    lemma_stone_cells_bound(g.grid);
}

impl View for GameState {
    type V = GameView;

    closed spec fn view(&self) -> GameView {
        GameView {
            players: players_view(self.players@),
            grid: self.grid@,
            debug_log: log_view(self.debug_log@),
            debug_panel_enabled: self.debug_panel_enabled,
        }
    }
}

impl GameState {
    /// The state is one that the rules can work on; see [`GameView::valid`].
    pub open spec fn wf(&self) -> bool {
        self@.valid()
    }

    /// Lays out a new map around the players: walls on the outer ring, water
    /// and stone where the masks mark them (water where both do), clear
    /// ground in the 3×3 block around each player, and each player's mark on
    /// its cell.
    fn generate_map(&mut self, water: &NoiseMask, stone: &NoiseMask)
        requires
            old(self)@.ready_for_terrain(),
        ensures
            final(self).wf(),
            final(self)@ == old(self)@.with_terrain(water@, stone@),
    {
        let ghost players = self@.players;
        let count = self.players.len();
        let mut grid = base_terrain(water, stone);
        let mut k: usize = 0;
        while k < count
            invariant
                k <= count,
                count == self.players.len(),
                self@ == old(self)@,
                players == self@.players,
                self@.ready_for_terrain(),
                grid@.len() == GAME_CELLS,
                forall|x: int, y: int|
                    in_grid(x, y) ==> #[trigger] cell_at(grid@, x, y) == carved_cell(
                        players,
                        k as int,
                        water@,
                        stone@,
                        x,
                        y,
                    ),
            decreases count - k,
        {
            let px = self.players[k].x;
            let py = self.players[k].y;
            assert(players[k as int].x == px && players[k as int].y == py);
            carve_around(&mut grid, px, py);
            k += 1;
        }
        k = 0;
        while k < count
            invariant
                k <= count,
                count == self.players.len(),
                self@ == old(self)@,
                players == self@.players,
                self@.ready_for_terrain(),
                grid@.len() == GAME_CELLS,
                forall|x: int, y: int|
                    in_grid(x, y) ==> #[trigger] cell_at(grid@, x, y) == marked_cell(
                        players,
                        k as int,
                        water@,
                        stone@,
                        x,
                        y,
                    ),
            decreases count - k,
        {
            let px = self.players[k].x;
            let py = self.players[k].y;
            assert(players[k as int].x == px && players[k as int].y == py);
            proof {
                lemma_cell_update(grid@, px as int, py as int, slot_of(k as int));
            }
            grid.set(grid_index(px, py), player_cell(k));
            k += 1;
        }
        proof {
            assert forall|i: int| 0 <= i < GAME_CELLS implies #[trigger] grid@[i]
                == generated_cell(
                players,
                water@,
                stone@,
                i % (GAME_WIDTH as int),
                i / (GAME_WIDTH as int),
            ) by {
                let x = i % (GAME_WIDTH as int);
                let y = i / (GAME_WIDTH as int);
                assert(grid@[i] == cell_at(grid@, x, y));
            }
            assert(grid@ =~= old(self)@.with_terrain(water@, stone@).grid);
            lemma_laid_out_valid(old(self)@, water@, stone@);
        }
        self.grid = grid;
    }

    /// Starts a game: the two players on their starting cells with nothing
    /// in hand, an empty log, the debug panel hidden, and a map laid out
    /// from the two masks.
    pub fn new(water: &NoiseMask, stone: &NoiseMask) -> (game: GameState)
        ensures
            game.wf(),
            game@ == initial_game(water@, stone@),
    {
        let mut players: Vec<Player> = Vec::new();
        players.push(Player::new(1, 2, 2));
        players.push(Player::new(2, GAME_WIDTH - 3, GAME_HEIGHT - 3));
        let mut game = GameState {
            players,
            grid: Vec::new(),
            debug_log: Vec::new(),
            debug_panel_enabled: false,
        };
        assert(game@.players =~= starting_players());
        assert(game@.debug_log =~= Seq::empty());
        game.generate_map(water, stone);
        game
    }

    /// Takes the stones from every player and lays out a new map around
    /// them, from the two masks. The players stay where they are; the log
    /// and the debug panel are left alone.
    pub fn regenerate_game_state(&mut self, water: &NoiseMask, stone: &NoiseMask)
        requires
            old(self).wf(),
        ensures
            final(self).wf(),
            final(self)@ == regenerate_result(old(self)@, water@, stone@),
    {
        let count = self.players.len();
        let mut k: usize = 0;
        while k < count
            invariant
                k <= count,
                count == self.players.len(),
                old(self).wf(),
                self@.players.len() == old(self)@.players.len(),
                self@.grid == old(self)@.grid,
                self@.debug_log == old(self)@.debug_log,
                self@.debug_panel_enabled == old(self)@.debug_panel_enabled,
                forall|j: int|
                    0 <= j < count ==> #[trigger] self@.players[j] == (if j < k {
                        old(self)@.players[j].with_stones(0)
                    } else {
                        old(self)@.players[j]
                    }),
            decreases count - k,
        {
            let ghost before = self@.players;
            assert(before[k as int] == old(self)@.players[k as int]);
            self.players[k].set_stone_count(0);
            assert(self@.players =~= before.update(k as int, before[k as int].with_stones(0)));
            k += 1;
        }
        proof {
            assert(self@.players =~= empty_handed(old(self)@.players));
            lemma_reset_ready(old(self)@);
        }
        self.generate_map(water, stone);
    }

    /// The players, in order.
    pub fn players(&self) -> (players: &Vec<Player>)
        ensures
            players_view(players@) == self@.players,
    {
        &self.players
    }

    /// The grid, row by row.
    pub fn grid(&self) -> (grid: &Vec<CellState>)
        ensures
            grid@ == self@.grid,
    {
        &self.grid
    }

    /// The cell at `(x, y)`, if that is a coordinate of the grid.
    pub fn cell(&self, x: usize, y: usize) -> (cell: Option<CellState>)
        requires
            self.wf(),
        ensures
            cell == (if in_grid(x as int, y as int) {
                Some(self@.cell(x as int, y as int))
            } else {
                None
            }),
    {
        if x < GAME_WIDTH && y < GAME_HEIGHT {
            Some(self.grid[grid_index(x, y)])
        } else {
            None
        }
    }

    /// The messages of the debug log, oldest first.
    pub fn debug_log(&self) -> (log: &Vec<String>)
        ensures
            log_view(log@) == self@.debug_log,
    {
        &self.debug_log
    }

    /// Whether the debug panel is shown.
    pub fn debug_panel_enabled(&self) -> (enabled: bool)
        ensures
            enabled == self@.debug_panel_enabled,
    {
        self.debug_panel_enabled
    }

    /// Adds a message to the debug log; at capacity the oldest one leaves
    /// first.
    pub fn log_debug_message(&mut self, message: String)
        requires
            old(self).wf(),
        ensures
            final(self).wf(),
            final(self)@ == old(self)@.with_message(message@),
    {
        if self.debug_log.len() >= LOG_CAPACITY {
            self.debug_log.remove(0);
        }
        self.debug_log.push(message);
        assert(self@.debug_log =~= logged(old(self)@.debug_log, message@));
    }

    /// Empties the debug log.
    pub fn clear_debug_log(&mut self)
        requires
            old(self).wf(),
        ensures
            final(self).wf(),
            final(self)@ == (GameView { debug_log: Seq::empty(), ..old(self)@ }),
    {
        self.debug_log.clear();
        assert(self@.debug_log =~= Seq::empty());
    }

    /// Shows the debug panel if it was hidden and hides it if it was shown.
    pub fn toggle_debug_panel(&mut self)
        requires
            old(self).wf(),
        ensures
            final(self).wf(),
            final(self)@ == (GameView {
                debug_panel_enabled: !old(self)@.debug_panel_enabled,
                ..old(self)@
            }),
    {
        self.debug_panel_enabled = !self.debug_panel_enabled;
    }

    /// Asks the player with index `player_index` to step by `(dx, dy)`.
    pub fn move_player(&mut self, dx: i32, dy: i32, player_index: usize)
        requires
            old(self).wf(),
            player_index < old(self)@.players.len(),
        ensures
            final(self).wf(),
            final(self)@ == move_result(
                old(self)@,
                dx as int,
                dy as int,
                player_index as int,
            ),
    {
        let x = self.players[player_index].x;
        let y = self.players[player_index].y;
        let sx: i64 = x as i64 + dx as i64;
        let sy: i64 = y as i64 + dy as i64;
        if sx > 0 && sy > 0 && sx < GAME_WIDTH as i64 - 1 && sy < GAME_HEIGHT as i64 - 1 {
            let new_x = sx as usize;
            let new_y = sy as usize;
            let target = self.grid[grid_index(new_x, new_y)];
            match target {
                CellState::Empty => {
                    self.step_onto(player_index, new_x, new_y);
                },
                CellState::Stone => {
                    self.step_onto(player_index, new_x, new_y);
                    proof {
                        lemma_carried_at_least(self@.players, player_index as int);
                    }
                    let ghost stepped = self@.players;
                    let total = self.players[player_index].stone_count() + 1;
                    self.players[player_index].set_stone_count(total);
                    proof {
                        let richer = stepped[player_index as int].with_stones(total as nat);
                        lemma_carried_update(stepped, player_index as int, richer);
                        assert(self@.players =~= stepped.update(player_index as int, richer));
                    }
                    assert(self@.players =~= old(self)@.with_step(
                        player_index as int,
                        new_x as int,
                        new_y as int,
                    ).with_stones(player_index as int, total as nat).players);
                    self.log_debug_message(collected_text(player_index + 1, total));
                },
                _ => {},
            }
        }
    }

    /// Clears the cell the player stands on, marks `(x, y)` as the player's
    /// and records the new position.
    fn step_onto(&mut self, player_index: usize, x: usize, y: usize)
        requires
            old(self).wf(),
            player_index < old(self)@.players.len(),
            in_interior(x as int, y as int),
            old(self)@.cell(x as int, y as int) == CellState::Empty || old(self)@.cell(
                x as int,
                y as int,
            ) == CellState::Stone,
        ensures
            final(self).wf(),
            final(self)@ == old(self)@.with_step(player_index as int, x as int, y as int),
            stone_cells(final(self)@.grid) + (if old(self)@.cell(x as int, y as int)
                == CellState::Stone {
                1nat
            } else {
                0nat
            }) == stone_cells(old(self)@.grid),
            carried_stones(final(self)@.players) == carried_stones(old(self)@.players),
    {
        assert(in_interior(
            self@.players[player_index as int].x,
            self@.players[player_index as int].y,
        ));
        let from = grid_index(self.players[player_index].x, self.players[player_index].y);
        let to = grid_index(x, y);
        proof {
            let p = old(self)@.players[player_index as int];
            let cleared = old(self)@.grid.update(from as int, CellState::Empty);
            lemma_cell_update(old(self)@.grid, p.x, p.y, CellState::Empty);
            lemma_cell_update(cleared, x as int, y as int, slot_of(player_index as int));
            assert(cell_at(old(self)@.grid, p.x, p.y) == slot_of(player_index as int));
            lemma_stone_cells_update(old(self)@.grid, from as int, CellState::Empty);
            lemma_stone_cells_update(cleared, to as int, slot_of(player_index as int));
            lemma_carried_update(
                old(self)@.players,
                player_index as int,
                p.moved_to(x as int, y as int),
            );
        }
        self.grid.set(from, CellState::Empty);
        self.grid.set(to, player_cell(player_index));
        self.players[player_index].set_position(x, y);
        assert(self@.players =~= old(self)@.with_step(
            player_index as int,
            x as int,
            y as int,
        ).players);
    }

    /// Asks the player with index `player_index` to place a stone at
    /// `(tx, ty)`.
    pub fn place_stone(&mut self, tx: usize, ty: usize, player_index: usize)
        requires
            old(self).wf(),
            player_index < old(self)@.players.len(),
        ensures
            final(self).wf(),
            final(self)@ == place_result(old(self)@, tx as int, ty as int, player_index as int),
    {
        let x = self.players[player_index].x;
        let y = self.players[player_index].y;
        if tx >= GAME_WIDTH || ty >= GAME_HEIGHT {
            self.log_debug_message(out_of_bounds_text(tx, ty));
            return ;
        }
        let target = grid_index(tx, ty);
        if self.grid[target] != CellState::Empty {
            self.log_debug_message(not_empty_text(tx, ty));
            return ;
        }
        assert(self@.players[player_index as int].inventory.len() >= 1);
        let carried = self.players[player_index].stone_count();
        if carried == 0 {
            self.log_debug_message(no_stones_text(player_index + 1));
            return ;
        }
        if tx + 1 >= x && tx <= x + 1 && ty + 1 >= y && ty <= y + 1 {
            proof {
                lemma_cell_update(old(self)@.grid, tx as int, ty as int, CellState::Stone);
                lemma_stone_cells_update(old(self)@.grid, target as int, CellState::Stone);
                lemma_carried_update(
                    old(self)@.players,
                    player_index as int,
                    old(self)@.players[player_index as int].with_stones((carried - 1) as nat),
                );
            }
            self.grid.set(target, CellState::Stone);
            self.players[player_index].set_stone_count(carried - 1);
            assert(self@.players =~= old(self)@.with_stones(
                player_index as int,
                (carried - 1) as nat,
            ).players);
            self.log_debug_message(placed_text(player_index + 1, tx, ty));
        } else {
            self.log_debug_message(not_adjacent_text(tx, ty, player_index + 1));
        }
    }
}

} // verus!
