//! What follows from the rules: facts about laid-out maps, steps, placements
//! and the debug log, each proved from the definitions of the results.

use vstd::prelude::*;
use crate::cell::{
    cell_at, cell_index, in_grid, in_interior, lemma_cell_update, lemma_stone_cells_update,
    on_border, slot_of, CellState,
};
use crate::game::{
    empty_handed, initial_game, lemma_laid_out_valid, lemma_reset_ready, logged, move_result,
    place_result, regenerate_result, starting_players, GameView, LOG_CAPACITY,
};
use crate::player::lemma_carried_update;
use crate::terrain::{
    generated_cell, lemma_in_clearing, lemma_occupant_stands, lemma_occupant_unique, occupant,
};
use crate::text::{
    collected_message, no_stones_message, not_adjacent_message, not_empty_message,
    out_of_bounds_message, placed_message,
};

verus! {

/// The part of the 3×3 block around player `k` that lies inside the wall
/// ring holds no water, stone or wall: each of its cells is empty or bears
/// a player's mark.
pub open spec fn cleared_inside_ring(v: GameView, k: int) -> bool {
    forall|x: int, y: int|
        in_interior(x, y) && v.players[k].reaches(x, y) ==> #[trigger] v.cell(x, y)
            == CellState::Empty || v.cell(x, y) is PlayerCell
}

/// The whole 3×3 block around player `k` holds no water, stone or wall, and
/// one player's mark only: the player's own, in the middle.
pub open spec fn cleared_block(v: GameView, k: int) -> bool {
    forall|x: int, y: int|
        v.players[k].reaches(x, y) ==> #[trigger] v.cell(x, y) == (if v.players[k].stands_at(
            x,
            y,
        ) {
            slot_of(k)
        } else {
            CellState::Empty
        })
}

/// Player `k` stands at least two cells from the edge of the grid, so that
/// the 3×3 block around it lies inside the wall ring.
pub open spec fn block_inside_ring(v: GameView, k: int) -> bool {
    in_interior(v.players[k].x - 1, v.players[k].y - 1) && in_interior(
        v.players[k].x + 1,
        v.players[k].y + 1,
    )
}

/// No other player stands in the 3×3 block around player `k`.
pub open spec fn stands_apart(v: GameView, k: int) -> bool {
    forall|j: int|
        0 <= j < v.players.len() && j != k ==> !v.players[k].reaches(
            (#[trigger] v.players[j]).x,
            v.players[j].y,
        )
}

/// A laid-out map makes a valid game, so that a cell bears a player's mark
/// exactly where that player stands. It has wall on every cell of its outer
/// ring, and around each player, inside the ring, no water, stone or wall.
pub proof fn law_laid_out_map(v: GameView, water: Seq<bool>, stone: Seq<bool>)
    requires
        v.ready_for_terrain(),
    ensures
        v.with_terrain(water, stone).valid(),
        forall|x: int, y: int|
            on_border(x, y) ==> #[trigger] v.with_terrain(water, stone).cell(x, y)
                == CellState::Wall,
        forall|k: int|
            0 <= k < v.players.len() ==> #[trigger] cleared_inside_ring(
                v.with_terrain(water, stone),
                k,
            ),
{
    let g = v.with_terrain(water, stone);
    let n = v.players.len() as int;
    lemma_laid_out_valid(v, water, stone);
    assert forall|k: int| 0 <= k < v.players.len() implies #[trigger] cleared_inside_ring(
        g,
        k,
    ) by {
        assert forall|x: int, y: int|
            in_interior(x, y) && g.players[k].reaches(x, y) implies #[trigger] g.cell(x, y)
            == CellState::Empty || g.cell(x, y) is PlayerCell by {
            lemma_in_clearing(v.players, n, x, y);
            assert(v.players[k].reaches(x, y));
            assert(cell_at(g.grid, x, y) == generated_cell(
                v.players,
                water,
                stone,
                x,
                y,
            ));
        }
    }
}

/// Where a player stands at least two cells from the edge and no other
/// player stands in the 3×3 block around it, that whole block is clear on a
/// laid-out map, but for the player's own mark in the middle.
pub proof fn law_laid_out_block(v: GameView, water: Seq<bool>, stone: Seq<bool>, k: int)
    requires
        v.ready_for_terrain(),
        0 <= k < v.players.len(),
        block_inside_ring(v, k),
        stands_apart(v, k),
    ensures
        cleared_block(v.with_terrain(water, stone), k),
{
    let g = v.with_terrain(water, stone);
    let n = v.players.len() as int;
    lemma_laid_out_valid(v, water, stone);
    assert forall|x: int, y: int| g.players[k].reaches(x, y) implies #[trigger] g.cell(x, y)
        == (if g.players[k].stands_at(x, y) {
        slot_of(k)
    } else {
        CellState::Empty
    }) by {
        assert(in_interior(x, y));
        assert(cell_at(g.grid, x, y) == generated_cell(
            v.players,
            water,
            stone,
            x,
            y,
        ));
        lemma_in_clearing(v.players, n, x, y);
        assert(v.players[k].reaches(x, y));
        lemma_occupant_stands(v.players, n, x, y);
        if v.players[k].stands_at(x, y) {
            lemma_occupant_unique(v.players, n, k);
        } else {
            match occupant(v.players, n, x, y) {
                Some(j) => {
                    assert(v.players[j].stands_at(x, y));
                    assert(j != k);
                    assert(!v.players[k].reaches(v.players[j].x, v.players[j].y));
                },
                None => {},
            }
        }
    }
}

/// A new game is valid, has wall on every cell of its outer ring, and the
/// whole 3×3 block around each of its two players is clear but for the
/// player's own mark.
pub proof fn law_new_game(water: Seq<bool>, stone: Seq<bool>)
    ensures
        initial_game(water, stone).valid(),
        initial_game(water, stone).players == starting_players(),
        forall|x: int, y: int|
            on_border(x, y) ==> #[trigger] initial_game(water, stone).cell(x, y)
                == CellState::Wall,
        cleared_block(initial_game(water, stone), 0),
        cleared_block(initial_game(water, stone), 1),
{
    let v = GameView {
        players: starting_players(),
        grid: Seq::empty(),
        debug_log: Seq::empty(),
        debug_panel_enabled: false,
    };
    assert(v.players[0].stones() == 0 && v.players[1].stones() == 0);
    assert(v.ready_for_terrain());
    assert(stands_apart(v, 0));
    assert(stands_apart(v, 1));
    law_laid_out_map(v, water, stone);
    law_laid_out_block(v, water, stone, 0);
    law_laid_out_block(v, water, stone, 1);
}

/// No two players of a game stand on the same cell.
pub proof fn law_players_on_different_cells(v: GameView, i: int, j: int)
    requires
        v.valid(),
        0 <= i < j < v.players.len(),
    ensures
        !v.players[i].stands_at(v.players[j].x, v.players[j].y),
{
    assert(cell_at(v.grid, v.players[i].x, v.players[i].y) == slot_of(i));
    assert(cell_at(v.grid, v.players[j].x, v.players[j].y) == slot_of(j));
}

/// Asking for a new map keeps each player's place and id, empties its stone
/// counter and leaves its other counters alone; the log and the debug panel
/// stay as they are; and the new map makes a valid game, with wall on its
/// outer ring and no water, stone or wall around each player inside the
/// ring.
pub proof fn law_regenerate(v: GameView, water: Seq<bool>, stone: Seq<bool>)
    requires
        v.valid(),
    ensures
        regenerate_result(v, water, stone).valid(),
        regenerate_result(v, water, stone).players.len() == v.players.len(),
        forall|k: int|
            0 <= k < v.players.len() ==> {
                let p = v.players[k];
                let q = #[trigger] regenerate_result(v, water, stone).players[k];
                &&& q.x == p.x
                &&& q.y == p.y
                &&& q.player_id == p.player_id
                &&& q.stones() == 0
                &&& q.inventory.len() == p.inventory.len()
                &&& q.inventory[0].item_name == p.inventory[0].item_name
                &&& q.inventory[0].item_id == p.inventory[0].item_id
                &&& forall|j: int| 1 <= j < p.inventory.len() ==> q.inventory[j] == p.inventory[j]
            },
        regenerate_result(v, water, stone).debug_log == v.debug_log,
        regenerate_result(v, water, stone).debug_panel_enabled == v.debug_panel_enabled,
        forall|x: int, y: int|
            on_border(x, y) ==> #[trigger] regenerate_result(v, water, stone).cell(x, y)
                == CellState::Wall,
        forall|k: int|
            0 <= k < v.players.len() ==> #[trigger] cleared_inside_ring(
                regenerate_result(v, water, stone),
                k,
            ),
{
    let reset = GameView { players: empty_handed(v.players), ..v };
    lemma_reset_ready(v);
    law_laid_out_map(reset, water, stone);
}

/// Where a player stands at least two cells from the edge and no other
/// player stands in the 3×3 block around it, a new map leaves that whole
/// block clear but for the player's own mark.
pub proof fn law_regenerate_block(v: GameView, water: Seq<bool>, stone: Seq<bool>, k: int)
    requires
        v.valid(),
        0 <= k < v.players.len(),
        block_inside_ring(v, k),
        stands_apart(v, k),
    ensures
        cleared_block(regenerate_result(v, water, stone), k),
{
    let reset = GameView { players: empty_handed(v.players), ..v };
    lemma_reset_ready(v);
    assert(stands_apart(reset, k)) by {
        assert forall|j: int|
            0 <= j < reset.players.len() && j != k implies !reset.players[k].reaches(
            (#[trigger] reset.players[j]).x,
            reset.players[j].y,
        ) by {
            assert(!v.players[k].reaches(v.players[j].x, v.players[j].y));
        }
    }
    law_laid_out_block(reset, water, stone, k);
}

/// A step onto an empty cell moves the player there: the cell it left is
/// empty, the cell it reached bears its mark, every other cell is as
/// before, and neither the inventories, the other players nor the log
/// change.
pub proof fn law_step_onto_empty(v: GameView, dx: int, dy: int, i: int)
    requires
        v.valid(),
        0 <= i < v.players.len(),
        in_interior(v.players[i].x + dx, v.players[i].y + dy),
        v.cell(v.players[i].x + dx, v.players[i].y + dy) == CellState::Empty,
    ensures
        ({
            let p = v.players[i];
            let r = move_result(v, dx, dy, i);
            &&& r.valid()
            &&& r.players.len() == v.players.len()
            &&& r.players[i].x == p.x + dx
            &&& r.players[i].y == p.y + dy
            &&& r.players[i].inventory == p.inventory
            &&& r.players[i].player_id == p.player_id
            &&& forall|j: int|
                0 <= j < v.players.len() && j != i ==> #[trigger] r.players[j] == v.players[j]
            &&& r.cell(p.x, p.y) == CellState::Empty
            &&& r.cell(p.x + dx, p.y + dy) == slot_of(i)
            &&& forall|x: int, y: int|
                in_grid(x, y) && !(x == p.x && y == p.y) && !(x == p.x + dx && y == p.y + dy)
                    ==> #[trigger] r.cell(x, y) == v.cell(x, y)
            &&& r.debug_log == v.debug_log
            &&& r.debug_panel_enabled == v.debug_panel_enabled
        }),
{
    let p = v.players[i];
    lemma_step(v, i, p.x + dx, p.y + dy);
}

/// A step onto a stone moves the player there and adds exactly one stone to
/// what it carries: the cell it left is empty, the cell it reached bears
/// its mark, every other cell is as before, and the log gains one message,
/// which names the player and its new total.
pub proof fn law_step_onto_stone(v: GameView, dx: int, dy: int, i: int)
    requires
        v.valid(),
        0 <= i < v.players.len(),
        in_interior(v.players[i].x + dx, v.players[i].y + dy),
        v.cell(v.players[i].x + dx, v.players[i].y + dy) == CellState::Stone,
    ensures
        ({
            let p = v.players[i];
            let r = move_result(v, dx, dy, i);
            &&& r.valid()
            &&& r.players.len() == v.players.len()
            &&& r.players[i].x == p.x + dx
            &&& r.players[i].y == p.y + dy
            &&& r.players[i].stones() == p.stones() + 1
            &&& r.players[i].inventory.len() == p.inventory.len()
            &&& forall|j: int|
                1 <= j < p.inventory.len() ==> r.players[i].inventory[j] == p.inventory[j]
            &&& forall|j: int|
                0 <= j < v.players.len() && j != i ==> #[trigger] r.players[j] == v.players[j]
            &&& r.cell(p.x, p.y) == CellState::Empty
            &&& r.cell(p.x + dx, p.y + dy) == slot_of(i)
            &&& forall|x: int, y: int|
                in_grid(x, y) && !(x == p.x && y == p.y) && !(x == p.x + dx && y == p.y + dy)
                    ==> #[trigger] r.cell(x, y) == v.cell(x, y)
            &&& r.debug_log == logged(
                v.debug_log,
                collected_message((i + 1) as nat, p.stones() + 1),
            )
            &&& r.debug_panel_enabled == v.debug_panel_enabled
        }),
{
    let p = v.players[i];
    lemma_step(v, i, p.x + dx, p.y + dy);
    let stepped = v.with_step(i, p.x + dx, p.y + dy);
    lemma_carried_update(stepped.players, i, stepped.players[i].with_stones(p.stones() + 1));
}

/// What a step onto `(x, y)` does to the grid, cell by cell, and to the
/// stones in the game.
proof fn lemma_step(v: GameView, i: int, x: int, y: int)
    requires
        v.valid(),
        0 <= i < v.players.len(),
        in_interior(x, y),
        v.cell(x, y) == CellState::Empty || v.cell(x, y) == CellState::Stone,
    ensures
        forall|a: int, b: int|
            in_grid(a, b) ==> #[trigger] cell_at(v.with_step(i, x, y).grid, a, b) == (if a == x
                && b == y {
                slot_of(i)
            } else if a == v.players[i].x && b == v.players[i].y {
                CellState::Empty
            } else {
                cell_at(v.grid, a, b)
            }),
        cell_at(v.grid, v.players[i].x, v.players[i].y) == slot_of(i),
        v.with_step(i, x, y).stones_in_play() + (if v.cell(x, y) == CellState::Stone {
            1nat
        } else {
            0nat
        }) == v.stones_in_play(),
        v.with_step(i, x, y).valid(),
{
    let p = v.players[i];
    let cleared = v.grid.update(cell_index(p.x, p.y), CellState::Empty);
    lemma_cell_update(v.grid, p.x, p.y, CellState::Empty);
    lemma_cell_update(cleared, x, y, slot_of(i));
    assert(cell_at(v.grid, p.x, p.y) == slot_of(i));
    lemma_stone_cells_update(v.grid, cell_index(p.x, p.y), CellState::Empty);
    lemma_stone_cells_update(cleared, cell_index(x, y), slot_of(i));
    lemma_carried_update(v.players, i, p.moved_to(x, y));
}

/// A step that would leave the inside of the wall ring, or that leads onto
/// water, another player or the player's own cell, changes nothing at all.
pub proof fn law_blocked_step(v: GameView, dx: int, dy: int, i: int)
    requires
        v.valid(),
        0 <= i < v.players.len(),
        ({
            let x = v.players[i].x + dx;
            let y = v.players[i].y + dy;
            ||| !in_interior(x, y)
            ||| v.cell(x, y) == CellState::Water
            ||| v.cell(x, y) == CellState::Wall
            ||| v.cell(x, y) is PlayerCell
        }),
    ensures
        move_result(v, dx, dy, i) == v,
{
}

/// A placement succeeds exactly when the target lies in the grid, is empty
/// and within the player's reach, and the player carries a stone. Then the
/// target holds a stone, every other cell is as before, the player carries
/// one stone less, and the log gains one message, which names the player
/// and the target.
pub proof fn law_placement(v: GameView, tx: int, ty: int, i: int)
    requires
        v.valid(),
        0 <= i < v.players.len(),
        in_grid(tx, ty),
        v.cell(tx, ty) == CellState::Empty,
        v.players[i].stones() >= 1,
        v.players[i].reaches(tx, ty),
    ensures
        ({
            let p = v.players[i];
            let r = place_result(v, tx, ty, i);
            &&& r.valid()
            &&& r.players.len() == v.players.len()
            &&& r.cell(tx, ty) == CellState::Stone
            &&& forall|x: int, y: int|
                in_grid(x, y) && !(x == tx && y == ty) ==> #[trigger] r.cell(x, y) == v.cell(x, y)
            &&& r.players[i].stones() == p.stones() - 1
            &&& r.players[i].x == p.x
            &&& r.players[i].y == p.y
            &&& r.players[i].inventory.len() == p.inventory.len()
            &&& forall|j: int|
                1 <= j < p.inventory.len() ==> r.players[i].inventory[j] == p.inventory[j]
            &&& forall|j: int|
                0 <= j < v.players.len() && j != i ==> #[trigger] r.players[j] == v.players[j]
            &&& r.debug_log == logged(
                v.debug_log,
                placed_message((i + 1) as nat, tx as nat, ty as nat),
            )
            &&& r.debug_panel_enabled == v.debug_panel_enabled
        }),
{
    lemma_cell_update(v.grid, tx, ty, CellState::Stone);
    lemma_stone_cells_update(v.grid, cell_index(tx, ty), CellState::Stone);
    lemma_carried_update(
        v.players,
        i,
        v.players[i].with_stones((v.players[i].stones() - 1) as nat),
    );
}

/// A placement that is refused leaves the grid, the players and the debug
/// panel as they were and adds exactly one message, which says why: the
/// target lies outside the grid; else it is not empty; else the player has
/// no stone; else the target is out of reach.
pub proof fn law_refused_placement(v: GameView, tx: int, ty: int, i: int)
    requires
        v.valid(),
        0 <= i < v.players.len(),
        0 <= tx,
        0 <= ty,
        !(in_grid(tx, ty) && v.cell(tx, ty) == CellState::Empty && v.players[i].stones() >= 1
            && v.players[i].reaches(tx, ty)),
    ensures
        ({
            let p = v.players[i];
            let r = place_result(v, tx, ty, i);
            &&& r.valid()
            &&& r.grid == v.grid
            &&& r.players == v.players
            &&& r.debug_panel_enabled == v.debug_panel_enabled
            &&& r.debug_log == logged(
                v.debug_log,
                if !in_grid(tx, ty) {
                    out_of_bounds_message(tx as nat, ty as nat)
                } else if v.cell(tx, ty) != CellState::Empty {
                    not_empty_message(tx as nat, ty as nat)
                } else if p.stones() == 0 {
                    no_stones_message((i + 1) as nat)
                } else {
                    not_adjacent_message(tx as nat, ty as nat, (i + 1) as nat)
                },
            )
        }),
{
}

/// No step creates or destroys a stone: what lies on the grid and what the
/// players carry is together as much after the step as before.
pub proof fn law_step_keeps_stones(v: GameView, dx: int, dy: int, i: int)
    requires
        v.valid(),
        0 <= i < v.players.len(),
    ensures
        move_result(v, dx, dy, i).stones_in_play() == v.stones_in_play(),
{
    let p = v.players[i];
    let x = p.x + dx;
    let y = p.y + dy;
    if in_interior(x, y) && (v.cell(x, y) == CellState::Empty || v.cell(x, y)
        == CellState::Stone) {
        lemma_step(v, i, x, y);
        let stepped = v.with_step(i, x, y);
        lemma_carried_update(stepped.players, i, stepped.players[i].with_stones(p.stones() + 1));
    }
}

/// No placement, granted or refused, creates or destroys a stone.
pub proof fn law_placement_keeps_stones(v: GameView, tx: int, ty: int, i: int)
    requires
        v.valid(),
        0 <= i < v.players.len(),
    ensures
        place_result(v, tx, ty, i).stones_in_play() == v.stones_in_play(),
{
    if in_grid(tx, ty) {
        lemma_stone_cells_update(v.grid, cell_index(tx, ty), CellState::Stone);
        lemma_carried_update(
            v.players,
            i,
            v.players[i].with_stones((v.players[i].stones() - 1) as nat),
        );
    }
}

/// The log after each message of `messages` was added in turn.
pub open spec fn logged_all(log: Seq<Seq<char>>, messages: Seq<Seq<char>>) -> Seq<Seq<char>>
    decreases messages.len(),
{
    if messages.len() == 0 {
        log
    } else {
        logged(logged_all(log, messages.drop_last()), messages.last())
    }
}

/// The last `LOG_CAPACITY` entries of a sequence, or all of it if it has
/// fewer.
pub open spec fn newest(entries: Seq<Seq<char>>) -> Seq<Seq<char>> {
    if entries.len() <= LOG_CAPACITY {
        entries
    } else {
        entries.subrange(entries.len() - LOG_CAPACITY, entries.len() as int)
    }
}

/// Adding a message to a log within its capacity leaves it within its
/// capacity, with the new message last and the others in their order.
pub proof fn law_log_bounded(log: Seq<Seq<char>>, message: Seq<char>)
    requires
        log.len() <= LOG_CAPACITY,
    ensures
        logged(log, message).len() <= LOG_CAPACITY,
        logged(log, message) == newest(log.push(message)),
{
    assert(logged(log, message) =~= newest(log.push(message)));
}

/// However many messages are added to a log, it holds the newest ten of
/// what it held and what was added, in their order.
pub proof fn law_log_keeps_newest(log: Seq<Seq<char>>, messages: Seq<Seq<char>>)
    requires
        log.len() <= LOG_CAPACITY,
    ensures
        logged_all(log, messages).len() <= LOG_CAPACITY,
        logged_all(log, messages) == newest(log + messages),
    decreases messages.len(),
{
    if messages.len() == 0 {
        assert(log + messages =~= log);
    } else {
        let before = messages.drop_last();
        law_log_keeps_newest(log, before);
        assert(log + messages =~= (log + before).push(messages.last()));
        assert(logged(newest(log + before), messages.last()) =~= newest(log + messages));
    }
}

/// After eleven messages were added to a log, the first of them is gone and
/// the log holds the other ten in their order.
pub proof fn law_eleven_messages(log: Seq<Seq<char>>, messages: Seq<Seq<char>>)
    requires
        log.len() <= LOG_CAPACITY,
        messages.len() == 11,
    ensures
        logged_all(log, messages) == messages.subrange(1, 11),
{
    law_log_keeps_newest(log, messages);
    assert(newest(log + messages) =~= messages.subrange(1, 11));
}

} // verus!
