use stonefield::{CellState, GameState, NoiseMask, GAME_HEIGHT, GAME_WIDTH};

fn mask_with(cells: &[(usize, usize)]) -> NoiseMask {
    let mut hits = vec![false; GAME_WIDTH * GAME_HEIGHT];
    for &(x, y) in cells {
        hits[y * GAME_WIDTH + x] = true;
    }
    NoiseMask::from_hits(hits)
}

fn open_field() -> GameState {
    GameState::new(&NoiseMask::blank(), &NoiseMask::blank())
}

fn cell(game: &GameState, x: usize, y: usize) -> CellState {
    game.cell(x, y).unwrap()
}

fn stones(game: &GameState, player_index: usize) -> usize {
    game.players()[player_index].inventory[0].item_count
}

fn position(game: &GameState, player_index: usize) -> (usize, usize) {
    let p = &game.players()[player_index];
    (p.x, p.y)
}

fn walk(game: &mut GameState, player_index: usize, dx: i32, dy: i32, steps: usize) {
    for _ in 0..steps {
        game.move_player(dx, dy, player_index);
    }
}

#[test]
fn new_game_has_wall_on_the_whole_outer_ring() {
    let game = GameState::new(&mask_with(&[(0, 0), (5, 0), (59, 29)]), &mask_with(&[(0, 7)]));
    for x in 0..GAME_WIDTH {
        assert_eq!(cell(&game, x, 0), CellState::Wall);
        assert_eq!(cell(&game, x, GAME_HEIGHT - 1), CellState::Wall);
    }
    for y in 0..GAME_HEIGHT {
        assert_eq!(cell(&game, 0, y), CellState::Wall);
        assert_eq!(cell(&game, GAME_WIDTH - 1, y), CellState::Wall);
    }
}

#[test]
fn new_game_puts_players_on_their_starting_cells() {
    let game = open_field();
    assert_eq!(game.players().len(), 2);
    assert_eq!(position(&game, 0), (2, 2));
    assert_eq!(position(&game, 1), (57, 27));
    assert_eq!(game.players()[0].player_id, 1);
    assert_eq!(game.players()[1].player_id, 2);
    assert_eq!(cell(&game, 2, 2), CellState::PlayerCell(0));
    assert_eq!(cell(&game, 57, 27), CellState::PlayerCell(1));
}

#[test]
fn new_game_hands_out_empty_inventories() {
    let game = open_field();
    for p in game.players().iter() {
        assert_eq!(p.inventory.len(), 2);
        assert_eq!(p.inventory[0].item_id, 1);
        assert_eq!(p.inventory[0].item_name, "Stone");
        assert_eq!(p.inventory[0].item_count, 0);
        assert_eq!(p.inventory[1].item_id, 2);
        assert_eq!(p.inventory[1].item_name, "Wood");
        assert_eq!(p.inventory[1].item_count, 0);
    }
    assert!(game.debug_log().is_empty());
    assert!(!game.debug_panel_enabled());
}

#[test]
fn new_game_clears_the_block_around_each_player() {
    let everywhere = NoiseMask::from_hits(vec![true; GAME_WIDTH * GAME_HEIGHT]);
    let game = GameState::new(&everywhere, &everywhere);
    for &(px, py, own) in
        &[(2usize, 2usize, CellState::PlayerCell(0)), (57, 27, CellState::PlayerCell(1))]
    {
        for y in py - 1..=py + 1 {
            for x in px - 1..=px + 1 {
                let expected = if (x, y) == (px, py) { own } else { CellState::Empty };
                assert_eq!(cell(&game, x, y), expected);
            }
        }
    }
    assert_eq!(cell(&game, 4, 2), CellState::Water);
    assert_eq!(cell(&game, 2, 4), CellState::Water);
    assert_eq!(cell(&game, 55, 27), CellState::Water);
}

#[test]
fn water_wins_where_both_masks_mark_a_cell() {
    let game = GameState::new(&mask_with(&[(10, 10), (11, 10)]), &mask_with(&[(11, 10), (12, 10)]));
    assert_eq!(cell(&game, 10, 10), CellState::Water);
    assert_eq!(cell(&game, 11, 10), CellState::Water);
    assert_eq!(cell(&game, 12, 10), CellState::Stone);
    assert_eq!(cell(&game, 13, 10), CellState::Empty);
}

#[test]
fn a_short_mask_marks_nothing_beyond_its_end() {
    let short = NoiseMask::from_hits(vec![true; GAME_WIDTH * 6]);
    let game = GameState::new(&NoiseMask::blank(), &short);
    assert_eq!(cell(&game, 10, 5), CellState::Stone);
    assert_eq!(cell(&game, 10, 6), CellState::Empty);
    assert!(short.is_marked(59, 5));
    assert!(!short.is_marked(0, 6));
}

#[test]
fn mask_reports_its_marks() {
    let mask = mask_with(&[(3, 4)]);
    assert!(mask.is_marked(3, 4));
    assert!(!mask.is_marked(4, 3));
    assert!(!mask.is_marked(GAME_WIDTH, 0));
    assert!(!mask.is_marked(0, GAME_HEIGHT));
    let blank = NoiseMask::blank();
    for y in 0..GAME_HEIGHT {
        for x in 0..GAME_WIDTH {
            assert!(!blank.is_marked(x, y));
        }
    }
}

#[test]
fn cell_outside_the_grid_is_none() {
    let game = open_field();
    assert_eq!(game.cell(GAME_WIDTH, 0), None);
    assert_eq!(game.cell(0, GAME_HEIGHT), None);
    assert_eq!(game.cell(GAME_WIDTH - 1, GAME_HEIGHT - 1), Some(CellState::Wall));
    assert_eq!(game.grid().len(), GAME_WIDTH * GAME_HEIGHT);
    assert_eq!(game.grid()[2 * GAME_WIDTH + 2], CellState::PlayerCell(0));
}

#[test]
fn step_onto_empty_cell_moves_the_player() {
    let mut game = open_field();
    let before = game.grid().clone();
    game.move_player(1, 0, 0);
    assert_eq!(position(&game, 0), (3, 2));
    assert_eq!(cell(&game, 2, 2), CellState::Empty);
    assert_eq!(cell(&game, 3, 2), CellState::PlayerCell(0));
    assert_eq!(stones(&game, 0), 0);
    assert!(game.debug_log().is_empty());
    assert_eq!(position(&game, 1), (57, 27));
    for y in 0..GAME_HEIGHT {
        for x in 0..GAME_WIDTH {
            if (x, y) != (2, 2) && (x, y) != (3, 2) {
                assert_eq!(cell(&game, x, y), before[y * GAME_WIDTH + x]);
            }
        }
    }
}

#[test]
fn second_player_steps_with_its_own_mark() {
    let mut game = open_field();
    game.move_player(0, -1, 1);
    assert_eq!(position(&game, 1), (57, 26));
    assert_eq!(cell(&game, 57, 27), CellState::Empty);
    assert_eq!(cell(&game, 57, 26), CellState::PlayerCell(1));
    assert_eq!(position(&game, 0), (2, 2));
}

#[test]
fn step_onto_stone_collects_it() {
    let mut game = GameState::new(&NoiseMask::blank(), &mask_with(&[(4, 2)]));
    assert_eq!(cell(&game, 4, 2), CellState::Stone);
    game.move_player(1, 0, 0);
    assert!(game.debug_log().is_empty());
    game.move_player(1, 0, 0);
    assert_eq!(position(&game, 0), (4, 2));
    assert_eq!(stones(&game, 0), 1);
    assert_eq!(game.players()[0].inventory[1].item_count, 0);
    assert_eq!(cell(&game, 4, 2), CellState::PlayerCell(0));
    assert_eq!(cell(&game, 3, 2), CellState::Empty);
    assert_eq!(game.debug_log().len(), 1);
    assert_eq!(game.debug_log()[0], "Player 1 collected a stone. Total: 1");
    assert!(game.debug_log()[0].contains("collected a stone"));
    assert!(game.debug_log()[0].contains("1"));
    game.move_player(1, 0, 0);
    assert_eq!(cell(&game, 4, 2), CellState::Empty);
    assert_eq!(stones(&game, 0), 1);
    assert_eq!(game.debug_log().len(), 1);
}

#[test]
fn second_stone_is_reported_with_the_new_total() {
    let mut game = GameState::new(&NoiseMask::blank(), &mask_with(&[(57, 25), (57, 24)]));
    walk(&mut game, 1, 0, -1, 3);
    assert_eq!(position(&game, 1), (57, 24));
    assert_eq!(stones(&game, 1), 2);
    assert_eq!(stones(&game, 0), 0);
    assert_eq!(game.debug_log().len(), 2);
    assert_eq!(game.debug_log()[0], "Player 2 collected a stone. Total: 1");
    assert_eq!(game.debug_log()[1], "Player 2 collected a stone. Total: 2");
}

#[test]
fn step_into_water_changes_nothing() {
    let mut game = GameState::new(&mask_with(&[(4, 2)]), &NoiseMask::blank());
    game.move_player(1, 0, 0);
    let before = game.grid().clone();
    game.move_player(1, 0, 0);
    assert_eq!(position(&game, 0), (3, 2));
    assert_eq!(game.grid(), &before);
    assert_eq!(stones(&game, 0), 0);
    assert!(game.debug_log().is_empty());
}

#[test]
fn step_into_wall_changes_nothing() {
    let mut game = open_field();
    game.move_player(-1, 0, 0);
    assert_eq!(position(&game, 0), (1, 2));
    let before = game.grid().clone();
    game.move_player(-1, 0, 0);
    assert_eq!(position(&game, 0), (1, 2));
    assert_eq!(game.grid(), &before);
    assert_eq!(cell(&game, 0, 2), CellState::Wall);
    assert!(game.debug_log().is_empty());
    walk(&mut game, 1, 1, 0, 5);
    assert_eq!(position(&game, 1), (58, 27));
    walk(&mut game, 1, 0, 1, 5);
    assert_eq!(position(&game, 1), (58, 28));
    assert_eq!(cell(&game, 59, 28), CellState::Wall);
    assert_eq!(cell(&game, 58, 29), CellState::Wall);
}

#[test]
fn step_onto_the_other_player_changes_nothing() {
    let mut game = open_field();
    walk(&mut game, 0, 1, 0, 54);
    walk(&mut game, 0, 0, 1, 25);
    assert_eq!(position(&game, 0), (56, 27));
    let before = game.grid().clone();
    game.move_player(1, 0, 0);
    assert_eq!(position(&game, 0), (56, 27));
    game.move_player(-1, 0, 1);
    assert_eq!(position(&game, 1), (57, 27));
    assert_eq!(game.grid(), &before);
    assert_eq!(cell(&game, 56, 27), CellState::PlayerCell(0));
    assert_eq!(cell(&game, 57, 27), CellState::PlayerCell(1));
    assert!(game.debug_log().is_empty());
}

#[test]
fn step_of_no_length_or_far_out_changes_nothing() {
    let mut game = open_field();
    let before = game.grid().clone();
    game.move_player(0, 0, 0);
    game.move_player(i32::MAX, 0, 0);
    game.move_player(0, i32::MIN, 0);
    game.move_player(-3, 0, 0);
    game.move_player(0, 100, 1);
    assert_eq!(position(&game, 0), (2, 2));
    assert_eq!(position(&game, 1), (57, 27));
    assert_eq!(game.grid(), &before);
    assert!(game.debug_log().is_empty());
}

#[test]
fn placement_puts_a_stone_down() {
    let mut game = GameState::new(&NoiseMask::blank(), &mask_with(&[(4, 2)]));
    walk(&mut game, 0, 1, 0, 2);
    assert_eq!(stones(&game, 0), 1);
    game.place_stone(5, 3, 0);
    assert_eq!(cell(&game, 5, 3), CellState::Stone);
    assert_eq!(stones(&game, 0), 0);
    assert_eq!(position(&game, 0), (4, 2));
    assert_eq!(game.debug_log().len(), 2);
    assert_eq!(game.debug_log()[1], "Player 1 placed stone at (5, 3).");
}

#[test]
fn placement_on_own_cell_is_refused() {
    let mut game = GameState::new(&NoiseMask::blank(), &mask_with(&[(4, 2)]));
    walk(&mut game, 0, 1, 0, 2);
    assert_eq!(stones(&game, 0), 1);
    let before = game.grid().clone();
    game.place_stone(4, 2, 0);
    assert_eq!(stones(&game, 0), 1);
    assert_eq!(game.grid(), &before);
    assert_eq!(game.debug_log().len(), 2);
    assert_eq!(game.debug_log()[1], "Cannot place stone: Cell not empty at (4, 2)");
    assert!(game.debug_log()[1].contains("not empty"));
}

#[test]
fn placement_outside_the_grid_is_refused() {
    let mut game = GameState::new(&NoiseMask::blank(), &mask_with(&[(4, 2)]));
    walk(&mut game, 0, 1, 0, 2);
    let before = game.grid().clone();
    game.place_stone(GAME_WIDTH, 2, 0);
    game.place_stone(3, GAME_HEIGHT, 0);
    game.place_stone(usize::MAX, usize::MAX, 0);
    assert_eq!(game.grid(), &before);
    assert_eq!(stones(&game, 0), 1);
    assert_eq!(game.debug_log().len(), 4);
    assert_eq!(game.debug_log()[1], "Out of bounds: (60, 2)");
    assert_eq!(game.debug_log()[2], "Out of bounds: (3, 30)");
    assert_eq!(game.debug_log()[3], format!("Out of bounds: ({}, {})", usize::MAX, usize::MAX));
}

#[test]
fn placement_on_an_occupied_cell_is_refused() {
    let mut game = GameState::new(&mask_with(&[(5, 2)]), &mask_with(&[(4, 2), (5, 3)]));
    walk(&mut game, 0, 1, 0, 2);
    let before = game.grid().clone();
    game.place_stone(5, 2, 0);
    game.place_stone(5, 3, 0);
    game.place_stone(0, 0, 0);
    game.place_stone(57, 27, 0);
    assert_eq!(game.grid(), &before);
    assert_eq!(stones(&game, 0), 1);
    assert_eq!(game.debug_log().len(), 5);
    assert_eq!(game.debug_log()[1], "Cannot place stone: Cell not empty at (5, 2)");
    assert_eq!(game.debug_log()[2], "Cannot place stone: Cell not empty at (5, 3)");
    assert_eq!(game.debug_log()[3], "Cannot place stone: Cell not empty at (0, 0)");
    assert_eq!(game.debug_log()[4], "Cannot place stone: Cell not empty at (57, 27)");
}

#[test]
fn placement_without_a_stone_is_refused() {
    let mut game = open_field();
    let before = game.grid().clone();
    game.place_stone(3, 2, 0);
    game.place_stone(56, 26, 1);
    assert_eq!(game.grid(), &before);
    assert_eq!(stones(&game, 0), 0);
    assert_eq!(stones(&game, 1), 0);
    assert_eq!(game.debug_log().len(), 2);
    assert_eq!(game.debug_log()[0], "Player 1 has no stones to use.");
    assert_eq!(game.debug_log()[1], "Player 2 has no stones to use.");
}

#[test]
fn placement_out_of_reach_is_refused() {
    let mut game = GameState::new(&NoiseMask::blank(), &mask_with(&[(4, 2)]));
    walk(&mut game, 0, 1, 0, 2);
    let before = game.grid().clone();
    game.place_stone(6, 2, 0);
    game.place_stone(4, 4, 0);
    game.place_stone(2, 3, 0);
    assert_eq!(game.grid(), &before);
    assert_eq!(stones(&game, 0), 1);
    assert_eq!(game.debug_log().len(), 4);
    assert_eq!(game.debug_log()[1], "Placement at (6, 2) is not adjacent to Player 1.");
    assert_eq!(game.debug_log()[2], "Placement at (4, 4) is not adjacent to Player 1.");
    assert_eq!(game.debug_log()[3], "Placement at (2, 3) is not adjacent to Player 1.");
}

#[test]
fn refusals_are_tried_in_order() {
    let mut game = open_field();
    game.place_stone(0, 0, 0);
    game.place_stone(30, 15, 0);
    assert_eq!(game.debug_log()[0], "Cannot place stone: Cell not empty at (0, 0)");
    assert_eq!(game.debug_log()[1], "Player 1 has no stones to use.");
}

#[test]
fn placement_reaches_all_eight_neighbours() {
    let stone_row: Vec<(usize, usize)> = (10..18).map(|x| (x, 10)).collect();
    let mut game = GameState::new(&NoiseMask::blank(), &mask_with(&stone_row));
    walk(&mut game, 0, 0, 1, 8);
    walk(&mut game, 0, 1, 0, 15);
    assert_eq!(position(&game, 0), (17, 10));
    assert_eq!(stones(&game, 0), 8);
    walk(&mut game, 0, 0, 1, 5);
    assert_eq!(position(&game, 0), (17, 15));
    let around = [(16, 14), (17, 14), (18, 14), (16, 15), (18, 15), (16, 16), (17, 16), (18, 16)];
    for (n, &(x, y)) in around.iter().enumerate() {
        game.place_stone(x, y, 0);
        assert_eq!(cell(&game, x, y), CellState::Stone);
        assert_eq!(stones(&game, 0), 7 - n);
    }
    assert_eq!(game.debug_log().len(), 10);
    assert_eq!(game.debug_log()[9], "Player 1 placed stone at (18, 16).");
    assert_eq!(game.debug_log()[0], "Player 1 collected a stone. Total: 7");
}

#[test]
fn log_keeps_the_newest_ten_messages() {
    let mut game = open_field();
    for n in 0..11 {
        game.log_debug_message(format!("message {}", n));
        assert!(game.debug_log().len() <= 10);
    }
    assert_eq!(game.debug_log().len(), 10);
    assert!(!game.debug_log().contains(&"message 0".to_string()));
    for n in 1..11 {
        assert_eq!(game.debug_log()[n - 1], format!("message {}", n));
    }
}

#[test]
fn log_below_capacity_keeps_every_message() {
    let mut game = open_field();
    for n in 0..10 {
        game.log_debug_message(format!("message {}", n));
        assert_eq!(game.debug_log().len(), n + 1);
    }
    assert_eq!(game.debug_log()[0], "message 0");
    assert_eq!(game.debug_log()[9], "message 9");
}

#[test]
fn clear_empties_the_log() {
    let mut game = open_field();
    game.log_debug_message("one".to_string());
    game.log_debug_message("two".to_string());
    game.clear_debug_log();
    assert!(game.debug_log().is_empty());
    game.clear_debug_log();
    assert!(game.debug_log().is_empty());
    assert_eq!(position(&game, 0), (2, 2));
}

#[test]
fn toggle_flips_the_panel_and_nothing_else() {
    let mut game = open_field();
    let before = game.grid().clone();
    game.toggle_debug_panel();
    assert!(game.debug_panel_enabled());
    assert_eq!(game.grid(), &before);
    assert!(game.debug_log().is_empty());
    game.toggle_debug_panel();
    assert!(!game.debug_panel_enabled());
}

#[test]
fn regenerate_keeps_places_and_takes_the_stones() {
    let mut game = GameState::new(&NoiseMask::blank(), &mask_with(&[(4, 2), (57, 25)]));
    walk(&mut game, 0, 1, 0, 2);
    walk(&mut game, 1, 0, -1, 2);
    game.toggle_debug_panel();
    assert_eq!(stones(&game, 0), 1);
    assert_eq!(stones(&game, 1), 1);
    game.regenerate_game_state(&mask_with(&[(20, 20), (4, 3)]), &mask_with(&[(21, 20), (57, 26)]));
    assert_eq!(position(&game, 0), (4, 2));
    assert_eq!(position(&game, 1), (57, 25));
    assert_eq!(game.players()[0].player_id, 1);
    assert_eq!(game.players()[1].player_id, 2);
    assert_eq!(stones(&game, 0), 0);
    assert_eq!(stones(&game, 1), 0);
    assert_eq!(game.players()[0].inventory[1].item_name, "Wood");
    assert_eq!(game.players()[0].inventory[1].item_count, 0);
    assert_eq!(cell(&game, 4, 2), CellState::PlayerCell(0));
    assert_eq!(cell(&game, 57, 25), CellState::PlayerCell(1));
    assert_eq!(cell(&game, 2, 2), CellState::Empty);
    assert_eq!(cell(&game, 4, 3), CellState::Empty);
    assert_eq!(cell(&game, 57, 26), CellState::Empty);
    assert_eq!(cell(&game, 20, 20), CellState::Water);
    assert_eq!(cell(&game, 21, 20), CellState::Stone);
    assert_eq!(game.debug_log().len(), 2);
    assert!(game.debug_panel_enabled());
    for x in 0..GAME_WIDTH {
        assert_eq!(cell(&game, x, 0), CellState::Wall);
        assert_eq!(cell(&game, x, GAME_HEIGHT - 1), CellState::Wall);
    }
}

#[test]
fn regenerate_beside_the_wall_leaves_the_wall_standing() {
    let mut game = open_field();
    walk(&mut game, 0, -1, 0, 1);
    walk(&mut game, 0, 0, -1, 1);
    walk(&mut game, 1, 1, 0, 1);
    walk(&mut game, 1, 0, 1, 1);
    assert_eq!(position(&game, 0), (1, 1));
    assert_eq!(position(&game, 1), (58, 28));
    let everywhere = NoiseMask::from_hits(vec![true; GAME_WIDTH * GAME_HEIGHT]);
    game.regenerate_game_state(&NoiseMask::blank(), &everywhere);
    for x in 0..GAME_WIDTH {
        assert_eq!(cell(&game, x, 0), CellState::Wall);
        assert_eq!(cell(&game, x, GAME_HEIGHT - 1), CellState::Wall);
    }
    for y in 0..GAME_HEIGHT {
        assert_eq!(cell(&game, 0, y), CellState::Wall);
        assert_eq!(cell(&game, GAME_WIDTH - 1, y), CellState::Wall);
    }
    assert_eq!(cell(&game, 1, 1), CellState::PlayerCell(0));
    assert_eq!(cell(&game, 2, 2), CellState::Empty);
    assert_eq!(cell(&game, 3, 1), CellState::Stone);
    assert_eq!(cell(&game, 58, 28), CellState::PlayerCell(1));
    assert_eq!(cell(&game, 57, 27), CellState::Empty);
    assert_eq!(cell(&game, 56, 28), CellState::Stone);
}

#[test]
fn regenerate_with_players_side_by_side_keeps_both_marks() {
    let mut game = open_field();
    walk(&mut game, 0, 1, 0, 54);
    walk(&mut game, 0, 0, 1, 25);
    let everywhere = NoiseMask::from_hits(vec![true; GAME_WIDTH * GAME_HEIGHT]);
    game.regenerate_game_state(&everywhere, &NoiseMask::blank());
    assert_eq!(cell(&game, 56, 27), CellState::PlayerCell(0));
    assert_eq!(cell(&game, 57, 27), CellState::PlayerCell(1));
    assert_eq!(cell(&game, 55, 26), CellState::Empty);
    assert_eq!(cell(&game, 58, 28), CellState::Empty);
    assert_eq!(cell(&game, 54, 27), CellState::Water);
}
