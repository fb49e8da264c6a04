//! Keys and what they ask of the game.

use vstd::prelude::*;
use crate::cell::in_interior;
use crate::game::{move_result, place_result, GameState, GameView};

verus! {

/// The key of a key event, as far as the game tells keys apart.
#[derive(Debug, Clone, Copy, PartialEq, Eq)]
pub enum KeyKind {
    Char(char),
    Up,
    Down,
    Left,
    Right,
    F(u8),
    Other,
}

/// One key event: the key, whether Alt and Control were held, and whether
/// the key was pressed (rather than released or repeated).
#[derive(Debug, Clone, Copy, PartialEq, Eq)]
pub struct KeyInput {
    pub kind: KeyKind,
    pub alt: bool,
    pub control: bool,
    pub pressed: bool,
}

/// What a key event asks for.
#[derive(Debug, Clone, Copy, PartialEq, Eq)]
pub enum KeyCommand {
    /// Nothing: the key was not pressed.
    Ignore,
    /// End the game.
    Quit,
    /// Lay out a new map.
    Regenerate,
    /// Show or hide the debug panel.
    ToggleDebugPanel,
    /// Hand the key to the players.
    Play,
}

/// What a key event asks for: `q` ends the game, `r` asks for a new map, F1
/// shows or hides the debug panel, and every other pressed key goes to the
/// players.
pub open spec fn command_of(key: KeyInput) -> KeyCommand {
    if !key.pressed {
        KeyCommand::Ignore
    } else {
        match key.kind {
            KeyKind::Char(c) => if c == 'q' {
                KeyCommand::Quit
            } else if c == 'r' {
                KeyCommand::Regenerate
            } else {
                KeyCommand::Play
            },
            KeyKind::F(n) => if n == 1 {
                KeyCommand::ToggleDebugPanel
            } else {
                KeyCommand::Play
            },
            _ => KeyCommand::Play,
        }
    }
}

/// What a key event asks for.
pub fn key_command(key: KeyInput) -> (command: KeyCommand)
    ensures
        command == command_of(key),
{
    if !key.pressed {
        return KeyCommand::Ignore;
    }
    match key.kind {
        KeyKind::Char(c) => {
            if c == 'q' {
                KeyCommand::Quit
            } else if c == 'r' {
                KeyCommand::Regenerate
            } else {
                KeyCommand::Play
            }
        },
        KeyKind::F(n) => {
            if n == 1 {
                KeyCommand::ToggleDebugPanel
            } else {
                KeyCommand::Play
            }
        },
        _ => KeyCommand::Play,
    }
}

/// The game after player `i` acted in the direction `(dx, dy)`: with `build`
/// it places a stone on the cell one step that way, else it steps there.
pub open spec fn act_result(v: GameView, build: bool, dx: int, dy: int, i: int) -> GameView {
    if build {
        place_result(v, v.players[i].x + dx, v.players[i].y + dy, i)
    } else {
        move_result(v, dx, dy, i)
    }
}

/// The game after the second player acted in the direction `(dx, dy)`, if
/// there is a second player; else the game as it was.
pub open spec fn second_player_result(v: GameView, build: bool, dx: int, dy: int) -> GameView {
    if v.players.len() > 1 {
        act_result(v, build, dx, dy, 1)
    } else {
        v
    }
}

/// The game after a key was handed to the players. The first player acts
/// on `w`, `a`, `s`, `d` and builds while Alt is held; the second acts on
/// the arrow keys and builds while Control is held. Up is towards row 0.
/// Any other key changes nothing, and so does an arrow key in a game of one
/// player.
pub open spec fn input_result(v: GameView, key: KeyInput) -> GameView {
    match key.kind {
        KeyKind::Char(c) => if c == 'w' {
            act_result(v, key.alt, 0, -1, 0)
        } else if c == 's' {
            act_result(v, key.alt, 0, 1, 0)
        } else if c == 'a' {
            act_result(v, key.alt, -1, 0, 0)
        } else if c == 'd' {
            act_result(v, key.alt, 1, 0, 0)
        } else {
            v
        },
        KeyKind::Up => second_player_result(v, key.control, 0, -1),
        KeyKind::Down => second_player_result(v, key.control, 0, 1),
        KeyKind::Left => second_player_result(v, key.control, -1, 0),
        KeyKind::Right => second_player_result(v, key.control, 1, 0),
        _ => v,
    }
}

impl GameState {
    /// Lets a player act in the direction `(dx, dy)`, one step at most along
    /// each axis.
    fn act(&mut self, build: bool, dx: i32, dy: i32, player_index: usize)
        requires
            old(self).wf(),
            player_index < old(self)@.players.len(),
            -1 <= dx <= 1,
            -1 <= dy <= 1,
        ensures
            final(self).wf(),
            final(self)@ == act_result(
                old(self)@,
                build,
                dx as int,
                dy as int,
                player_index as int,
            ),
    {
        assert(in_interior(
            self@.players[player_index as int].x,
            self@.players[player_index as int].y,
        ));
        if build {
            let players = self.players();
            let tx = (players[player_index].x as i32 + dx) as usize;
            let ty = (players[player_index].y as i32 + dy) as usize;
            self.place_stone(tx, ty, player_index);
        } else {
            self.move_player(dx, dy, player_index);
        }
    }

    /// Hands a key to the players.
    pub fn handle_input(&mut self, key: KeyInput)
        requires
            old(self).wf(),
        ensures
            final(self).wf(),
            final(self)@ == input_result(old(self)@, key),
    {
        match key.kind {
            KeyKind::Char(c) => {
                if c == 'w' {
                    self.act(key.alt, 0, -1, 0);
                } else if c == 's' {
                    self.act(key.alt, 0, 1, 0);
                } else if c == 'a' {
                    self.act(key.alt, -1, 0, 0);
                } else if c == 'd' {
                    self.act(key.alt, 1, 0, 0);
                }
            },
            KeyKind::Up => {
                self.second_player_act(key.control, 0, -1);
            },
            KeyKind::Down => {
                self.second_player_act(key.control, 0, 1);
            },
            KeyKind::Left => {
                self.second_player_act(key.control, -1, 0);
            },
            KeyKind::Right => {
                self.second_player_act(key.control, 1, 0);
            },
            _ => {},
        }
    }

    /// Lets the second player act, if there is one.
    fn second_player_act(&mut self, build: bool, dx: i32, dy: i32)
        requires
            old(self).wf(),
            -1 <= dx <= 1,
            -1 <= dy <= 1,
        ensures
            final(self).wf(),
            final(self)@ == second_player_result(old(self)@, build, dx as int, dy as int),
    {
        if self.players().len() > 1 {
            self.act(build, dx, dy, 1);
        }
    }
}

} // verus!
