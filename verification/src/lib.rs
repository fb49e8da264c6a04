//! A two-player resource-gathering world on a walled grid: terrain laid out
//! from two noise fields, and the rules by which the players walk, collect
//! stone and build with it.

pub mod cell;
pub mod text;
pub mod player;
pub mod terrain;
pub mod game;
pub mod input;
pub mod laws;

pub use cell::{CellState, GAME_HEIGHT, GAME_WIDTH};
pub use game::{GameState, GameView, LOG_CAPACITY};
pub use input::{key_command, KeyCommand, KeyInput, KeyKind};
pub use player::{Item, ItemView, Player, PlayerView};
pub use terrain::{draw_noise_seeds, NoiseMask, NoiseSeeds};
