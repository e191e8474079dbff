//! A falling-block puzzle engine: a board of cells, one active piece that
//! moves, rotates and locks, completed-row clearing, and the game's status
//! machine. Window, rendering and audio playback live outside this crate;
//! it tells its caller which sound to play.

pub mod audio;
pub mod block;
pub mod blockcolor;
pub mod blockshape;
pub mod board;
pub mod game;
pub mod gamestate;
mod random;
