//! A grid-digging simulation: a walled board of glyphs, a registry of
//! diggable blocks and resources, a player, and a per-tick step that digs,
//! collects and lets debris settle.

pub mod block;
pub mod board;
pub mod game;
pub mod glyphs;
pub mod laws;
pub mod location;
pub mod player;

pub use block::Block;
pub use board::Board;
pub use game::{debris_sim, move_player, simulation_step};
pub use glyphs::BlockPhysics;
pub use player::Player;
