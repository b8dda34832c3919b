//! The simulation entities: the arena's extents, time, the frame buffer,
//! shots, the enemy swarm and the players.

pub mod clock;
pub mod common;
pub mod frame;
pub mod invaders;
pub mod player;
pub mod shot;
