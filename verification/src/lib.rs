//! Server-side runtime of a two-player cooperative arcade game: the arena
//! simulation, the per-room game session and its state machine, room
//! matchmaking, the connection registry and the per-connection protocol
//! adapter, each with a machine-checked contract.

pub mod game;
pub mod game_session;
pub mod room;
pub mod server;
pub mod session;
pub mod tables;
pub mod text;
