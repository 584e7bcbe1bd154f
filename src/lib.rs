//! Rules engine for a two-player race game on a shared track of twenty
//! squares: per-player path mapping, move validation, move execution with
//! captures and bearing off, and the turn, roll and win state machine.
pub mod player;
pub mod path;
pub mod model;
pub mod game;
pub mod laws;

pub use game::GameState;
pub use player::Player;
