//! The game state machine: dealing, bidding for the landlord, and the
//! playing phase. It holds no terminal or network I/O.

pub mod bidding;
pub mod dealer;
pub mod engine;
pub mod laws;
pub mod types;

pub use self::engine::Game;
pub use self::types::{
    GameAction, GameActionResult, GamePhase, GameResult, GameState, PlayerState, TurnOutcome,
};
