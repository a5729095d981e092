//! A Dou Dizhu (landlord) game engine for three players: cards and their
//! parsing, the rules that classify and compare plays, players' hands, and
//! a state machine for dealing, bidding and playing. It does no terminal or
//! network I/O.

pub mod card;
pub mod error;
pub mod game;
pub mod player;
pub mod rules;
pub mod text;

pub use card::{Card, Cards, Rank, Suit};
pub use error::{CardError, GameError, PlayError, PlayerError};
pub use game::{Game, GameAction, GameActionResult, GamePhase, GameResult, GameState, PlayerState};
pub use player::{Player, PlayerType, Role};
pub use rules::{Play, PlayCategory};
