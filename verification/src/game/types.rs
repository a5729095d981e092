//! The values that the game engine takes and gives.

use vstd::prelude::*;
use crate::card::Cards;
use crate::error::{GameError, PlayerError};
use crate::player::{PlayerType, Role};
use crate::rules::Play;
use crate::text::{decimal, decimal_string, join2, string_of};

verus! {

/// An action that a player takes.
#[derive(Debug, Clone, PartialEq, Eq)]
pub enum GameAction {
    /// During bidding: `bid` is `true` to bid for the landlord, `false` to pass.
    Bid { player_id: usize, bid: bool },
    /// During play: the cards the player plays.
    Play { player_id: usize, play: Play },
}

/// What an accepted action led to.
#[derive(Debug, Clone, Copy, PartialEq, Eq, Structural)]
pub enum GameActionResult {
    /// Bidding goes on with the next player.
    BiddingContinues { next_player: usize },
    /// Bidding is over; the landlord is known.
    BiddingEnded { landlord: usize },
    /// The play was accepted; the next player is to play.
    PlayAccepted { next_player: usize },
    /// The game is over.
    GameOver { winner: usize },
}

/// What one turn of the playing phase came to.
#[derive(Debug)]
pub enum TurnOutcome {
    /// The player passed and the turn went to `next_player`. When that is
    /// the player who made the last play (everybody else passed), the last
    /// play was given up: `round_reset`, and a new round starts.
    Passed { player: usize, next_player: usize, round_reset: bool },
    /// The play does not beat the last one: the same player chooses again.
    CannotBeat,
    /// The hand does not hold the cards: the same player chooses again.
    PlayFailed(PlayerError),
    /// The play was made; the turn went to `next_player`.
    Played { player: usize, next_player: usize },
    /// The play emptied the player's hand: the player wins.
    Won { player: usize },
}

/// The phase of the game.
#[derive(Debug, Clone, Copy, PartialEq, Eq, Structural)]
pub enum GamePhase {
    /// Bidding for the landlord: who started, how many passes in a row, and
    /// the last player who bid.
    Bidding { start_player: usize, pass_streak: usize, last_bidder: Option<usize> },
    /// Playing cards.
    Playing,
    /// The game is over.
    Finished { winner: usize },
}

/// The text `Some(n)` or `None` of an optional number.
pub open spec fn option_text(o: Option<usize>) -> Seq<char> {
    match o {
        Some(n) => "Some("@ + decimal(n as nat) + ")"@,
        None => "None"@,
    }
}

impl GamePhase {
    /// The phase as `{:?}` shows it.
    pub open spec fn debug_text(self) -> Seq<char> {
        match self {
            GamePhase::Bidding { start_player, pass_streak, last_bidder } => "Bidding { start_player: "@
                + decimal(start_player as nat) + ", pass_streak: "@ + decimal(pass_streak as nat)
                + ", last_bidder: "@ + option_text(last_bidder) + " }"@,
            GamePhase::Playing => "Playing"@,
            GamePhase::Finished { winner } => "Finished { winner: "@ + decimal(winner as nat)
                + " }"@,
        }
    }

    /// The phase as `{:?}` shows it.
    pub fn debug_string(&self) -> (s: String)
        ensures
            s@ == self.debug_text(),
    {
        match self {
            GamePhase::Bidding { start_player, pass_streak, last_bidder } => {
                let s = join2("Bidding { start_player: ", decimal_string(*start_player).as_str());
                let s = s.concat(", pass_streak: ");
                let s = s.concat(decimal_string(*pass_streak).as_str());
                let s = s.concat(", last_bidder: ");
                let o = match last_bidder {
                    Some(n) => {
                        let t = join2("Some(", decimal_string(*n).as_str());
                        t.concat(")")
                    },
                    None => string_of("None"),
                };
                let s = s.concat(o.as_str());
                s.concat(" }")
            },
            GamePhase::Playing => string_of("Playing"),
            GamePhase::Finished { winner } => {
                let s = join2("Finished { winner: ", decimal_string(*winner).as_str());
                s.concat(" }")
            },
        }
    }
}

/// A snapshot of one player.
#[derive(Debug, Clone, PartialEq, Eq)]
pub struct PlayerState {
    pub id: usize,
    pub role: Role,
    pub hand: Cards,
    pub player_type: PlayerType,
}

/// A snapshot of the whole game.
#[derive(Debug, Clone)]
pub struct GameState {
    pub phase: GamePhase,
    pub current_player: usize,
    pub last_player: usize,
    pub last_played_cards: Play,
    pub landlord_cards: Cards,
    pub players: [PlayerState; 3],
}

/// Results of the game engine.
pub type GameResult<T> = std::result::Result<T, GameError>;

} // verus!
