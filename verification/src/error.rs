//! Error types of the library, each with the message it shows.

use vstd::prelude::*;
use crate::game::types::GamePhase;
use crate::text::{decimal, decimal_string, join2, string_of};

verus! {

/// Errors of the game engine.
#[derive(Debug, Clone)]
pub enum GameError {
    /// A play could not be classified.
    Play(PlayError),
    /// A player could not carry out an operation.
    Player(PlayerError),
    /// A card could not be parsed or handled.
    Card(CardError),
    /// There is no player with this number.
    InvalidPlayerId(usize),
    /// The operation belongs to another phase of the game.
    WrongPhase { expected: &'static str, actual: GamePhase },
    /// The rules or the phase refuse the action.
    ActionNotAllowed(String),
    /// Any other error.
    Other(String),
}

/// Errors in classifying a play.
#[derive(Debug, Clone, Copy, PartialEq, Eq, Structural)]
pub enum PlayError {
    /// The cards form no valid play.
    Invalid,
    /// No cards were given.
    Empty,
    /// The play is not of the category required.
    MismatchedType,
}

/// Errors of a player's operations.
#[derive(Debug, Clone)]
pub enum PlayerError {
    /// The hand holds no card of this rank.
    CardNotFound(String),
    /// The cards cannot be played.
    InvalidPlay(String),
    /// The player is the landlord already.
    AlreadyLandlord,
    /// The player is not the landlord.
    NotLandlord,
    /// The input names no rank.
    InvalidInput(String),
    /// The hand is empty.
    NoCards,
    /// Any other player error.
    Other(String),
}

/// Errors in parsing or handling cards.
#[derive(Debug, Clone)]
pub enum CardError {
    /// The text does not name a rank.
    InvalidRank(String),
    /// The text does not name a suit.
    InvalidSuit(String),
    /// The text does not describe a card.
    InvalidCardString(String),
    /// A collection of cards is empty.
    EmptyCards,
    /// A collection of cards is not valid.
    InvalidCards(String),
    /// Any other card error.
    Other(String),
}

impl PlayError {
    /// The message of the error.
    pub open spec fn message(self) -> Seq<char> {
        match self {
            PlayError::Invalid => "无效的出牌：卡牌组合不构成任何有效牌型"@,
            PlayError::Empty => "空牌集合"@,
            PlayError::MismatchedType => "牌型不匹配"@,
        }
    }

    /// The message of the error as text.
    pub fn to_string(&self) -> (s: String)
        ensures
            s@ == self.message(),
    {
        match self {
            PlayError::Invalid => string_of("无效的出牌：卡牌组合不构成任何有效牌型"),
            PlayError::Empty => string_of("空牌集合"),
            PlayError::MismatchedType => string_of("牌型不匹配"),
        }
    }
}

impl PlayerError {
    /// The message of the error.
    pub open spec fn message(self) -> Seq<char> {
        match self {
            PlayerError::CardNotFound(card) => "手牌中没有: "@ + card@,
            PlayerError::InvalidPlay(reason) => "无效的出牌: "@ + reason@,
            PlayerError::AlreadyLandlord => "玩家已是地主"@,
            PlayerError::NotLandlord => "玩家不是地主"@,
            PlayerError::InvalidInput(input) => "无效的输入: "@ + input@,
            PlayerError::NoCards => "玩家手牌为空"@,
            PlayerError::Other(msg) => msg@,
        }
    }

    /// The message of the error as text.
    pub fn to_string(&self) -> (s: String)
        ensures
            s@ == self.message(),
    {
        match self {
            PlayerError::CardNotFound(card) => join2("手牌中没有: ", card.as_str()),
            PlayerError::InvalidPlay(reason) => join2("无效的出牌: ", reason.as_str()),
            PlayerError::AlreadyLandlord => string_of("玩家已是地主"),
            PlayerError::NotLandlord => string_of("玩家不是地主"),
            PlayerError::InvalidInput(input) => join2("无效的输入: ", input.as_str()),
            PlayerError::NoCards => string_of("玩家手牌为空"),
            PlayerError::Other(msg) => msg.clone(),
        }
    }
}

impl CardError {
    /// The message of the error.
    pub open spec fn message(self) -> Seq<char> {
        match self {
            CardError::InvalidRank(rank) => "无效的点数: "@ + rank@,
            CardError::InvalidSuit(suit) => "无效的花色: "@ + suit@,
            CardError::InvalidCardString(s) => "无效的卡牌字符串: "@ + s@,
            CardError::EmptyCards => "卡牌集合为空"@,
            CardError::InvalidCards(reason) => "无效的卡牌集合: "@ + reason@,
            CardError::Other(msg) => msg@,
        }
    }

    /// The message of the error as text.
    pub fn to_string(&self) -> (s: String)
        ensures
            s@ == self.message(),
    {
        match self {
            CardError::InvalidRank(rank) => join2("无效的点数: ", rank.as_str()),
            CardError::InvalidSuit(suit) => join2("无效的花色: ", suit.as_str()),
            CardError::InvalidCardString(s) => join2("无效的卡牌字符串: ", s.as_str()),
            CardError::EmptyCards => string_of("卡牌集合为空"),
            CardError::InvalidCards(reason) => join2("无效的卡牌集合: ", reason.as_str()),
            CardError::Other(msg) => msg.clone(),
        }
    }
}

impl GameError {
    /// The message of the error.
    pub open spec fn message(self) -> Seq<char> {
        match self {
            GameError::Play(err) => "牌型错误: "@ + err.message(),
            GameError::Player(err) => "玩家错误: "@ + err.message(),
            GameError::Card(err) => "卡牌错误: "@ + err.message(),
            GameError::InvalidPlayerId(id) => "无效玩家编号: "@ + decimal(id as nat),
            GameError::WrongPhase { expected, actual } => "错误阶段: 期望 "@ + expected@ + "，当前 "@
                + actual.debug_text(),
            GameError::ActionNotAllowed(reason) => "动作不被允许: "@ + reason@,
            GameError::Other(msg) => "错误: "@ + msg@,
        }
    }

    /// The message of the error as text.
    pub fn to_string(&self) -> (s: String)
        ensures
            s@ == self.message(),
    {
        match self {
            GameError::Play(err) => join2("牌型错误: ", err.to_string().as_str()),
            GameError::Player(err) => join2("玩家错误: ", err.to_string().as_str()),
            GameError::Card(err) => join2("卡牌错误: ", err.to_string().as_str()),
            GameError::InvalidPlayerId(id) => join2("无效玩家编号: ", decimal_string(*id).as_str()),
            GameError::WrongPhase { expected, actual } => {
                let s = join2("错误阶段: 期望 ", expected);
                let s = s.concat("，当前 ");
                s.concat(actual.debug_string().as_str())
            },
            GameError::ActionNotAllowed(reason) => join2("动作不被允许: ", reason.as_str()),
            GameError::Other(msg) => join2("错误: ", msg.as_str()),
        }
    }
}

impl From<PlayError> for GameError {
    fn from(err: PlayError) -> (r: GameError)
        ensures
            r == GameError::Play(err),
    {
        GameError::Play(err)
    }
}

impl vstd::std_specs::convert::FromSpecImpl<PlayError> for GameError {
    open spec fn obeys_from_spec() -> bool {
        true
    }

    open spec fn from_spec(err: PlayError) -> GameError {
        GameError::Play(err)
    }
}

impl From<PlayerError> for GameError {
    fn from(err: PlayerError) -> (r: GameError)
        ensures
            r == GameError::Player(err),
    {
        GameError::Player(err)
    }
}

impl vstd::std_specs::convert::FromSpecImpl<PlayerError> for GameError {
    open spec fn obeys_from_spec() -> bool {
        true
    }

    open spec fn from_spec(err: PlayerError) -> GameError {
        GameError::Player(err)
    }
}

impl From<CardError> for GameError {
    fn from(err: CardError) -> (r: GameError)
        ensures
            r == GameError::Card(err),
    {
        GameError::Card(err)
    }
}

impl vstd::std_specs::convert::FromSpecImpl<CardError> for GameError {
    open spec fn obeys_from_spec() -> bool {
        true
    }

    open spec fn from_spec(err: CardError) -> GameError {
        GameError::Card(err)
    }
}

impl From<String> for GameError {
    fn from(err: String) -> (r: GameError)
        ensures
            r == GameError::Other(err),
    {
        GameError::Other(err)
    }
}

impl vstd::std_specs::convert::FromSpecImpl<String> for GameError {
    open spec fn obeys_from_spec() -> bool {
        true
    }

    open spec fn from_spec(err: String) -> GameError {
        GameError::Other(err)
    }
}

impl From<String> for PlayerError {
    fn from(err: String) -> (r: PlayerError)
        ensures
            r == PlayerError::Other(err),
    {
        PlayerError::Other(err)
    }
}

impl vstd::std_specs::convert::FromSpecImpl<String> for PlayerError {
    open spec fn obeys_from_spec() -> bool {
        true
    }

    open spec fn from_spec(err: String) -> PlayerError {
        PlayerError::Other(err)
    }
}

impl From<String> for CardError {
    fn from(err: String) -> (r: CardError)
        ensures
            r == CardError::Other(err),
    {
        CardError::Other(err)
    }
}

impl vstd::std_specs::convert::FromSpecImpl<String> for CardError {
    open spec fn obeys_from_spec() -> bool {
        true
    }

    open spec fn from_spec(err: String) -> CardError {
        CardError::Other(err)
    }
}

/// Results of the game engine.
pub type Result<T> = std::result::Result<T, GameError>;

/// Results of classifying plays.
pub type PlayResult<T> = std::result::Result<T, PlayError>;

/// Results of players' operations.
pub type PlayerResult<T> = std::result::Result<T, PlayerError>;

/// Results of card operations.
pub type CardResult<T> = std::result::Result<T, CardError>;

} // verus!
