//! The game engine: a state machine that takes actions and answers each
//! with its result or the reason it was refused.

use vstd::prelude::*;
use vstd::multiset::Multiset;
use crate::card::{Card, Cards, Rank, Suit};
use crate::card::cards::{counts_fit_u8, remove_all, sort_cards};
use crate::error::{GameError, PlayerError};
use crate::game::dealer::{fresh_deal, InitialDeal};
use crate::game::types::{
    GameAction, GameActionResult, GamePhase, GameResult, GameState, PlayerState, TurnOutcome,
};
use crate::player::{not_in_hand_text, Player, PlayerType, Role};
use crate::rules::{beats, Play, PlayCategory};
use crate::text::string_of;

verus! {

broadcast use {vstd::seq_lib::group_to_multiset_ensures, vstd::multiset::group_multiset_axioms};

/// The game as the contracts see it.
#[verifier::ext_equal]
pub struct GameView {
    /// The three hands, by player number.
    pub hands: Seq<Seq<Card>>,
    /// The three roles, by player number.
    pub roles: Seq<Role>,
    /// The three player types, by player number.
    pub player_types: Seq<PlayerType>,
    /// The landlord's cards.
    pub landlord_cards: Seq<Card>,
    /// The player whose turn it is.
    pub current_player: int,
    /// The player who made the last play.
    pub last_player: int,
    /// The last play, which the next one has to beat.
    pub last_play: Play,
    /// The phase of the game.
    pub phase: GamePhase,
}

/// No card occurs more than 255 times in any of the three hands together
/// with `extra` (the engine counts cards in bytes).
pub open spec fn all_fit(hands: Seq<Seq<Card>>, extra: Seq<Card>) -> bool {
    forall|i: int| 0 <= i < 3 ==> counts_fit_u8(#[trigger] hands[i] + extra)
}

/// No card occurs more than 255 times in any of the three hands.
pub open spec fn hands_fit(hands: Seq<Seq<Card>>) -> bool {
    forall|i: int| 0 <= i < 3 ==> counts_fit_u8(#[trigger] hands[i])
}

/// Whether a view describes a game that the engine can be in.
pub open spec fn valid(g: GameView) -> bool {
    &&& g.hands.len() == 3
    &&& g.roles.len() == 3
    &&& g.player_types.len() == 3
    &&& 0 <= g.current_player < 3
    &&& 0 <= g.last_player < 3
    &&& match g.phase {
        GamePhase::Bidding { start_player, pass_streak, last_bidder } => {
            &&& start_player < 3
            &&& pass_streak < 2
            &&& (last_bidder matches Some(b) ==> b < 3)
            &&& all_fit(g.hands, g.landlord_cards)
            &&& g.roles == seq![Role::Farmer, Role::Farmer, Role::Farmer]
        },
        GamePhase::Playing => hands_fit(g.hands),
        GamePhase::Finished { winner } => {
            &&& winner < 3
            &&& g.hands[winner as int].len() == 0
            &&& hands_fit(g.hands)
        },
    }
}

/// The player after `p`, in turn.
pub open spec fn next_of(p: int) -> int {
    (p + 1) % 3
}

/// Why an action is refused.
pub enum Refusal {
    /// `GameError::ActionNotAllowed` with this message.
    NotAllowed(Seq<char>),
    /// `GameError::Player(PlayerError::InvalidPlay(..))`: the hand does not
    /// hold the cards.
    NotInHand,
}

/// Whether the error `e` is the one that `why` describes.
pub open spec fn refused_with(e: GameError, why: Refusal) -> bool {
    match why {
        Refusal::NotAllowed(m) => e matches GameError::ActionNotAllowed(s) && s@ == m,
        Refusal::NotInHand => e matches GameError::Player(PlayerError::InvalidPlay(s)) && s@
            == not_in_hand_text(),
    }
}

/// The message for an action by a player whose turn it is not.
pub open spec fn not_your_turn_text() -> Seq<char> {
    "当前不是该玩家出牌回合"@
}

/// The message for a bid outside the bidding phase.
pub open spec fn not_bidding_text() -> Seq<char> {
    "当前阶段不是抢地主阶段"@
}

/// The message for a play outside the playing phase.
pub open spec fn not_playing_text() -> Seq<char> {
    "当前阶段不是出牌阶段"@
}

/// The message for a play that does not beat the last one.
pub open spec fn cannot_beat_text() -> Seq<char> {
    "出牌不能压过上一手牌"@
}

/// The game after the bidding ends with player `l` as the landlord: `l`
/// takes the landlord's cards into a sorted hand and plays first.
pub open spec fn close_bidding(g: GameView, l: int) -> GameView {
    GameView {
        hands: g.hands.update(l, sort_cards(g.hands[l] + g.landlord_cards)),
        roles: g.roles.update(l, Role::Landlord),
        player_types: g.player_types,
        landlord_cards: g.landlord_cards,
        current_player: l,
        last_player: l,
        last_play: g.last_play,
        phase: GamePhase::Playing,
    }
}

/// What a bid, or a pass when `bid` is false, does to the game: the result
/// and the game afterwards, or why it is refused. Two passes in a row end
/// the bidding; the last bidder, or the player who started when nobody bid,
/// becomes the landlord, takes the landlord's cards and plays first.
pub open spec fn bid_step(g: GameView, player_id: int, bid: bool) -> Result<
    (GameView, GameActionResult),
    Refusal,
> {
    match g.phase {
        GamePhase::Bidding { start_player, pass_streak, last_bidder } => {
            if player_id != g.current_player {
                Err(Refusal::NotAllowed(not_your_turn_text()))
            } else {
                let streak: int = if bid {
                    0
                } else {
                    pass_streak + 1
                };
                let lb: Option<usize> = if bid {
                    Some(player_id as usize)
                } else {
                    last_bidder
                };
                if streak >= 2 {
                    let l: int = match lb {
                        Some(b) => b as int,
                        None => start_player as int,
                    };
                    Ok((close_bidding(g, l), GameActionResult::BiddingEnded { landlord: l as usize }))
                } else {
                    let n = next_of(g.current_player);
                    Ok(
                        (
                            GameView {
                                hands: g.hands,
                                roles: g.roles,
                                player_types: g.player_types,
                                landlord_cards: g.landlord_cards,
                                current_player: n,
                                last_player: g.last_player,
                                last_play: g.last_play,
                                phase: GamePhase::Bidding {
                                    start_player,
                                    pass_streak: streak as usize,
                                    last_bidder: lb,
                                },
                            },
                            GameActionResult::BiddingContinues { next_player: n as usize },
                        ),
                    )
                }
            }
        },
        _ => Err(Refusal::NotAllowed(not_bidding_text())),
    }
}

/// What a turn of the current player with `play` does to the game, in
/// whatever phase: the result and the game afterwards, or why it is refused.
/// A pass (a play of the pass category that does not beat the last play)
/// hands the turn on; when the turn comes back to the player who made the
/// last play, that play is given up and only the pass is left to beat, so
/// any play with cards will do. Any other play must beat the last play and
/// be held in the player's hand; its cards leave the hand, and the game is
/// over when the hand is empty.
pub open spec fn turn_step(g: GameView, play: Play) -> Result<(GameView, GameActionResult), Refusal> {
    let cp = g.current_player;
    if !beats(play, g.last_play) {
        if play.category == PlayCategory::Pass {
            let n = next_of(cp);
            Ok(
                (
                    GameView {
                        hands: g.hands,
                        roles: g.roles,
                        player_types: g.player_types,
                        landlord_cards: g.landlord_cards,
                        current_player: n,
                        last_player: g.last_player,
                        last_play: if g.last_player == n {
                            play
                        } else {
                            g.last_play
                        },
                        phase: g.phase,
                    },
                    GameActionResult::PlayAccepted { next_player: n as usize },
                ),
            )
        } else {
            Err(Refusal::NotAllowed(cannot_beat_text()))
        }
    } else if !play.cards@.to_multiset().subset_of(g.hands[cp].to_multiset()) {
        Err(Refusal::NotInHand)
    } else {
        let hand = remove_all(g.hands[cp], play.cards@);
        if hand.len() == 0 {
            Ok(
                (
                    GameView {
                        hands: g.hands.update(cp, hand),
                        roles: g.roles,
                        player_types: g.player_types,
                        landlord_cards: g.landlord_cards,
                        current_player: cp,
                        last_player: cp,
                        last_play: play,
                        phase: GamePhase::Finished { winner: cp as usize },
                    },
                    GameActionResult::GameOver { winner: cp as usize },
                ),
            )
        } else {
            let n = next_of(cp);
            Ok(
                (
                    GameView {
                        hands: g.hands.update(cp, hand),
                        roles: g.roles,
                        player_types: g.player_types,
                        landlord_cards: g.landlord_cards,
                        current_player: n,
                        last_player: cp,
                        last_play: play,
                        phase: g.phase,
                    },
                    GameActionResult::PlayAccepted { next_player: n as usize },
                ),
            )
        }
    }
}

/// What a play action does to the game: in the playing phase, from the
/// player whose turn it is, the turn of `turn_step`; otherwise it is refused.
pub open spec fn play_step(g: GameView, player_id: int, play: Play) -> Result<
    (GameView, GameActionResult),
    Refusal,
> {
    if !(g.phase is Playing) {
        Err(Refusal::NotAllowed(not_playing_text()))
    } else if player_id != g.current_player {
        Err(Refusal::NotAllowed(not_your_turn_text()))
    } else {
        turn_step(g, play)
    }
}

/// What an action does to the game.
pub open spec fn step(g: GameView, action: GameAction) -> Result<
    (GameView, GameActionResult),
    Refusal,
> {
    match action {
        GameAction::Bid { player_id, bid } => bid_step(g, player_id as int, bid),
        GameAction::Play { player_id, play } => play_step(g, player_id as int, play),
    }
}

/// What turn `turn` of the bidding phase (0 for the first) does: a bid or a
/// pass of the current player as in `bid_step`, except that the bidding ends
/// after the sixth turn, with the last bidder as the landlord, or the player
/// who started when nobody bid.
pub open spec fn bidding_turn_step(g: GameView, turn: int, bid: bool) -> Result<
    (GameView, GameActionResult),
    Refusal,
> {
    match bid_step(g, g.current_player, bid) {
        Ok((g2, res)) => if (res is BiddingContinues) && turn >= 5 {
            let l: int = match g2.phase {
                GamePhase::Bidding { start_player, last_bidder, .. } => match last_bidder {
                    Some(b) => b as int,
                    None => start_player as int,
                },
                _ => 0,
            };
            Ok((close_bidding(g2, l), GameActionResult::BiddingEnded { landlord: l as usize }))
        } else {
            Ok((g2, res))
        },
        Err(why) => Err(why),
    }
}

/// What a turn of the current player with `play` comes to, in the terms of
/// the playing loop: the game `g2` afterwards is the one of `turn_step`, or
/// `g` itself when the turn is refused; a pass is `Passed` (with
/// `round_reset` when the turn comes back to the player who made the last
/// play), a play that does not beat the last one `CannotBeat`, cards that
/// the hand does not hold `PlayFailed`, and a play made `Played` or `Won`.
pub open spec fn play_turn(g: GameView, play: Play, g2: GameView, r: TurnOutcome) -> bool {
    let cp = g.current_player;
    match turn_step(g, play) {
        Ok((g3, res)) => g2 == g3 && if !beats(play, g.last_play) {
            r == (TurnOutcome::Passed {
                player: cp as usize,
                next_player: next_of(cp) as usize,
                round_reset: g.last_player == next_of(cp),
            })
        } else {
            match res {
                GameActionResult::GameOver { winner } => r == (TurnOutcome::Won { player: winner }),
                GameActionResult::PlayAccepted { next_player } => r == (TurnOutcome::Played {
                    player: cp as usize,
                    next_player,
                }),
                _ => false,
            }
        },
        Err(Refusal::NotAllowed(_)) => r == TurnOutcome::CannotBeat && g2 == g,
        Err(Refusal::NotInHand) => (r matches TurnOutcome::PlayFailed(PlayerError::InvalidPlay(m))
            && m@ == not_in_hand_text()) && g2 == g,
    }
}

/// The card with which bidding starts: the three of diamonds.
pub open spec fn start_card() -> Card {
    Card { rank: Rank::Three, suit: Some(Suit::Diamonds) }
}

/// The first player whose hand holds the three of diamonds; player 0 when
/// nobody holds it.
pub open spec fn first_holder(hands: Seq<Seq<Card>>) -> int {
    if hands[0].contains(start_card()) {
        0
    } else if hands[1].contains(start_card()) {
        1
    } else if hands[2].contains(start_card()) {
        2
    } else {
        0
    }
}

/// The hands of a deal, by player number.
pub open spec fn deal_hands(deal: InitialDeal) -> Seq<Seq<Card>> {
    seq![deal.player_hands[0]@, deal.player_hands[1]@, deal.player_hands[2]@]
}

/// Whether a game can start from the deal: no card occurs more than 255
/// times in a hand together with the landlord's cards.
pub open spec fn deal_fits(deal: InitialDeal) -> bool {
    all_fit(deal_hands(deal), deal.landlord_cards@)
}

/// The game at its start: the dealt hands, everybody a farmer, bidding
/// started by the holder of the three of diamonds, and no play to beat yet.
pub open spec fn started(g: GameView, deal: InitialDeal, player_types: [PlayerType; 3]) -> bool {
    let s = first_holder(deal_hands(deal));
    &&& g.hands == deal_hands(deal)
    &&& g.roles == seq![Role::Farmer, Role::Farmer, Role::Farmer]
    &&& g.player_types == seq![player_types[0], player_types[1], player_types[2]]
    &&& g.landlord_cards == deal.landlord_cards@
    &&& g.current_player == s
    &&& g.last_player == s
    &&& g.last_play.category == PlayCategory::Pass
    &&& g.last_play.cards@.len() == 0
    &&& g.phase == GamePhase::Bidding { start_player: s as usize, pass_streak: 0, last_bidder: None }
}

/// Three human players.
pub open spec fn all_human() -> [PlayerType; 3] {
    [PlayerType::Human, PlayerType::Human, PlayerType::Human]
}

/// A card occurs in a sequence at most as many times as it is long.
pub proof fn lemma_count_le_len(s: Seq<Card>, c: Card)
    ensures
        s.to_multiset().count(c) <= s.len(),
    decreases s.len(),
{
    if s.len() > 0 {
        lemma_count_le_len(s.drop_last(), c);
        assert(s =~= s.drop_last().push(s.last()));
    }
}

/// A sequence of at most 255 cards fits the byte counters.
proof fn lemma_short_fits(s: Seq<Card>)
    requires
        s.len() <= 255,
    ensures
        counts_fit_u8(s),
{
    assert forall|c: Card| #[trigger] s.to_multiset().count(c) <= 255 by {
        lemma_count_le_len(s, c);
    }
}

/// Fewer copies of each card keep the counts within the byte counters.
pub(crate) proof fn lemma_fits_sub(a: Seq<Card>, b: Seq<Card>)
    requires
        counts_fit_u8(b),
        a.to_multiset().subset_of(b.to_multiset()),
    ensures
        counts_fit_u8(a),
{
    assert forall|c: Card| #[trigger] a.to_multiset().count(c) <= 255 by {
        assert(a.to_multiset().count(c) <= b.to_multiset().count(c));
    }
}

/// The deal of a deck fits the byte counters.
proof fn lemma_real_deal_fits(deal: InitialDeal)
    requires
        deal.player_hands[0]@.len() == 17,
        deal.player_hands[1]@.len() == 17,
        deal.player_hands[2]@.len() == 17,
        deal.landlord_cards@.len() == 3,
    ensures
        deal_fits(deal),
{
    let hs = deal_hands(deal);
    assert forall|i: int| 0 <= i < 3 implies counts_fit_u8(#[trigger] hs[i] + deal.landlord_cards@) by {
        lemma_short_fits(hs[i] + deal.landlord_cards@);
    }
}

/// The play of no cards, a pass: what a game starts with.
fn empty_play() -> (p: Play)
    ensures
        p.category == PlayCategory::Pass,
        p.cards@.len() == 0,
{
    match Play::new(Cards::new()) {
        Ok(p) => p,
        Err(_) => Play { category: PlayCategory::Pass, cards: Cards::new() },
    }
}

/// A game of Dou Dizhu for three players.
pub struct Game {
    players: [Player; 3],
    landlord_cards: Cards,
    current_player: usize,
    last_player: usize,
    last_played_cards: Play,
    phase: GamePhase,
}

impl View for Game {
    type V = GameView;

    closed spec fn view(&self) -> GameView {
        GameView {
            hands: seq![self.players[0].hand@, self.players[1].hand@, self.players[2].hand@],
            roles: seq![self.players[0].role, self.players[1].role, self.players[2].role],
            player_types: seq![
                self.players[0].player_type,
                self.players[1].player_type,
                self.players[2].player_type,
            ],
            landlord_cards: self.landlord_cards@,
            current_player: self.current_player as int,
            last_player: self.last_player as int,
            last_play: self.last_played_cards,
            phase: self.phase,
        }
    }
}

impl Game {
    #[verifier::type_invariant]
    spec fn inv(self) -> bool {
        &&& valid(self@)
        &&& self.players[0].id == 0
        &&& self.players[1].id == 1
        &&& self.players[2].id == 2
    }

    /// A new game of three human players from a fresh deal.
    pub fn new() -> (g: Game)
        ensures
            exists|deal: InitialDeal|
                #![trigger started(g@, deal, all_human())]
                fresh_deal(deal) && started(g@, deal, all_human()),
    {
        let types = [PlayerType::Human, PlayerType::Human, PlayerType::Human];
        assert(types == all_human());
        Game::new_with_player_types(types)
    }

    /// A new game from a fresh deal, with the given player types.
    pub fn new_with_player_types(player_types: [PlayerType; 3]) -> (g: Game)
        ensures
            exists|deal: InitialDeal|
                #![trigger started(g@, deal, player_types)]
                fresh_deal(deal) && started(g@, deal, player_types),
    {
        let deal = InitialDeal::new();
        proof {
            lemma_real_deal_fits(deal);
        }
        let ghost d = deal;
        let g = Game::from_deal_and_types(deal, player_types);
        assert(started(g@, d, player_types));
        g
    }

    /// A game of three human players from the given deal.
    pub fn from_deal(deal: InitialDeal) -> (g: Game)
        requires
            deal_fits(deal),
        ensures
            started(g@, deal, all_human()),
            valid(g@),
    {
        let types = [PlayerType::Human, PlayerType::Human, PlayerType::Human];
        assert(types == all_human());
        let g = Game::from_deal_and_types(deal, types);
        proof {
            use_type_invariant(&g);
        }
        g
    }

    /// A game from the given deal and player types.
    fn from_deal_and_types(deal: InitialDeal, player_types: [PlayerType; 3]) -> (g: Game)
        requires
            deal_fits(deal),
        ensures
            started(g@, deal, player_types),
    {
        let players = [
            Player::new(0, deal.player_hands[0].clone(), Role::Farmer, player_types[0]),
            Player::new(1, deal.player_hands[1].clone(), Role::Farmer, player_types[1]),
            Player::new(2, deal.player_hands[2].clone(), Role::Farmer, player_types[2]),
        ];
        let target = Card { rank: Rank::Three, suit: Some(Suit::Diamonds) };
        let start_player: usize = if players[0].hand.contains(&target) {
            0
        } else if players[1].hand.contains(&target) {
            1
        } else if players[2].hand.contains(&target) {
            2
        } else {
            0
        };
        let last_played_cards = empty_play();
        let ghost hs = deal_hands(deal);
        assert(seq![players[0].hand@, players[1].hand@, players[2].hand@] =~= hs);
        let g = Game {
            players,
            landlord_cards: deal.landlord_cards,
            current_player: start_player,
            last_player: start_player,
            last_played_cards,
            phase: GamePhase::Bidding { start_player, pass_streak: 0, last_bidder: None },
        };
        assert(g@.roles =~= seq![Role::Farmer, Role::Farmer, Role::Farmer]);
        assert(g@.player_types =~= seq![player_types[0], player_types[1], player_types[2]]);
        g
    }

    /// The player whose turn it is.
    pub fn current_player(&self) -> (p: usize)
        ensures
            p == self@.current_player,
            p < 3,
            valid(self@),
    {
        proof {
            use_type_invariant(self);
        }
        self.current_player
    }

    /// The type of the player whose turn it is.
    pub fn current_player_type(&self) -> (t: PlayerType)
        ensures
            t == self@.player_types[self@.current_player],
    {
        proof {
            use_type_invariant(self);
        }
        self.players[self.current_player].player_type
    }

    /// The phase of the game.
    pub fn phase(&self) -> (p: GamePhase)
        ensures
            p == self@.phase,
            valid(self@),
    {
        proof {
            use_type_invariant(self);
        }
        self.phase
    }

    /// Whether the game is over.
    pub fn is_finished(&self) -> (b: bool)
        ensures
            b == (self@.phase is Finished),
    {
        matches!(self.phase, GamePhase::Finished { .. })
    }

    /// The winner, once the game is over.
    pub fn winner(&self) -> (w: Option<usize>)
        ensures
            w == (match self@.phase {
                GamePhase::Finished { winner } => Some(winner),
                _ => None,
            }),
    {
        match self.phase {
            GamePhase::Finished { winner } => Some(winner),
            _ => None,
        }
    }

    /// A snapshot of one player.
    fn player_state(&self, i: usize) -> (s: PlayerState)
        requires
            i < 3,
        ensures
            s.id == i,
            s.role == self@.roles[i as int],
            s.hand@ == self@.hands[i as int],
            s.player_type == self@.player_types[i as int],
    {
        proof {
            use_type_invariant(self);
        }
        let p = &self.players[i];
        PlayerState { id: p.id, role: p.role, hand: p.hand.clone(), player_type: p.player_type }
    }

    /// A snapshot of the whole game.
    pub fn game_state(&self) -> (s: GameState)
        ensures
            s.phase == self@.phase,
            s.current_player == self@.current_player,
            s.last_player == self@.last_player,
            s.last_played_cards.category == self@.last_play.category,
            s.last_played_cards.cards@ == self@.last_play.cards@,
            s.landlord_cards@ == self@.landlord_cards,
            forall|i: int|
                0 <= i < 3 ==> {
                    &&& (#[trigger] s.players[i]).id == i
                    &&& s.players[i].role == self@.roles[i]
                    &&& s.players[i].hand@ == self@.hands[i]
                    &&& s.players[i].player_type == self@.player_types[i]
                },
    {
        let p0 = self.player_state(0);
        let p1 = self.player_state(1);
        let p2 = self.player_state(2);
        GameState {
            phase: self.phase,
            current_player: self.current_player,
            last_player: self.last_player,
            last_played_cards: self.last_played_cards.clone(),
            landlord_cards: self.landlord_cards.clone(),
            players: [p0, p1, p2],
        }
    }

    /// Sets the type of a player; `InvalidPlayerId` for a number that is not
    /// 0, 1 or 2, and then nothing changes.
    pub fn set_player_type(&mut self, player_id: usize, player_type: PlayerType) -> (r: GameResult<()>)
        ensures
            valid(final(self)@),
            player_id < 3 ==> r is Ok && final(self)@ == (GameView {
                player_types: old(self)@.player_types.update(player_id as int, player_type),
                ..old(self)@
            }),
            player_id >= 3 ==> (r matches Err(GameError::InvalidPlayerId(n)) && n == player_id)
                && final(self)@ == old(self)@,
    {
        proof {
            use_type_invariant(&*self);
        }
        if player_id >= 3 {
            return Err(GameError::InvalidPlayerId(player_id));
        }
        self.players[player_id].player_type = player_type;
        assert(self@ =~= (GameView {
            player_types: old(self)@.player_types.update(player_id as int, player_type),
            ..old(self)@
        }));
        Ok(())
    }

    /// Carries out an action: the result and the game afterwards are those
    /// of `step`; a refused action changes nothing and gives the error that
    /// the refusal describes.
    pub fn apply_action(&mut self, action: GameAction) -> (r: GameResult<GameActionResult>)
        ensures
            valid(final(self)@),
            match step(old(self)@, action) {
                Ok((g, res)) => r matches Ok(x) && x == res && final(self)@ == g,
                Err(why) => r matches Err(e) && refused_with(e, why) && final(self)@ == old(
                    self,
                )@,
            },
    {
        match action {
            GameAction::Bid { player_id, bid } => self.apply_bid(player_id, bid),
            GameAction::Play { player_id, play } => self.apply_play(player_id, play),
        }
    }

    /// One turn of the bidding phase: turn `turn` (0 for the first), in
    /// which the current player bids or passes; see `bidding_turn_step`.
    pub fn bidding_phase_turn(&mut self, turn: usize, bid: bool) -> (r: GameResult<GameActionResult>)
        ensures
            valid(final(self)@),
            match bidding_turn_step(old(self)@, turn as int, bid) {
                Ok((g, res)) => r matches Ok(x) && x == res && final(self)@ == g,
                Err(why) => r matches Err(e) && refused_with(e, why) && final(self)@ == old(
                    self,
                )@,
            },
    {
        let cp = self.current_player();
        let r = self.apply_bid(cp, bid);
        match r {
            Ok(GameActionResult::BiddingContinues { next_player }) => {
                if turn >= 5 {
                    proof {
                        use_type_invariant(&*self);
                    }
                    let l: usize = match self.phase {
                        GamePhase::Bidding { start_player, last_bidder, .. } => match last_bidder {
                            Some(b) => b,
                            None => start_player,
                        },
                        _ => 0,
                    };
                    self.end_bidding(l);
                    proof {
                        use_type_invariant(&*self);
                    }
                    return Ok(GameActionResult::BiddingEnded { landlord: l });
                }
                Ok(GameActionResult::BiddingContinues { next_player })
            },
            other => other,
        }
    }

    /// One turn of the playing loop, in which the current player chooses
    /// `play`, in whatever phase the game is: a pass hands the turn on (and
    /// starts a new round when it comes back to the player who made the last
    /// play); a play that does not beat the last one, or that the hand does
    /// not hold, leaves the turn with the same player; a play made leaves the
    /// hand, and emptying the hand wins the game. See `play_turn`.
    pub fn play_phase_turn(&mut self, play: Play) -> (r: TurnOutcome)
        ensures
            valid(final(self)@),
            play_turn(old(self)@, play, final(self)@, r),
    {
        let cp = self.current_player();
        let next = self.next_player();
        let round_reset = self.last_player == next;
        let passing = !play.can_beat(&self.last_played_cards);
        match self.take_turn(play) {
            Ok(GameActionResult::GameOver { winner }) => TurnOutcome::Won { player: winner },
            Ok(GameActionResult::PlayAccepted { next_player }) => {
                if passing {
                    TurnOutcome::Passed { player: cp, next_player, round_reset }
                } else {
                    TurnOutcome::Played { player: cp, next_player }
                }
            },
            Ok(_) => TurnOutcome::CannotBeat,
            Err(GameError::Player(e)) => TurnOutcome::PlayFailed(e),
            Err(_) => TurnOutcome::CannotBeat,
        }
    }

    /// The player after the current one.
    fn next_player(&self) -> (n: usize)
        ensures
            n == next_of(self@.current_player),
            n < 3,
    {
        proof {
            use_type_invariant(self);
        }
        (self.current_player + 1) % 3
    }

    /// Player `l` becomes the landlord and takes the landlord's cards.
    fn landlord_takes_cards(&mut self, l: usize)
        requires
            l < 3,
            old(self)@.phase is Playing,
            counts_fit_u8(old(self)@.hands[l as int] + old(self)@.landlord_cards),
            old(self)@.roles[l as int] != Role::Landlord,
        ensures
            final(self)@ == (GameView {
                hands: old(self)@.hands.update(
                    l as int,
                    sort_cards(old(self)@.hands[l as int] + old(self)@.landlord_cards),
                ),
                roles: old(self)@.roles.update(l as int, Role::Landlord),
                ..old(self)@
            }),
    {
        proof {
            use_type_invariant(&*self);
        }
        let mut p = Player::new(l, Cards::new(), Role::Farmer, PlayerType::Human);
        proof {
            assert(p.hand@.to_multiset() =~= Multiset::empty());
        }
        std::mem::swap(&mut p, &mut self.players[l]);
        p.become_landlord(&self.landlord_cards);
        proof {
            let ll = self.landlord_cards@;
            let before = old(self)@.hands[l as int];
            vstd::seq_lib::lemma_multiset_commutative(before, ll);
            lemma_fits_sub(p.hand@, before + ll);
        }
        self.players[l] = p;
        proof {
            assert(self@.hands =~= old(self)@.hands.update(
                l as int,
                sort_cards(old(self)@.hands[l as int] + old(self)@.landlord_cards),
            ));
            assert(self@.roles =~= old(self)@.roles.update(l as int, Role::Landlord));
            assert(self@.player_types =~= old(self)@.player_types);
        }
    }

    /// Plays `cards` out of the hand of player `i`, as `Player::play_cards`
    /// does: the first copy of each card leaves the hand when it holds them
    /// all; otherwise nothing changes.
    fn play_out_of_hand(&mut self, i: usize, cards: &Cards) -> (r: crate::error::PlayerResult<()>)
        requires
            i < 3,
        ensures
            r is Ok <==> cards@.to_multiset().subset_of(old(self)@.hands[i as int].to_multiset()),
            r is Ok ==> final(self)@ == (GameView {
                hands: old(self)@.hands.update(
                    i as int,
                    remove_all(old(self)@.hands[i as int], cards@),
                ),
                ..old(self)@
            }),
            r matches Err(e) ==> final(self)@ == old(self)@ && (e matches PlayerError::InvalidPlay(
                m,
            ) && m@ == not_in_hand_text()),
    {
        proof {
            use_type_invariant(&*self);
        }
        let mut p = Player::new(i, Cards::new(), Role::Farmer, PlayerType::Human);
        proof {
            let ll = self.landlord_cards@;
            assert(p.hand@.to_multiset() =~= Multiset::empty());
            assert(p.hand@ + ll =~= ll);
            if self.phase is Bidding {
                vstd::seq_lib::lemma_multiset_commutative(self@.hands[i as int], ll);
                lemma_fits_sub(ll, self@.hands[i as int] + ll);
                lemma_fits_sub(self@.hands[i as int], self@.hands[i as int] + ll);
            }
            assert(counts_fit_u8(self@.hands[i as int]));
        }
        std::mem::swap(&mut p, &mut self.players[i]);
        let r = p.play_cards(cards);
        proof {
            let before = old(self)@.hands[i as int];
            let ll = self.landlord_cards@;
            assert(p.hand@.to_multiset().subset_of(before.to_multiset()));
            if self.phase is Bidding {
                vstd::seq_lib::lemma_multiset_commutative(before, ll);
                vstd::seq_lib::lemma_multiset_commutative(p.hand@, ll);
                lemma_fits_sub(p.hand@ + ll, before + ll);
            } else {
                lemma_fits_sub(p.hand@, before);
            }
            vstd::seq_lib::to_multiset_len(p.hand@);
            vstd::seq_lib::to_multiset_len(before);
        }
        self.players[i] = p;
        proof {
            if r is Ok {
                assert(self@.hands =~= old(self)@.hands.update(
                    i as int,
                    remove_all(old(self)@.hands[i as int], cards@),
                ));
            } else {
                assert(self@.hands =~= old(self)@.hands);
            }
            assert(self@.roles =~= old(self)@.roles);
            assert(self@.player_types =~= old(self)@.player_types);
        }
        r
    }

    /// Ends the bidding with player `l` as the landlord.
    fn end_bidding(&mut self, l: usize)
        requires
            l < 3,
            old(self)@.phase is Bidding,
        ensures
            final(self)@ == close_bidding(old(self)@, l as int),
    {
        proof {
            use_type_invariant(&*self);
            let hs = self@.hands;
            let ll = self.landlord_cards@;
            assert forall|i: int| 0 <= i < 3 implies counts_fit_u8(#[trigger] hs[i]) by {
                vstd::seq_lib::lemma_multiset_commutative(hs[i], ll);
                lemma_fits_sub(hs[i], hs[i] + ll);
            }
            assert(counts_fit_u8(hs[l as int] + ll));
        }
        self.phase = GamePhase::Playing;
        self.landlord_takes_cards(l);
        proof {
            use_type_invariant(&*self);
        }
        self.current_player = l;
        self.last_player = l;
        proof {
            assert(self@.hands =~= close_bidding(old(self)@, l as int).hands);
            assert(self@.roles =~= close_bidding(old(self)@, l as int).roles);
            assert(self@.player_types =~= old(self)@.player_types);
        }
    }

    /// A bid, or a pass when `bid` is false.
    fn apply_bid(&mut self, player_id: usize, bid: bool) -> (r: GameResult<GameActionResult>)
        ensures
            valid(final(self)@),
            match bid_step(old(self)@, player_id as int, bid) {
                Ok((g, res)) => r matches Ok(x) && x == res && final(self)@ == g,
                Err(why) => r matches Err(e) && refused_with(e, why) && final(self)@ == old(
                    self,
                )@,
            },
    {
        proof {
            use_type_invariant(&*self);
        }
        match self.phase {
            GamePhase::Bidding { start_player, pass_streak, last_bidder } => {
                if player_id != self.current_player {
                    return Err(GameError::ActionNotAllowed(string_of("当前不是该玩家出牌回合")));
                }
                let streak: usize = if bid {
                    0
                } else {
                    pass_streak + 1
                };
                let lb: Option<usize> = if bid {
                    Some(player_id)
                } else {
                    last_bidder
                };
                if streak >= 2 {
                    let landlord_index: usize = match lb {
                        Some(b) => b,
                        None => start_player,
                    };
                    self.end_bidding(landlord_index);
                    proof {
                        use_type_invariant(&*self);
                    }
                    return Ok(GameActionResult::BiddingEnded { landlord: landlord_index });
                }
                self.phase = GamePhase::Bidding { start_player, pass_streak: streak, last_bidder: lb };
                let next = self.next_player();
                self.current_player = next;
                proof {
                    assert(self@.hands =~= old(self)@.hands);
                    assert(self@.roles =~= old(self)@.roles);
                    assert(self@.player_types =~= old(self)@.player_types);
                }
                Ok(GameActionResult::BiddingContinues { next_player: next })
            },
            _ => Err(GameError::ActionNotAllowed(string_of("当前阶段不是抢地主阶段"))),
        }
    }

    /// A play action.
    fn apply_play(&mut self, player_id: usize, play: Play) -> (r: GameResult<GameActionResult>)
        ensures
            valid(final(self)@),
            match play_step(old(self)@, player_id as int, play) {
                Ok((g, res)) => r matches Ok(x) && x == res && final(self)@ == g,
                Err(why) => r matches Err(e) && refused_with(e, why) && final(self)@ == old(
                    self,
                )@,
            },
    {
        proof {
            use_type_invariant(&*self);
        }
        match self.phase {
            GamePhase::Playing => {},
            _ => {
                return Err(GameError::ActionNotAllowed(string_of("当前阶段不是出牌阶段")));
            },
        }
        if player_id != self.current_player {
            return Err(GameError::ActionNotAllowed(string_of("当前不是该玩家出牌回合")));
        }
        self.take_turn(play)
    }

    /// The current player's turn with `play` (see `turn_step`).
    fn take_turn(&mut self, play: Play) -> (r: GameResult<GameActionResult>)
        ensures
            valid(final(self)@),
            match turn_step(old(self)@, play) {
                Ok((g, res)) => r matches Ok(x) && x == res && final(self)@ == g,
                Err(why) => r matches Err(e) && refused_with(e, why) && final(self)@ == old(
                    self,
                )@,
            },
    {
        proof {
            use_type_invariant(&*self);
        }
        let cp = self.current_player;
        if !play.can_beat(&self.last_played_cards) {
            if play.category == PlayCategory::Pass {
                let next = self.next_player();
                let round_reset = self.last_player == next;
                self.current_player = next;
                if round_reset {
                    self.last_played_cards = play;
                }
                proof {
                    assert(self@.hands =~= old(self)@.hands);
                    assert(self@.roles =~= old(self)@.roles);
                    assert(self@.player_types =~= old(self)@.player_types);
                }
                return Ok(GameActionResult::PlayAccepted { next_player: next });
            }
            return Err(GameError::ActionNotAllowed(string_of("出牌不能压过上一手牌")));
        }
        match self.play_out_of_hand(cp, &play.cards) {
            Ok(()) => {},
            Err(e) => {
                return Err(GameError::Player(e));
            },
        }
        proof {
            use_type_invariant(&*self);
        }
        self.last_played_cards = play;
        self.last_player = cp;
        if self.players[cp].hand.count_all() == 0 {
            proof {
                let hs = self@.hands;
                let ll = self.landlord_cards@;
                if self.phase is Bidding {
                    assert forall|i: int| 0 <= i < 3 implies counts_fit_u8(#[trigger] hs[i]) by {
                        vstd::seq_lib::lemma_multiset_commutative(hs[i], ll);
                        lemma_fits_sub(hs[i], hs[i] + ll);
                    }
                }
            }
            self.phase = GamePhase::Finished { winner: cp };
            proof {
                assert(self@.hands =~= old(self)@.hands.update(
                    cp as int,
                    remove_all(old(self)@.hands[cp as int], play.cards@),
                ));
                assert(self@.roles =~= old(self)@.roles);
                assert(self@.player_types =~= old(self)@.player_types);
            }
            return Ok(GameActionResult::GameOver { winner: cp });
        }
        let next = self.next_player();
        self.current_player = next;
        proof {
            assert(self@.hands =~= old(self)@.hands.update(
                cp as int,
                remove_all(old(self)@.hands[cp as int], play.cards@),
            ));
            assert(self@.roles =~= old(self)@.roles);
            assert(self@.player_types =~= old(self)@.player_types);
        }
        Ok(GameActionResult::PlayAccepted { next_player: next })
    }
}

impl Default for Game {
    fn default() -> (g: Game)
        ensures
            exists|deal: InitialDeal|
                #![trigger started(g@, deal, all_human())]
                fresh_deal(deal) && started(g@, deal, all_human()),
    {
        Game::new()
    }
}

} // verus!
