//! Properties of the game engine and of the deck, proved over their views.

use vstd::prelude::*;
use vstd::multiset::Multiset;
use crate::card::{Card, Rank, Suit};
use crate::card::cards::{
    counts_fit_u8, lemma_remove_all_multiset, lemma_sort_cards, remove_all, sorted_by_key,
};
use crate::game::dealer::{deck_card, full_deck, suit_at};
use crate::game::engine::{
    bid_step, deal_fits, lemma_fits_sub, deal_hands, next_of, not_bidding_text, not_playing_text, turn_step,
    start_card, started, step, valid, GameView, Refusal,
};
use crate::game::dealer::InitialDeal;
use crate::game::types::{GameAction, GameActionResult, GamePhase};
use crate::player::{PlayerType, Role};
use crate::rules::{beats, rank_at, well_formed, Play, PlayCategory};

verus! {

broadcast use {vstd::seq_lib::group_to_multiset_ensures, vstd::multiset::group_multiset_axioms};

/// The player number that an action names.
pub open spec fn actor(action: GameAction) -> int {
    match action {
        GameAction::Bid { player_id, .. } => player_id as int,
        GameAction::Play { player_id, .. } => player_id as int,
    }
}

/// Whether `action` is accepted in game `g`, with result `res`, and leads to `g2`.
pub open spec fn leads_to(g: GameView, action: GameAction, g2: GameView, res: GameActionResult) -> bool {
    step(g, action) == Ok::<(GameView, GameActionResult), Refusal>((g2, res))
}

/// Every accepted action leads from a game the engine can be in to another
/// such game.
pub proof fn lemma_step_keeps_valid(
    g: GameView,
    action: GameAction,
    g2: GameView,
    res: GameActionResult,
)
    requires
        valid(g),
        leads_to(g, action, g2, res),
    ensures
        valid(g2),
{
    match action {
        GameAction::Bid { player_id, bid } => {
            if let GamePhase::Bidding { start_player, pass_streak, last_bidder } = g.phase {
                if g2.phase is Playing {
                    let l = g2.current_player;
                    let ll = g.landlord_cards;
                    assert forall|i: int| 0 <= i < 3 implies counts_fit_u8(#[trigger] g2.hands[i]) by {
                        vstd::seq_lib::lemma_multiset_commutative(g.hands[i], ll);
                        assert(counts_fit_u8(g.hands[i] + ll));
                        if i == l {
                            lemma_sort_cards(g.hands[i] + ll);
                            lemma_fits_sub(g2.hands[i], g.hands[i] + ll);
                        } else {
                            lemma_fits_sub(g2.hands[i], g.hands[i] + ll);
                        }
                    }
                }
            }
        },
        GameAction::Play { player_id, play } => {
            let p = player_id as int;
            if beats(play, g.last_play) {
                lemma_remove_all_multiset(g.hands[p], play.cards@);
                assert forall|i: int| 0 <= i < 3 implies counts_fit_u8(#[trigger] g2.hands[i]) by {
                    if i == p {
                        lemma_fits_sub(g2.hands[i], g.hands[i]);
                    }
                }
            }
        },
    }
}

/// Only the player whose turn it is can act: an action of any other player
/// is refused.
pub proof fn lemma_only_current_player_acts(g: GameView, action: GameAction)
    requires
        actor(action) != g.current_player,
    ensures
        step(g, action) is Err,
{
}

/// A finished game refuses every action: a bid because bidding is over, a
/// play because the playing phase is over.
pub proof fn lemma_finished_game_refuses(g: GameView, action: GameAction)
    requires
        (g.phase is Finished),
    ensures
        step(g, action) == match action {
            GameAction::Bid { .. } => Err::<(GameView, GameActionResult), Refusal>(
                Refusal::NotAllowed(not_bidding_text()),
            ),
            GameAction::Play { .. } => Err(Refusal::NotAllowed(not_playing_text())),
        },
{
}

/// In the bidding, the player whose turn it is may bid or pass: a bid never
/// ends the bidding, and a pass ends it exactly when the action before was a
/// pass too. The turn then goes to the next player.
pub proof fn lemma_two_passes_end_bidding(g: GameView, bid: bool)
    requires
        valid(g),
        (g.phase is Bidding),
    ensures
        bid_step(g, g.current_player, bid) is Ok,
        (bid_step(g, g.current_player, bid)->Ok_0.1 is BiddingEnded) <==> (!bid && g.phase->pass_streak
            == 1),
        !(bid_step(g, g.current_player, bid)->Ok_0.1 is BiddingEnded) ==> {
            let (g2, res) = bid_step(g, g.current_player, bid)->Ok_0;
            &&& g2.current_player == next_of(g.current_player)
            &&& res == GameActionResult::BiddingContinues { next_player: g2.current_player as usize }
            &&& g2.hands == g.hands
        },
{
}

/// When the bidding ends, the landlord is the last player who bid, or the
/// player who started the bidding when nobody bid. The landlord takes the
/// landlord's cards into a sorted hand and plays first; the other hands stay
/// as they were.
pub proof fn lemma_landlord_takes_cards(g: GameView, action: GameAction, g2: GameView, l: usize)
    requires
        valid(g),
        leads_to(g, action, g2, GameActionResult::BiddingEnded { landlord: l }),
    ensures
        l < 3,
        l == match g.phase {
            GamePhase::Bidding { start_player, last_bidder, .. } => match last_bidder {
                Some(b) => b,
                None => start_player,
            },
            _ => 0,
        },
        g2.phase == GamePhase::Playing,
        g2.current_player == l,
        g2.last_player == l,
        g2.roles[l as int] == Role::Landlord,
        g2.hands[l as int].to_multiset() == g.hands[l as int].to_multiset().add(
            g.landlord_cards.to_multiset(),
        ),
        g2.hands[l as int].len() == g.hands[l as int].len() + g.landlord_cards.len(),
        sorted_by_key(g2.hands[l as int]),
        forall|i: int| 0 <= i < 3 && i != l ==> g2.hands[i] == g.hands[i] && g2.roles[i] == g.roles[i],
{
    let ll = g.landlord_cards;
    lemma_sort_cards(g.hands[l as int] + ll);
    vstd::seq_lib::lemma_multiset_commutative(g.hands[l as int], ll);
}

/// An accepted play that beats the last one takes its cards out of the
/// player's hand: the hand afterwards, together with the cards played, is
/// the hand before. The other hands stay as they were, and the play becomes
/// the one to beat. An accepted play that does not beat the last one is a
/// pass: no hand changes and the turn goes on to the next player.
pub proof fn lemma_play_takes_cards(
    g: GameView,
    action: GameAction,
    g2: GameView,
    res: GameActionResult,
)
    requires
        valid(g),
        leads_to(g, action, g2, res),
        (action is Play),
    ensures
        ({
            let p = action->Play_player_id as int;
            let cards = action->Play_play.cards@;
            if beats(action->Play_play, g.last_play) {
                &&& g2.hands[p].to_multiset().add(cards.to_multiset()) == g.hands[p].to_multiset()
                &&& g2.hands[p].len() + cards.len() == g.hands[p].len()
                &&& g2.hands[p] == remove_all(g.hands[p], cards)
                &&& forall|i: int| 0 <= i < 3 && i != p ==> g2.hands[i] == g.hands[i]
                &&& g2.last_play == action->Play_play
                &&& g2.last_player == p
            } else {
                &&& action->Play_play.category == PlayCategory::Pass
                &&& g2.hands == g.hands
                &&& g2.current_player == next_of(p)
                &&& g2.last_player == g.last_player
            }
        }),
{
    let p = action->Play_player_id as int;
    let cards = action->Play_play.cards@;
    if beats(action->Play_play, g.last_play) {
        lemma_remove_all_multiset(g.hands[p], cards);
        vstd::seq_lib::to_multiset_len(g2.hands[p]);
        vstd::seq_lib::to_multiset_len(cards);
        vstd::seq_lib::to_multiset_len(g.hands[p]);
    }
}

/// After an accepted action that does not end a phase, the turn passes to
/// the next player, whom the result names.
pub proof fn lemma_turn_passes_on(
    g: GameView,
    action: GameAction,
    g2: GameView,
    res: GameActionResult,
)
    requires
        valid(g),
        leads_to(g, action, g2, res),
        (res is BiddingContinues) || (res is PlayAccepted),
    ensures
        g2.current_player == next_of(g.current_player),
        res == (match res {
            GameActionResult::BiddingContinues { .. } => GameActionResult::BiddingContinues {
                next_player: g2.current_player as usize,
            },
            _ => GameActionResult::PlayAccepted { next_player: g2.current_player as usize },
        }),
{
}

/// A play that beats the last one ends the game exactly when it empties the
/// player's hand; only such a play ends the game, and that player is the
/// winner.
pub proof fn lemma_game_over_iff_hand_empty(
    g: GameView,
    action: GameAction,
    g2: GameView,
    res: GameActionResult,
)
    requires
        valid(g),
        leads_to(g, action, g2, res),
        (action is Play),
    ensures
        beats(action->Play_play, g.last_play) ==> ((res is GameOver) <==> g2.hands[action->Play_player_id as int].len() == 0),
        (res is GameOver) ==> (res == (GameActionResult::GameOver { winner: action->Play_player_id }))
            && (g2.phase == (GamePhase::Finished { winner: action->Play_player_id })),
        !(res is GameOver) ==> (g2.phase is Playing),
{
}

/// The cards held in the three hands.
pub open spec fn cards_in_hands(g: GameView) -> Multiset<Card> {
    g.hands[0].to_multiset().add(g.hands[1].to_multiset()).add(g.hands[2].to_multiset())
}

/// The cards still in the game: the hands, and during the bidding also the
/// landlord's cards, which nobody holds yet.
pub open spec fn cards_in_game(g: GameView) -> Multiset<Card> {
    if g.phase is Bidding {
        cards_in_hands(g).add(g.landlord_cards.to_multiset())
    } else {
        cards_in_hands(g)
    }
}

/// No action creates or loses a card: a bid or a pass keeps the cards in
/// the game (when the bidding ends, the landlord's cards move into the
/// landlord's hand), and a play that beats the last one takes exactly its
/// own cards out of the game.
pub proof fn lemma_cards_conserved(
    g: GameView,
    action: GameAction,
    g2: GameView,
    res: GameActionResult,
)
    requires
        valid(g),
        leads_to(g, action, g2, res),
    ensures
        match action {
            GameAction::Bid { .. } => cards_in_game(g2) == cards_in_game(g),
            GameAction::Play { play, .. } => if beats(play, g.last_play) {
                cards_in_game(g2).add(play.cards@.to_multiset()) == cards_in_game(g)
            } else {
                cards_in_game(g2) == cards_in_game(g)
            },
        },
{
    let h0 = g.hands[0].to_multiset();
    let h1 = g.hands[1].to_multiset();
    let h2 = g.hands[2].to_multiset();
    match action {
        GameAction::Bid { .. } => {
            if g2.phase is Playing {
                let l = g2.current_player;
                let ll = g.landlord_cards;
                lemma_sort_cards(g.hands[l] + ll);
                vstd::seq_lib::lemma_multiset_commutative(g.hands[l], ll);
                let m = ll.to_multiset();
                if l == 0 {
                    assert(cards_in_game(g2) =~= h0.add(m).add(h1).add(h2));
                } else if l == 1 {
                    assert(cards_in_game(g2) =~= h0.add(h1.add(m)).add(h2));
                } else {
                    assert(cards_in_game(g2) =~= h0.add(h1).add(h2.add(m)));
                }
                assert(cards_in_game(g2) =~= cards_in_game(g));
            } else {
                assert(g2.hands == g.hands);
            }
        },
        GameAction::Play { player_id, play } => {
            if !beats(play, g.last_play) {
                assert(g2.hands == g.hands);
            } else {
                let p = player_id as int;
                let m = play.cards@.to_multiset();
                lemma_remove_all_multiset(g.hands[p], play.cards@);
                let n = g2.hands[p].to_multiset();
                if p == 0 {
                    assert(cards_in_hands(g2).add(m) =~= n.add(m).add(h1).add(h2));
                } else if p == 1 {
                    assert(cards_in_hands(g2).add(m) =~= h0.add(n.add(m)).add(h2));
                } else {
                    assert(cards_in_hands(g2).add(m) =~= h0.add(h1).add(n.add(m)));
                }
                assert(cards_in_game(g2).add(m) =~= cards_in_game(g));
            }
        },
    }
}

/// A pass never beats anything, so a turn in which the player passes is
/// never taken for a play.
pub proof fn lemma_pass_beats_nothing(p: Play, q: Play)
    requires
        well_formed(p),
        p.category == PlayCategory::Pass,
    ensures
        !beats(p, q),
{
    crate::rules::lemma_pass_iff_empty(p.cards@);
}

/// A pass while the round goes on (the turn does not come back to the player
/// who made the last play) leaves the play to beat as it was: the next player
/// still has to beat it, and a play with cards that does not beat it is
/// refused. No hand changes and the turn goes on.
pub proof fn lemma_pass_keeps_play_to_beat(
    g: GameView,
    pass: Play,
    g2: GameView,
    res: GameActionResult,
)
    requires
        well_formed(pass),
        pass.category == PlayCategory::Pass,
        turn_step(g, pass) == Ok::<(GameView, GameActionResult), Refusal>((g2, res)),
        g.last_player != next_of(g.current_player),
    ensures
        g2.last_play == g.last_play,
        g2.last_player == g.last_player,
        g2.hands == g.hands,
        g2.current_player == next_of(g.current_player),
        forall|p: Play| beats(p, g2.last_play) == beats(p, g.last_play),
        forall|p: Play|
            p.category != PlayCategory::Pass && !beats(p, g.last_play) ==> #[trigger] turn_step(g2, p)
                is Err,
{
    lemma_pass_beats_nothing(pass, g.last_play);
}

/// When everybody else has passed and the turn comes back to the player who
/// made the last play, that player starts a new round: any play with cards
/// beats what is left to beat.
pub proof fn lemma_new_round_after_passes(
    g: GameView,
    pass: Play,
    g2: GameView,
    res: GameActionResult,
    p: Play,
)
    requires
        turn_step(g, pass) == Ok::<(GameView, GameActionResult), Refusal>((g2, res)),
        !beats(pass, g.last_play),
        g.last_player == next_of(g.current_player),
        p.cards@.len() > 0,
    ensures
        beats(p, g2.last_play),
        g2.current_player == g.last_player,
{
}

/// A game starts valid, and the bidding starts with the player who holds the
/// three of diamonds, if anyone does.
pub proof fn lemma_start(g: GameView, deal: InitialDeal, player_types: [PlayerType; 3])
    requires
        deal_fits(deal),
        started(g, deal, player_types),
    ensures
        valid(g),
        (exists|i: int| 0 <= i < 3 && #[trigger] deal_hands(deal)[i].contains(start_card()))
            ==> deal_hands(deal)[g.current_player].contains(start_card()),
{
    let hs = deal_hands(deal);
    assert(hs.len() == 3);
}

/// The position of a normal card's suit in the deck's suit order.
pub open spec fn suit_pos(s: Suit) -> int {
    match s {
        Suit::Spades => 0,
        Suit::Hearts => 1,
        Suit::Diamonds => 2,
        Suit::Clubs => 3,
    }
}

/// The position of a card in a new deck.
pub open spec fn deck_index(c: Card) -> int {
    if c.rank == Rank::JokerSmall {
        52
    } else if c.rank == Rank::JokerBig {
        53
    } else {
        4 * (c.rank.spec_value() - 3) + match c.suit {
            Some(s) => suit_pos(s),
            None => 0,
        }
    }
}

/// Whether a card can occur in a deck: a joker has no suit, a normal card
/// has one.
pub open spec fn real_card(c: Card) -> bool {
    c.rank.spec_is_joker() <==> c.suit is None
}

proof fn lemma_rank_at_value(k: int)
    requires
        0 <= k < 15,
    ensures
        rank_at(k).spec_value() == k + 3,
{
}

proof fn lemma_deck_index_of_card(i: int)
    requires
        0 <= i < 54,
    ensures
        deck_index(deck_card(i)) == i,
        real_card(deck_card(i)),
{
    if i < 52 {
        let k = i / 4;
        let j = i % 4;
        assert(0 <= k < 13 && 0 <= j < 4 && i == 4 * k + j);
        lemma_rank_at_value(k);
        assert(suit_pos(suit_at(j)) == j);
    }
}

proof fn lemma_card_at_deck_index(c: Card)
    requires
        real_card(c),
    ensures
        0 <= deck_index(c) < 54,
        deck_card(deck_index(c)) == c,
{
    if !c.rank.spec_is_joker() {
        let k = c.rank.spec_value() - 3;
        let s = c.suit->Some_0;
        let i = deck_index(c);
        assert(0 <= k < 13);
        assert(i == 4 * k + suit_pos(s));
        assert(i / 4 == k && i % 4 == suit_pos(s));
        lemma_rank_at_value(k);
        assert(rank_at(k) == c.rank);
        assert(suit_at(suit_pos(s)) == s);
    }
}

/// A new deck holds 54 different cards: every card that can occur in a deck
/// (thirteen ranks in four suits, and the two jokers) exactly once, and no
/// other card.
pub proof fn lemma_full_deck()
    ensures
        full_deck().len() == 54,
        full_deck().no_duplicates(),
        forall|c: Card| #[trigger] full_deck().to_multiset().count(c) == if real_card(c) {
            1nat
        } else {
            0nat
        },
{
    let d = full_deck();
    assert forall|i: int, j: int| 0 <= i < d.len() && 0 <= j < d.len() && i != j implies d[i]
        != d[j] by {
        lemma_deck_index_of_card(i);
        lemma_deck_index_of_card(j);
    }
    d.lemma_multiset_has_no_duplicates();
    assert forall|c: Card| #[trigger] d.to_multiset().count(c) == if real_card(c) {
        1nat
    } else {
        0nat
    } by {
        if real_card(c) {
            lemma_card_at_deck_index(c);
            assert(d[deck_index(c)] == c);
            assert(d.contains(c));
        } else {
            if d.contains(c) {
                let i = choose|i: int| 0 <= i < d.len() && d[i] == c;
                lemma_deck_index_of_card(i);
            }
        }
    }
}

} // verus!
