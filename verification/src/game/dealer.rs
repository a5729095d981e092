//! The deck of 54 cards, shuffling, and the first deal of a game.

use vstd::prelude::*;
use vstd::multiset::Multiset;
use crate::card::{Card, Cards, Rank, Suit};
use crate::card::cards::{cards_display, sort_cards, sorted_by_key};
use crate::rules::rank_at;
use crate::text::join2;

verus! {

broadcast use {vstd::seq_lib::group_to_multiset_ensures, vstd::multiset::group_multiset_axioms};

/// The suit at position `k` of the deck's suit order: spades, hearts,
/// diamonds, clubs.
pub open spec fn suit_at(k: int) -> Suit {
    if k <= 0 {
        Suit::Spades
    } else if k == 1 {
        Suit::Hearts
    } else if k == 2 {
        Suit::Diamonds
    } else {
        Suit::Clubs
    }
}

/// The card at position `i` of a new deck: the normal cards by rank from
/// Three to Two, each rank in the suit order of `suit_at`, then the small
/// joker and the big joker.
pub open spec fn deck_card(i: int) -> Card {
    if i < 52 {
        Card { rank: rank_at(i / 4), suit: Some(suit_at(i % 4)) }
    } else if i == 52 {
        Card { rank: Rank::JokerSmall, suit: None }
    } else {
        Card { rank: Rank::JokerBig, suit: None }
    }
}

/// The 54 cards of a new deck, in order.
pub open spec fn full_deck() -> Seq<Card> {
    Seq::new(54, |i: int| deck_card(i))
}

/// A deck of cards.
pub struct Deck {
    /// The cards of the deck.
    pub cards: Cards,
}

/// Shuffles the cards in place with `rand::seq::SliceRandom::shuffle` and the
/// thread's random number generator (`rand::thread_rng`).
///
/// The shuffle only swaps cards, so the same cards come out, each as often as
/// before; the order that comes out rests on chance and is left unsaid.
#[verifier::external_body]
fn shuffle_cards(cards: &mut Cards)
    ensures
        final(cards)@.to_multiset() == old(cards)@.to_multiset(),
{
    let mut rng = rand::thread_rng();
    rand::seq::SliceRandom::shuffle(cards.as_mut_slice(), &mut rng);
}

/// The suit at position `k` of the deck's suit order.
fn suit_at_exec(k: usize) -> (s: Suit)
    requires
        k < 4,
    ensures
        s == suit_at(k as int),
{
    Suit::ALL[k]
}

impl Deck {
    /// A new deck of 54 cards, not shuffled: for each rank from Three to Two
    /// the four suits in the order spades, hearts, diamonds, clubs; then the
    /// small joker and the big joker.
    pub fn new() -> (d: Deck)
        ensures
            d.cards@ == full_deck(),
    {
        let mut cards = Cards::with_capacity(54);
        let mut k: usize = 0;
        while k < 15
            invariant
                k <= 15,
                cards@.len() == 4 * (if k < 13 { k } else { 13 }),
                forall|i: int| 0 <= i < cards@.len() ==> cards@[i] == deck_card(i),
            decreases 15 - k,
        {
            let rank = crate::rules::rank_at_exec(k);
            if rank.is_joker() {
                k = k + 1;
                continue;
            }
            assert(k < 13);
            let mut j: usize = 0;
            while j < 4
                invariant
                    k < 13,
                    rank == rank_at(k as int),
                    j <= 4,
                    cards@.len() == 4 * k + j,
                    forall|i: int| 0 <= i < cards@.len() ==> cards@[i] == deck_card(i),
                decreases 4 - j,
            {
                let suit = suit_at_exec(j);
                let ghost at: int = 4 * k + j;
                assert(at / 4 == k && at % 4 == j) by (nonlinear_arith)
                    requires
                        at == 4 * k + j,
                        0 <= j < 4,
                ;
                cards.add(Card { rank, suit: Some(suit) });
                j = j + 1;
            }
            k = k + 1;
        }
        cards.add(Card { rank: Rank::JokerSmall, suit: None });
        cards.add(Card { rank: Rank::JokerBig, suit: None });
        assert(cards@ =~= full_deck());
        Deck { cards }
    }

    /// Shuffles the deck: the same cards, in an order left to chance.
    pub fn shuffle(&mut self)
        ensures
            final(self).cards@.to_multiset() == old(self).cards@.to_multiset(),
    {
        shuffle_cards(&mut self.cards);
    }
}

impl Default for Deck {
    fn default() -> (d: Deck)
        ensures
            d.cards@ == full_deck(),
    {
        Deck::new()
    }
}

/// The first deal of a game: seventeen cards for each of the three players
/// and the three landlord's cards.
pub struct InitialDeal {
    /// The hands of the three players.
    pub player_hands: [Cards; 3],
    /// The landlord's cards.
    pub landlord_cards: Cards,
}

/// Whether `deal` is what dealing the sequence `d` gives: its first three
/// runs of seventeen cards to the three players, the next three to the
/// landlord, each part sorted.
pub open spec fn dealt_from(deal: InitialDeal, d: Seq<Card>) -> bool {
    &&& deal.player_hands[0]@ == sort_cards(d.subrange(0, 17))
    &&& deal.player_hands[1]@ == sort_cards(d.subrange(17, 34))
    &&& deal.player_hands[2]@ == sort_cards(d.subrange(34, 51))
    &&& deal.landlord_cards@ == sort_cards(d.subrange(51, 54))
}

/// All the cards of a deal.
pub open spec fn deal_cards(deal: InitialDeal) -> Multiset<Card> {
    deal.player_hands[0]@.to_multiset().add(deal.player_hands[1]@.to_multiset()).add(
        deal.player_hands[2]@.to_multiset(),
    ).add(deal.landlord_cards@.to_multiset())
}

/// Whether a deal is one of a full deck: seventeen cards for each player and
/// three for the landlord, each part sorted, 54 cards in all, each card of
/// the deck once.
pub open spec fn fresh_deal(deal: InitialDeal) -> bool {
    &&& deal_cards(deal) == full_deck().to_multiset()
    &&& deal.player_hands[0]@.len() == 17
    &&& deal.player_hands[1]@.len() == 17
    &&& deal.player_hands[2]@.len() == 17
    &&& deal.landlord_cards@.len() == 3
    &&& sorted_by_key(deal.player_hands[0]@)
    &&& sorted_by_key(deal.player_hands[1]@)
    &&& sorted_by_key(deal.player_hands[2]@)
    &&& sorted_by_key(deal.landlord_cards@)
}

/// How a deal is shown: one line for each player's hand, then one for the
/// landlord's cards.
pub open spec fn deal_display(deal: InitialDeal) -> Seq<char> {
    "玩家1的牌: "@ + cards_display(deal.player_hands[0]@) + "\n玩家2的牌: "@ + cards_display(
        deal.player_hands[1]@,
    ) + "\n玩家3的牌: "@ + cards_display(deal.player_hands[2]@) + "\n地主牌: "@ + cards_display(
        deal.landlord_cards@,
    ) + "\n"@
}

/// The cards `s[from..to]`, sorted.
fn sorted_part(s: &Cards, from: usize, to: usize) -> (r: Cards)
    requires
        from <= to <= s@.len(),
    ensures
        r@ == sort_cards(s@.subrange(from as int, to as int)),
        sorted_by_key(r@),
        r@.to_multiset() == s@.subrange(from as int, to as int).to_multiset(),
        r@.len() == to - from,
{
    let v = s.as_vec();
    let mut part = Cards::with_capacity(to - from);
    let mut i: usize = from;
    while i < to
        invariant
            from <= i <= to,
            to <= v@.len(),
            v@ == s@,
            part@ == s@.subrange(from as int, i as int),
        decreases to - i,
    {
        part.add(v[i]);
        i = i + 1;
        assert(part@ =~= s@.subrange(from as int, i as int));
    }
    part.sort();
    proof {
        vstd::seq_lib::to_multiset_len(part@);
        vstd::seq_lib::to_multiset_len(s@.subrange(from as int, to as int));
    }
    part
}

impl InitialDeal {
    /// Deals the first 54 cards of `deck` in order: cards 1 to 17 to the first
    /// player, 18 to 34 to the second, 35 to 51 to the third and the last
    /// three to the landlord; each part is sorted.
    pub fn from_deck(deck: &Deck) -> (r: InitialDeal)
        requires
            deck.cards@.len() >= 54,
        ensures
            dealt_from(r, deck.cards@),
            deal_cards(r) == deck.cards@.subrange(0, 54).to_multiset(),
            r.player_hands[0]@.len() == 17,
            r.player_hands[1]@.len() == 17,
            r.player_hands[2]@.len() == 17,
            r.landlord_cards@.len() == 3,
            sorted_by_key(r.player_hands[0]@),
            sorted_by_key(r.player_hands[1]@),
            sorted_by_key(r.player_hands[2]@),
            sorted_by_key(r.landlord_cards@),
    {
        let h0 = sorted_part(&deck.cards, 0, 17);
        let h1 = sorted_part(&deck.cards, 17, 34);
        let h2 = sorted_part(&deck.cards, 34, 51);
        let ll = sorted_part(&deck.cards, 51, 54);
        proof {
            let d = deck.cards@;
            let a = d.subrange(0, 17);
            let b = d.subrange(17, 34);
            let c = d.subrange(34, 51);
            let e = d.subrange(51, 54);
            assert(d.subrange(0, 54) =~= a + b + c + e);
            vstd::seq_lib::lemma_multiset_commutative(a, b);
            vstd::seq_lib::lemma_multiset_commutative(a + b, c);
            vstd::seq_lib::lemma_multiset_commutative(a + b + c, e);
        }
        InitialDeal { player_hands: [h0, h1, h2], landlord_cards: ll }
    }

    /// A new deal from a freshly shuffled deck. The order of the shuffled
    /// deck rests on chance; whatever it is, the deal is what `from_deck`
    /// gives for it, so the four parts hold the 54 cards of a deck.
    pub fn new() -> (r: InitialDeal)
        ensures
            exists|d: Seq<Card>| #[trigger]
                d.to_multiset() == full_deck().to_multiset() && d.len() == 54 && dealt_from(r, d),
            fresh_deal(r),
    {
        let mut deck = Deck::new();
        deck.shuffle();
        proof {
            vstd::seq_lib::to_multiset_len(deck.cards@);
            vstd::seq_lib::to_multiset_len(full_deck());
            assert(deck.cards@.subrange(0, 54) =~= deck.cards@);
        }
        InitialDeal::from_deck(&deck)
    }

    /// The deal as text: `玩家1的牌: ...`, `玩家2的牌: ...`, `玩家3的牌: ...` and
    /// `地主牌: ...`, each on a line of its own.
    pub fn to_string(&self) -> (s: String)
        ensures
            s@ == deal_display(*self),
    {
        let s = join2("玩家1的牌: ", self.player_hands[0].to_string().as_str());
        let s = s.concat("\n玩家2的牌: ");
        let s = s.concat(self.player_hands[1].to_string().as_str());
        let s = s.concat("\n玩家3的牌: ");
        let s = s.concat(self.player_hands[2].to_string().as_str());
        let s = s.concat("\n地主牌: ");
        let s = s.concat(self.landlord_cards.to_string().as_str());
        s.concat("\n")
    }
}

impl Default for InitialDeal {
    fn default() -> (r: InitialDeal)
        ensures
            fresh_deal(r),
    {
        InitialDeal::new()
    }
}

} // verus!
