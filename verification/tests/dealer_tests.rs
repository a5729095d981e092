use poker_landlord_rs::card::{Card, Cards, Rank, Suit};
use poker_landlord_rs::game::dealer::{Deck, InitialDeal};

fn sorted(v: &Cards) -> Vec<Card> {
    let mut s: Vec<Card> = v.iter().copied().collect();
    s.sort();
    s
}

#[test]
fn test_new_deck_order() {
    let deck = Deck::new();
    assert_eq!(deck.cards.len(), 54);
    assert_eq!(deck.cards[0], Card::new(Rank::Three, Suit::Spades));
    assert_eq!(deck.cards[1], Card::new(Rank::Three, Suit::Hearts));
    assert_eq!(deck.cards[2], Card::new(Rank::Three, Suit::Diamonds));
    assert_eq!(deck.cards[3], Card::new(Rank::Three, Suit::Clubs));
    assert_eq!(deck.cards[4], Card::new(Rank::Four, Suit::Spades));
    assert_eq!(deck.cards[51], Card::new(Rank::Two, Suit::Clubs));
    assert_eq!(deck.cards[52], Card::joker(true));
    assert_eq!(deck.cards[53], Card::joker(false));
    assert_eq!(Deck::default().cards.len(), 54);
}

#[test]
fn test_new_deck_holds_each_card_once() {
    let deck = Deck::new();
    let mut all = sorted(&deck.cards);
    all.dedup();
    assert_eq!(all.len(), 54);
    for r in Rank::ALL.iter() {
        let expected = if r.is_joker() { 1 } else { 4 };
        assert_eq!(deck.cards.count_rank(*r), expected);
    }
}

#[test]
fn test_shuffle_keeps_the_cards() {
    let mut deck = Deck::new();
    deck.shuffle();
    assert_eq!(sorted(&deck.cards), sorted(&Deck::new().cards));
    let fresh = Deck::new();
    let mut moved = false;
    let mut tries = 0;
    while !moved && tries < 5 {
        moved = deck.cards.as_vec() != fresh.cards.as_vec();
        deck.shuffle();
        tries += 1;
    }
    assert!(moved);
}

#[test]
fn test_deal_from_unshuffled_deck() {
    let deck = Deck::new();
    let deal = InitialDeal::from_deck(&deck);
    assert_eq!(deal.player_hands[0].len(), 17);
    assert_eq!(deal.player_hands[1].len(), 17);
    assert_eq!(deal.player_hands[2].len(), 17);
    assert_eq!(deal.landlord_cards.len(), 3);
    assert_eq!(deal.player_hands[0][0], Card::new(Rank::Three, Suit::Diamonds));
    assert_eq!(deal.player_hands[0][3], Card::new(Rank::Three, Suit::Spades));
    assert_eq!(
        deal.landlord_cards.as_vec(),
        &vec![Card::new(Rank::Two, Suit::Clubs), Card::joker(true), Card::joker(false)]
    );
}

#[test]
fn test_new_deal() {
    let deal = InitialDeal::new();
    let mut all: Vec<Card> = Vec::new();
    for h in deal.player_hands.iter() {
        assert_eq!(h.len(), 17);
        assert_eq!(h.as_vec(), &sorted(h));
        all.extend(h.iter().copied());
    }
    assert_eq!(deal.landlord_cards.len(), 3);
    assert_eq!(deal.landlord_cards.as_vec(), &sorted(&deal.landlord_cards));
    all.extend(deal.landlord_cards.iter().copied());
    all.sort();
    assert_eq!(all, sorted(&Deck::new().cards));
    assert_eq!(InitialDeal::default().landlord_cards.len(), 3);
}

#[test]
fn test_deal_to_string() {
    let deal = InitialDeal {
        player_hands: [
            Cards::from_vec(vec![Card::new(Rank::Three, Suit::Spades)]),
            Cards::from_vec(vec![Card::new(Rank::Ten, Suit::Hearts), Card::new(Rank::Ace, Suit::Clubs)]),
            Cards::new(),
        ],
        landlord_cards: Cards::from_vec(vec![Card::joker(true), Card::joker(false)]),
    };
    assert_eq!(
        deal.to_string(),
        "玩家1的牌: ♠3\n玩家2的牌: ♥10 ♣A\n玩家3的牌: \n地主牌: 小王 大王\n"
    );
}
