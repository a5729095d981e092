use poker_landlord_rs::card::{Card, Cards, Rank, Suit};
use poker_landlord_rs::rules::Play;

fn pair(rank: Rank) -> Cards {
    let mut cards = Cards::new();
    cards.push(Card::new(rank, Suit::Spades));
    cards.push(Card::new(rank, Suit::Hearts));
    cards
}

fn bomb(rank: Rank) -> Cards {
    let mut cards = Cards::new();
    cards.push(Card::new(rank, Suit::Spades));
    cards.push(Card::new(rank, Suit::Hearts));
    cards.push(Card::new(rank, Suit::Diamonds));
    cards.push(Card::new(rank, Suit::Clubs));
    cards
}

#[test]
fn test_pair_comparison() {
    let pair_3 = Play::new(pair(Rank::Three)).unwrap();
    let pair_5 = Play::new(pair(Rank::Five)).unwrap();

    assert!(pair_5.can_beat(&pair_3));
    assert!(!pair_3.can_beat(&pair_5));
}

#[test]
fn test_bomb_comparison() {
    let bomb_3 = Play::new(bomb(Rank::Three)).unwrap();
    let bomb_5 = Play::new(bomb(Rank::Five)).unwrap();

    assert!(bomb_5.can_beat(&bomb_3));
}

#[test]
fn test_pair_sequence_comparison() {
    let mut cards_3_4_5 = Cards::new();
    cards_3_4_5.push(Card::new(Rank::Three, Suit::Spades));
    cards_3_4_5.push(Card::new(Rank::Three, Suit::Hearts));
    cards_3_4_5.push(Card::new(Rank::Four, Suit::Spades));
    cards_3_4_5.push(Card::new(Rank::Four, Suit::Hearts));
    cards_3_4_5.push(Card::new(Rank::Five, Suit::Spades));
    cards_3_4_5.push(Card::new(Rank::Five, Suit::Hearts));

    let mut cards_4_5_6 = Cards::new();
    cards_4_5_6.push(Card::new(Rank::Four, Suit::Spades));
    cards_4_5_6.push(Card::new(Rank::Four, Suit::Hearts));
    cards_4_5_6.push(Card::new(Rank::Five, Suit::Spades));
    cards_4_5_6.push(Card::new(Rank::Five, Suit::Hearts));
    cards_4_5_6.push(Card::new(Rank::Six, Suit::Spades));
    cards_4_5_6.push(Card::new(Rank::Six, Suit::Hearts));

    let pair_seq1 = Play::new(cards_3_4_5).unwrap();
    let pair_seq2 = Play::new(cards_4_5_6).unwrap();

    assert!(pair_seq2.can_beat(&pair_seq1));
}

#[test]
fn test_pair_sequence_() {
    let mut cards_3_4_5 = Cards::new();
    cards_3_4_5.push(Card::new(Rank::Three, Suit::Spades));
    cards_3_4_5.push(Card::new(Rank::Three, Suit::Hearts));
    cards_3_4_5.push(Card::new(Rank::Four, Suit::Spades));
    cards_3_4_5.push(Card::new(Rank::Four, Suit::Hearts));
    cards_3_4_5.push(Card::new(Rank::Five, Suit::Spades));
    cards_3_4_5.push(Card::new(Rank::Five, Suit::Hearts));
    let cards_pass = Cards::new();
    let pair_seq = Play::new(cards_3_4_5).unwrap();
    let pass = Play::new(cards_pass).unwrap();
    assert!(pair_seq.can_beat(&pass));
}
