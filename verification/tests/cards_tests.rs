use poker_landlord_rs::card::{Card, Cards, Rank, Suit};

fn spades(rank: Rank) -> Card {
    Card::new(rank, Suit::Spades)
}

fn hearts(rank: Rank) -> Card {
    Card::new(rank, Suit::Hearts)
}

fn diamonds(rank: Rank) -> Card {
    Card::new(rank, Suit::Diamonds)
}

fn clubs(rank: Rank) -> Card {
    Card::new(rank, Suit::Clubs)
}

#[test]
fn test_new() {
    let cards = Cards::new();
    assert!(cards.is_empty());
    assert_eq!(cards.len(), 0);
}

#[test]
fn test_with_capacity() {
    let cards = Cards::with_capacity(54);
    assert_eq!(cards.len(), 0);
    assert!(cards.capacity() >= 54);
}

#[test]
fn test_from_vec() {
    let cards = Cards::from_vec(vec![
        spades(Rank::Three),
        hearts(Rank::Three),
    ]);
    assert_eq!(cards.len(), 2);
}

#[test]
fn test_from_slice() {
    let original = vec![
        spades(Rank::Three),
        hearts(Rank::Three),
    ];
    let cards = Cards::from_slice(&original);
    assert_eq!(cards.len(), 2);
    assert_eq!(cards[0], original[0]);
}

#[test]
fn test_contains_all_basic() {
    let all = Cards::from_vec(vec![
        spades(Rank::Three),
        hearts(Rank::Three),
        spades(Rank::Five),
        clubs(Rank::King),
    ]);

    let subset = Cards::from_vec(vec![
        spades(Rank::Three),
        spades(Rank::Five),
    ]);
    assert!(all.contains_all(&subset));
}

#[test]
fn test_contains_all_not_contained() {
    let all = Cards::from_vec(vec![
        spades(Rank::Three),
        hearts(Rank::Three),
    ]);
    let not_contained = Cards::from_vec(vec![spades(Rank::Ace)]);
    assert!(!all.contains_all(&not_contained));
}

#[test]
fn test_contains_all_empty() {
    let cards = Cards::from_vec(vec![spades(Rank::Three)]);
    assert!(cards.contains_all(&Cards::new()));
}

#[test]
fn test_contains_all_self() {
    let cards = Cards::from_vec(vec![spades(Rank::Three)]);
    assert!(cards.contains_all(&cards));
}

#[test]
fn test_contains_all_insufficient_count() {
    let all = Cards::from_vec(vec![
        spades(Rank::Three),
        hearts(Rank::Three),
    ]);
    let subset = Cards::from_vec(vec![
        spades(Rank::Three),
        spades(Rank::Three),
        spades(Rank::Three),
    ]);
    assert!(!all.contains_all(&subset));
}

#[test]
fn test_contains_all_larger_than_self() {
    let small = Cards::from_vec(vec![spades(Rank::Three)]);
    let large = Cards::from_vec(vec![
        spades(Rank::Three),
        hearts(Rank::Three),
    ]);
    assert!(!small.contains_all(&large));
}

#[test]
fn test_count_rank_basic() {
    let cards = Cards::from_vec(vec![
        spades(Rank::Three),
        hearts(Rank::Three),
        spades(Rank::Five),
    ]);
    assert_eq!(cards.count_rank(Rank::Three), 2);
    assert_eq!(cards.count_rank(Rank::Five), 1);
    assert_eq!(cards.count_rank(Rank::King), 0);
}

#[test]
fn test_count_rank_empty() {
    let cards = Cards::new();
    assert_eq!(cards.count_rank(Rank::Three), 0);
}

#[test]
fn test_subtract_basic() {
    let hand = Cards::from_vec(vec![
        spades(Rank::Three),
        hearts(Rank::Three),
        spades(Rank::Five),
        clubs(Rank::King),
    ]);
    let played = Cards::from_vec(vec![
        spades(Rank::Three),
        spades(Rank::Five),
    ]);

    let remaining = hand.subtract(&played);
    assert!(remaining.is_some());
    let remaining = remaining.unwrap();
    assert_eq!(remaining.len(), 2);
    assert!(remaining.contains(&hearts(Rank::Three)));
    assert!(remaining.contains(&clubs(Rank::King)));
}

#[test]
fn test_subtract_all() {
    let hand = Cards::from_vec(vec![
        spades(Rank::Three),
        hearts(Rank::Three),
    ]);
    let played = Cards::from_vec(vec![
        spades(Rank::Three),
        hearts(Rank::Three),
    ]);

    let remaining = hand.subtract(&played);
    assert!(remaining.is_some());
    assert!(remaining.unwrap().is_empty());
}

#[test]
fn test_subtract_not_enough() {
    let hand = Cards::from_vec(vec![spades(Rank::Three)]);
    let played = Cards::from_vec(vec![
        spades(Rank::Three),
        hearts(Rank::Three),
    ]);

    let remaining = hand.subtract(&played);
    assert!(remaining.is_none());
}

#[test]
fn test_subtract_empty() {
    let hand = Cards::from_vec(vec![spades(Rank::Three)]);
    let remaining = hand.subtract(&Cards::new());
    assert!(remaining.is_some());
    assert_eq!(remaining.unwrap().len(), 1);
}

#[test]
fn test_subtract_preserves_remaining() {
    let hand = Cards::from_vec(vec![
        spades(Rank::Three),
        spades(Rank::Three),
        hearts(Rank::Three),
    ]);
    let played = Cards::from_vec(vec![spades(Rank::Three)]);

    let remaining = hand.subtract(&played).unwrap();
    assert_eq!(remaining.len(), 2);
    assert_eq!(remaining.count_rank(Rank::Three), 2);
}

#[test]
fn test_remove_one_basic() {
    let mut cards = Cards::from_vec(vec![
        spades(Rank::Three),
        hearts(Rank::Three),
        spades(Rank::Five),
    ]);

    let removed = cards.remove_one(spades(Rank::Three));
    assert!(removed.is_some());
    assert_eq!(removed.unwrap(), spades(Rank::Three));
    assert_eq!(cards.len(), 2);
}

#[test]
fn test_remove_one_not_found() {
    let mut cards = Cards::from_vec(vec![spades(Rank::Three)]);

    let removed = cards.remove_one(spades(Rank::Five));
    assert!(removed.is_none());
    assert_eq!(cards.len(), 1);
}

#[test]
fn test_remove_one_first_only() {
    let mut cards = Cards::from_vec(vec![
        spades(Rank::Three),
        hearts(Rank::Three),
        spades(Rank::Three),
    ]);

    cards.remove_one(spades(Rank::Three));
    assert_eq!(cards.len(), 2);
    assert!(cards.iter().filter(|c| c.rank == Rank::Three).count() == 2);
}

#[test]
fn test_sort() {
    let mut cards = Cards::from_vec(vec![
        clubs(Rank::King),
        spades(Rank::Three),
        diamonds(Rank::Five),
        hearts(Rank::Three),
    ]);

    cards.sort();

    assert_eq!(cards[0].rank, Rank::Three);
    assert_eq!(cards[1].rank, Rank::Three);
    assert_eq!(cards[2].rank, Rank::Five);
    assert_eq!(cards[3].rank, Rank::King);
}

#[test]
fn test_sort_same_rank_different_suit() {
    let mut cards = Cards::from_vec(vec![
        hearts(Rank::Three),
        spades(Rank::Three),
        clubs(Rank::Three),
        diamonds(Rank::Three),
    ]);

    cards.sort();

    assert_eq!(cards[0].suit, Some(Suit::Diamonds));
    assert_eq!(cards[1].suit, Some(Suit::Clubs));
    assert_eq!(cards[2].suit, Some(Suit::Hearts));
    assert_eq!(cards[3].suit, Some(Suit::Spades));
}

#[test]
fn test_sorted() {
    let cards = Cards::from_vec(vec![
        clubs(Rank::King),
        spades(Rank::Three),
    ]);

    let sorted = cards.sorted();
    assert_eq!(sorted[0].rank, Rank::Three);
    assert_eq!(sorted[1].rank, Rank::King);
}

#[test]
fn test_into_iter_owned() {
    let cards = Cards::from_vec(vec![
        spades(Rank::Three),
        hearts(Rank::Three),
    ]);
    let count = cards.into_iter().count();
    assert_eq!(count, 2);
}

#[test]
fn test_into_iter_ref() {
    let cards = Cards::from_vec(vec![
        spades(Rank::Three),
        hearts(Rank::Three),
    ]);
    let count = cards.iter().count();
    assert_eq!(count, 2);
}

#[test]
fn test_into_iter_mut() {
    let mut cards = Cards::from_vec(vec![spades(Rank::Three)]);
    for card in cards.iter_mut() {
        let _ = card;
    }
}

#[test]
fn test_for_loop_iteration() {
    let cards = Cards::from_vec(vec![
        spades(Rank::Three),
        hearts(Rank::Three),
        spades(Rank::Five),
    ]);

    let mut count = 0;
    for _ in &cards {
        count += 1;
    }
    assert_eq!(count, 3);
}

#[test]
fn test_index_access() {
    let cards = Cards::from_vec(vec![
        spades(Rank::Three),
        hearts(Rank::Three),
    ]);
    assert_eq!(cards[0].rank, Rank::Three);
    assert_eq!(cards[1].rank, Rank::Three);
}

#[test]
fn test_index_mut_access() {
    let mut cards = Cards::from_vec(vec![
        spades(Rank::Three),
        hearts(Rank::Three),
    ]);
    cards[0] = spades(Rank::Five);
    assert_eq!(cards[0].rank, Rank::Five);
}

#[test]
fn test_from_iterator() {
    let cards: Cards = Cards::from_vec(vec![
        spades(Rank::Three),
        hearts(Rank::Three),
    ].into_iter().collect());

    assert_eq!(cards.len(), 2);
}

#[test]
fn test_display() {
    let cards = Cards::from_vec(vec![
        spades(Rank::Three),
        hearts(Rank::Three),
    ]);
    let s = cards.to_string();
    assert!(!s.is_empty());
}

#[test]
fn test_empty_contains_all() {
    let empty = Cards::new();
    let cards = Cards::from_vec(vec![spades(Rank::Three)]);
    assert!(!empty.contains_all(&cards));
}

#[test]
fn test_empty_subtract() {
    let empty = Cards::new();
    let result = empty.subtract(&Cards::from_vec(vec![spades(Rank::Three)]));
    assert!(result.is_none());
}

#[test]
fn test_single_card_operations() {
    let cards = Cards::from_vec(vec![spades(Rank::Three)]);

    assert_eq!(cards.len(), 1);
    assert!(!cards.is_empty());
    assert_eq!(cards.count_rank(Rank::Three), 1);
}

#[test]
fn test_bug_exploration_duplicates_in_contains_all() {
    let all = Cards::from_vec(vec![
        spades(Rank::Three),
        spades(Rank::Three),
    ]);
    let subset = Cards::from_vec(vec![
        spades(Rank::Three),
        spades(Rank::Three),
        spades(Rank::Three),
    ]);

    assert!(!all.contains_all(&subset));
}

#[test]
fn test_bug_exploration_subtract_preserves_order() {
    let hand = Cards::from_vec(vec![
        spades(Rank::Three),
        hearts(Rank::Three),
        spades(Rank::Five),
    ]);
    let played = Cards::from_vec(vec![spades(Rank::Three)]);

    let remaining = hand.subtract(&played).unwrap();
    assert_eq!(remaining.len(), 2);
    assert!(remaining.contains(&hearts(Rank::Three)));
    assert!(remaining.contains(&spades(Rank::Five)));
}

#[test]
fn test_bug_exploration_joker_handling() {
    let cards = Cards::from_vec(vec![
        Card::joker(false),
        Card::joker(true),
        spades(Rank::Three),
    ]);

    assert_eq!(cards.len(), 3);
    assert_eq!(cards.count_rank(Rank::JokerBig), 1);
    assert_eq!(cards.count_rank(Rank::JokerSmall), 1);
}

#[test]
fn test_bug_exploration_full_deck() {
    let mut deck = Cards::with_capacity(54);

    for rank in Rank::ALL.iter() {
        if rank.is_joker() {
            continue;
        }
        for suit in Suit::ALL.iter() {
            deck.push(Card::new(*rank, *suit));
        }
    }

    deck.push(Card::joker(false));
    deck.push(Card::joker(true));

    assert_eq!(deck.len(), 54);
}
