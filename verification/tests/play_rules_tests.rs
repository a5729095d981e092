use poker_landlord_rs::card::{Card, Cards, Rank, Suit};
use poker_landlord_rs::error::PlayError;
use poker_landlord_rs::rules::{classify_play, is_valid_play, Play, PlayCategory};

fn c(rank: Rank, suit: Suit) -> Card {
    Card::new(rank, suit)
}

fn of_ranks(ranks: &[Rank]) -> Cards {
    let suits = [Suit::Spades, Suit::Hearts, Suit::Diamonds, Suit::Clubs];
    let mut v = Vec::new();
    let mut seen: Vec<Rank> = Vec::new();
    for r in ranks {
        let k = seen.iter().filter(|x| *x == r).count();
        seen.push(*r);
        if r.is_joker() {
            v.push(Card::joker(*r == Rank::JokerSmall));
        } else {
            v.push(c(*r, suits[k]));
        }
    }
    Cards::from_vec(v)
}

fn category(ranks: &[Rank]) -> Option<PlayCategory> {
    classify_play(&of_ranks(ranks))
}

fn play(ranks: &[Rank]) -> Play {
    Play::new(of_ranks(ranks)).unwrap()
}

use poker_landlord_rs::card::Rank::{
    Ace, Eight, Five, Four, Jack, JokerBig, JokerSmall, King, Nine, Queen, Seven, Six, Ten, Three, Two,
};

#[test]
fn test_categories() {
    assert_eq!(category(&[]), Some(PlayCategory::Pass));
    assert_eq!(category(&[Five]), Some(PlayCategory::Single));
    assert_eq!(category(&[Five, Five]), Some(PlayCategory::Pair));
    assert_eq!(category(&[JokerSmall, JokerBig]), Some(PlayCategory::JokerBomb));
    assert_eq!(category(&[Five, Six]), None);
    assert_eq!(category(&[Five, Five, Five]), Some(PlayCategory::Triple));
    assert_eq!(category(&[Five, Five, Five, Six]), Some(PlayCategory::ThreeWithOne));
    assert_eq!(category(&[Five, Five, Five, Five]), Some(PlayCategory::Bomb));
    assert_eq!(category(&[Five, Five, Five, Six, Six]), Some(PlayCategory::ThreeWithTwo));
    assert_eq!(category(&[Five, Five, Five, Five, Six, Six]), Some(PlayCategory::FourWithTwo));
    assert_eq!(category(&[Three, Four, Five, Six, Seven]), Some(PlayCategory::Straight));
    assert_eq!(category(&[Ten, Jack, Queen, King, Ace]), Some(PlayCategory::Straight));
    assert_eq!(category(&[Three, Three, Four, Four, Five, Five]), Some(PlayCategory::PairSequence));
    assert_eq!(category(&[Three, Three, Three, Four, Four, Four]), Some(PlayCategory::Plane));
    assert_eq!(
        category(&[Three, Three, Three, Four, Four, Four, Seven, Nine]),
        Some(PlayCategory::PlaneWithSingle)
    );
    assert_eq!(
        category(&[Three, Three, Three, Four, Four, Four, Seven, Seven, Nine, Nine]),
        Some(PlayCategory::PlaneWithPair)
    );
    assert!(is_valid_play(&of_ranks(&[Five])));
    assert!(!is_valid_play(&of_ranks(&[Five, Seven])));
}

#[test]
fn test_sequences_exclude_twos_and_jokers() {
    assert_eq!(category(&[Jack, Queen, King, Ace, Two]), None);
    assert_eq!(category(&[King, King, Ace, Ace, Two, Two]), None);
    assert_eq!(category(&[Ace, Ace, Ace, Two, Two, Two]), None);
    assert_eq!(category(&[Three, Four, Five, Six]), None);
    assert_eq!(category(&[Three, Three, Four, Four]), None);
}

#[test]
fn test_play_new_refuses_invalid_cards() {
    assert!(matches!(Play::new(of_ranks(&[Three, Five])), Err(PlayError::Invalid)));
    let p = play(&[Nine, Nine]);
    assert_eq!(p.category, PlayCategory::Pair);
    assert_eq!(p.cards.len(), 2);
}

#[test]
fn test_pass_iff_empty() {
    assert_eq!(play(&[]).category, PlayCategory::Pass);
    assert_ne!(play(&[Three]).category, PlayCategory::Pass);
}

#[test]
fn test_no_play_beats_itself() {
    for p in [play(&[]), play(&[Five]), play(&[Five, Five, Five, Five]), play(&[JokerSmall, JokerBig])] {
        assert!(!p.can_beat(&p));
    }
}

#[test]
fn test_beating_is_transitive_and_asymmetric() {
    let a = play(&[Nine]);
    let b = play(&[Seven]);
    let pass = play(&[]);
    assert!(a.can_beat(&b));
    assert!(b.can_beat(&pass));
    assert!(a.can_beat(&pass));
    assert!(!b.can_beat(&a));
    assert!(!pass.can_beat(&b));
}

#[test]
fn test_joker_bomb_is_strongest() {
    let jb = play(&[JokerSmall, JokerBig]);
    let bomb = play(&[Two, Two, Two, Two]);
    let single = play(&[JokerBig]);
    assert!(jb.can_beat(&bomb));
    assert!(jb.can_beat(&single));
    assert!(!bomb.can_beat(&jb));
    assert!(!single.can_beat(&jb));
}

#[test]
fn test_bomb_beats_other_categories() {
    let bomb = play(&[Three, Three, Three, Three]);
    assert!(bomb.can_beat(&play(&[Two, Two])));
    assert!(bomb.can_beat(&play(&[Three, Four, Five, Six, Seven, Eight])));
    assert!(bomb.can_beat(&play(&[Ace, Ace, Ace, King])));
    assert!(!play(&[Two, Two]).can_beat(&bomb));
}

#[test]
fn test_pass_is_weakest() {
    let pass = play(&[]);
    assert!(play(&[Three]).can_beat(&pass));
    assert!(!pass.can_beat(&play(&[Three])));
    assert!(!pass.can_beat(&pass));
}

#[test]
fn test_same_category_compares_main_rank() {
    assert!(play(&[Four, Four, Four, Three]).can_beat(&play(&[Three, Three, Three, Ace])));
    assert!(!play(&[Three, Three, Three, Ace]).can_beat(&play(&[Four, Four, Four, Three])));
    assert!(play(&[Four, Five, Six, Seven, Eight]).can_beat(&play(&[Three, Four, Five, Six, Seven])));
    assert!(!play(&[Five]).can_beat(&play(&[Seven, Seven])));
}

#[test]
fn test_category_does_not_depend_on_order() {
    let a = Cards::from_vec(vec![c(Four, Suit::Spades), c(Three, Suit::Hearts), c(Four, Suit::Hearts), c(Three, Suit::Spades), c(Four, Suit::Clubs)]);
    let b = Cards::from_vec(vec![c(Three, Suit::Spades), c(Three, Suit::Hearts), c(Four, Suit::Spades), c(Four, Suit::Hearts), c(Four, Suit::Clubs)]);
    assert_eq!(classify_play(&a), classify_play(&b));
    assert_eq!(classify_play(&a), Some(PlayCategory::ThreeWithTwo));
}

#[test]
fn test_category_sizes() {
    assert_eq!(category(&[Three, Four, Five, Six, Seven, Eight, Nine, Ten, Jack, Queen, King, Ace]), Some(PlayCategory::Straight));
    assert_eq!(category(&[Three, Three, Four, Four, Five, Five, Six]), None);
    assert_eq!(category(&[Three, Three, Three, Four, Four, Four, Five]), None);
}

#[test]
fn test_three_with_one_is_ranked_by_its_triple() {
    let kings_kicker = Play::new(Cards::from_vec(vec![
        c(King, Suit::Spades),
        c(Four, Suit::Spades),
        c(Four, Suit::Hearts),
        c(Four, Suit::Diamonds),
    ]))
    .unwrap();
    assert_eq!(kings_kicker.category, PlayCategory::ThreeWithOne);
    let fives = play(&[Five, Five, Five, Three]);
    assert!(fives.can_beat(&kings_kicker));
    assert!(!kings_kicker.can_beat(&fives));
    let threes_ace = play(&[Three, Three, Three, Ace]);
    assert!(kings_kicker.can_beat(&threes_ace));
    assert!(play(&[Six, Six, Six, Three, Three]).can_beat(&play(&[Ace, Ace, Five, Five, Five])));
    assert!(play(&[Four, Four, Four, Four, Three, Three]).can_beat(&play(&[Ace, Ace, Three, Three, Three, Three])));
}

#[test]
fn test_sequences_compare_only_at_equal_length() {
    let six = play(&[Four, Five, Six, Seven, Eight, Nine]);
    let five = play(&[Three, Four, Five, Six, Seven]);
    assert!(!six.can_beat(&five));
    assert!(!five.can_beat(&six));
    assert!(play(&[Four, Five, Six, Seven, Eight]).can_beat(&five));
    let pairs4 = play(&[Five, Five, Six, Six, Seven, Seven, Eight, Eight]);
    let pairs3 = play(&[Three, Three, Four, Four, Five, Five]);
    assert!(!pairs4.can_beat(&pairs3));
    assert!(play(&[Four, Four, Five, Five, Six, Six]).can_beat(&pairs3));
}

#[test]
fn test_planes_are_ranked_by_their_highest_card() {
    let low_plane_high_wings = play(&[Three, Three, Three, Four, Four, Four, King, Ace]);
    let high_plane_low_wings = play(&[Five, Five, Five, Six, Six, Six, Seven, Eight]);
    assert_eq!(low_plane_high_wings.category, PlayCategory::PlaneWithSingle);
    assert!(low_plane_high_wings.can_beat(&high_plane_low_wings));
    assert!(!high_plane_low_wings.can_beat(&low_plane_high_wings));
    assert!(play(&[Five, Five, Five, Six, Six, Six]).can_beat(&play(&[Three, Three, Three, Four, Four, Four])));
    let longer = play(&[Five, Five, Five, Six, Six, Six, Seven, Seven, Seven]);
    assert!(!longer.can_beat(&play(&[Three, Three, Three, Four, Four, Four])));
}
