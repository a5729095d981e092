use poker_landlord_rs::card::parser::tokenize_card_input;
use poker_landlord_rs::card::{Card, Cards, Rank, Suit};
use poker_landlord_rs::error::{CardError, PlayerError};
use poker_landlord_rs::game::bidding::parse_yes_no;
use poker_landlord_rs::player::{Player, PlayerType, Role};
use poker_landlord_rs::rules::PlayCategory;

fn c(rank: Rank, suit: Suit) -> Card {
    Card::new(rank, suit)
}

fn strings(v: &[&str]) -> Vec<String> {
    v.iter().map(|s| s.to_string()).collect()
}

fn hand() -> Cards {
    Cards::from_vec(vec![
        c(Rank::Three, Suit::Diamonds),
        c(Rank::Three, Suit::Spades),
        c(Rank::Four, Suit::Hearts),
        c(Rank::Ten, Suit::Clubs),
        Card::joker(true),
        Card::joker(false),
    ])
}

#[test]
fn test_tokenize_documented_inputs() {
    assert_eq!(tokenize_card_input("3 3 4 5"), strings(&["3", "3", "4", "5"]));
    assert_eq!(tokenize_card_input("3345"), strings(&["3", "3", "4", "5"]));
    assert_eq!(tokenize_card_input("33 4 5"), strings(&["3", "3", "4", "5"]));
    assert_eq!(tokenize_card_input("small big"), strings(&["small", "big"]));
    assert_eq!(tokenize_card_input("s b"), strings(&["s", "b"]));
    assert_eq!(tokenize_card_input("sj"), strings(&["s", "j"]));
    assert_eq!(tokenize_card_input("jack queen king ace"), strings(&["jack", "queen", "king", "ace"]));
    assert_eq!(tokenize_card_input("j q k a"), strings(&["j", "q", "k", "a"]));
    assert_eq!(tokenize_card_input("10 0"), strings(&["10", "10"]));
    assert_eq!(tokenize_card_input("1 ♠♥"), strings(&[]));
    assert_eq!(tokenize_card_input("jokersmall jokerbig"), strings(&["jokersmall", "jokerbig"]));
    assert_eq!(
        tokenize_card_input("JokerSmall JOKERBIG"),
        strings(&["J", "k", "S", "a", "J", "K", "B"])
    );
    assert_eq!(tokenize_card_input(""), strings(&[]));
    assert_eq!(tokenize_card_input("  \t\n "), strings(&[]));
    assert_eq!(tokenize_card_input("s3 h4 d5"), strings(&["3", "4", "5"]));
    assert_eq!(tokenize_card_input("S10 c2"), strings(&["10", "2"]));
    assert_eq!(tokenize_card_input("小王 大王"), strings(&["小王", "大王"]));
    assert_eq!(tokenize_card_input("小王大王"), strings(&["小王", "大王"]));
}

#[test]
fn test_parse_rank_and_suit() {
    assert_eq!(Rank::from_str(" 10 ").unwrap(), Rank::Ten);
    assert_eq!(Rank::from_str("Q").unwrap(), Rank::Queen);
    assert_eq!(Rank::from_str("小王").unwrap(), Rank::JokerSmall);
    assert_eq!(Rank::from_str("bj").unwrap(), Rank::JokerBig);
    assert_eq!(Rank::from_str(" x ").unwrap_err(), "Invalid rank: x");
    assert_eq!("ace".parse::<Rank>().unwrap(), Rank::Ace);
    assert_eq!(Suit::from_str("♠").unwrap(), Suit::Spades);
    assert_eq!(Suit::from_str("H").unwrap(), Suit::Hearts);
    assert_eq!(Suit::from_str("Clubs").unwrap(), Suit::Clubs);
    assert_eq!(Suit::from_str("方块").unwrap(), Suit::Diamonds);
    match Suit::from_str(" x ") {
        Err(CardError::InvalidSuit(m)) => assert_eq!(m, "x"),
        _ => panic!("expected InvalidSuit"),
    }
    assert_eq!("d".parse::<Suit>().unwrap(), Suit::Diamonds);
}

#[test]
fn test_parse_card() {
    assert_eq!(Card::from_str("♠3").unwrap(), c(Rank::Three, Suit::Spades));
    assert_eq!(Card::from_str("3♠").unwrap(), c(Rank::Three, Suit::Spades));
    assert_eq!(Card::from_str("S3").unwrap(), c(Rank::Three, Suit::Spades));
    assert_eq!(Card::from_str("3S").unwrap(), c(Rank::Three, Suit::Spades));
    assert_eq!(Card::from_str(" ♥K ").unwrap(), c(Rank::King, Suit::Hearts));
    assert_eq!(Card::from_str("大王").unwrap(), Card::joker(false));
    assert_eq!(Card::from_str("sj").unwrap(), Card::joker(true));
    match Card::from_str("   ") {
        Err(CardError::InvalidCardString(m)) => assert_eq!(m, ""),
        _ => panic!("expected InvalidCardString"),
    }
    match Card::from_str("xyz") {
        Err(CardError::Other(m)) => assert_eq!(m, "Unknown error: xyz"),
        _ => panic!("expected Other"),
    }
}

#[test]
fn test_card_and_rank_text() {
    assert_eq!(c(Rank::Ten, Suit::Hearts).to_string(), "♥10");
    assert_eq!(Card::joker(true).to_string(), "小王");
    assert_eq!(Rank::Jack.to_string(), "J");
    assert_eq!(Suit::Clubs.to_string(), "♣");
    assert_eq!(Role::Landlord.to_string(), "地主");
    assert_eq!(Role::Farmer.to_string(), "农民");
    assert_eq!(hand().to_string(), "♦3 ♠3 ♥4 ♣10 小王 大王");
    assert_eq!(Cards::new().to_string(), "");
}

#[test]
fn test_card_queries() {
    let k = c(Rank::King, Suit::Hearts);
    assert!(k.is_normal());
    assert!(!k.is_joker());
    assert_eq!(k.get_suit(), Some(Suit::Hearts));
    assert!(k.has_suit(Suit::Hearts));
    assert!(!k.has_suit(Suit::Spades));
    assert!(k.matches(Rank::King, Some(Suit::Hearts)));
    assert!(!k.matches(Rank::King, None));
    let j = Card::joker(false);
    assert!(j.is_joker());
    assert_eq!(j.get_suit(), None);
    assert_eq!(Rank::Three.value(), 3);
    assert_eq!(Rank::JokerBig.value(), 17);
}

#[test]
fn test_select_cards() {
    let p = Player::new(0, hand(), Role::Farmer, PlayerType::Human);
    let chosen = p.select_cards(strings(&["3", "3", "small"])).unwrap();
    assert_eq!(
        chosen.as_vec(),
        &vec![c(Rank::Three, Suit::Diamonds), c(Rank::Three, Suit::Spades), Card::joker(true)]
    );
    match p.select_cards(strings(&["3", "3", "3"])) {
        Err(PlayerError::CardNotFound(m)) => assert_eq!(m, "3"),
        _ => panic!("expected CardNotFound"),
    }
    match p.select_cards(strings(&["x"])) {
        Err(PlayerError::InvalidInput(m)) => assert_eq!(m, "x"),
        _ => panic!("expected InvalidInput"),
    }
    assert!(p.select_cards(vec![]).unwrap().is_empty());
}

#[test]
fn test_choose_play() {
    let p = Player::new(0, hand(), Role::Farmer, PlayerType::Human);
    let play = p.choose_play_human("33").unwrap();
    assert_eq!(play.category, PlayCategory::Pair);
    let play = p.choose_play("s b").unwrap();
    assert_eq!(play.category, PlayCategory::JokerBomb);
    let play = p.choose_play("小王 大王").unwrap();
    assert_eq!(play.category, PlayCategory::JokerBomb);
    let play = p.choose_play("s3 s3").unwrap();
    assert_eq!(play.category, PlayCategory::Pair);
    let play = p.choose_play("").unwrap();
    assert_eq!(play.category, PlayCategory::Pass);
    match p.choose_play("3 4") {
        Err(PlayerError::InvalidPlay(m)) => assert_eq!(m, "手牌中不存在这些卡牌"),
        _ => panic!("expected InvalidPlay"),
    }
    let ai = Player::new(1, hand(), Role::Farmer, PlayerType::AI);
    assert_eq!(ai.choose_play_ai("10").unwrap().category, PlayCategory::Single);
    assert_eq!(ai.choose_play("10").unwrap().cards[0], c(Rank::Ten, Suit::Clubs));
}

#[test]
fn test_play_cards_and_landlord() {
    let mut p = Player::new(2, hand(), Role::Farmer, PlayerType::Human);
    assert!(!p.is_landlord());
    assert!(p.has_cards(&Cards::from_vec(vec![Card::joker(true), c(Rank::Three, Suit::Spades)])));
    assert!(!p.has_cards(&Cards::from_vec(vec![c(Rank::Five, Suit::Spades)])));
    p.play_cards(&Cards::from_vec(vec![c(Rank::Three, Suit::Spades), Card::joker(false)])).unwrap();
    assert_eq!(
        p.hand.as_vec(),
        &vec![c(Rank::Three, Suit::Diamonds), c(Rank::Four, Suit::Hearts), c(Rank::Ten, Suit::Clubs), Card::joker(true)]
    );
    match p.play_cards(&Cards::from_vec(vec![Card::joker(false)])) {
        Err(PlayerError::InvalidPlay(m)) => assert_eq!(m, "手牌中不存在这些卡牌"),
        _ => panic!("expected InvalidPlay"),
    }
    assert_eq!(p.hand.len(), 4);

    p.become_landlord(&Cards::from_vec(vec![c(Rank::Two, Suit::Spades), c(Rank::Three, Suit::Hearts)]));
    assert!(p.is_landlord());
    assert_eq!(p.role, Role::Landlord);
    assert_eq!(
        p.hand.as_vec(),
        &vec![
            c(Rank::Three, Suit::Diamonds),
            c(Rank::Three, Suit::Hearts),
            c(Rank::Four, Suit::Hearts),
            c(Rank::Ten, Suit::Clubs),
            c(Rank::Two, Suit::Spades),
            Card::joker(true),
        ]
    );
    p.add_landlord_cards(&Cards::from_vec(vec![c(Rank::Ace, Suit::Diamonds)]));
    assert_eq!(p.hand.len(), 7);
    assert_eq!(p.hand[4], c(Rank::Ace, Suit::Diamonds));
}

#[test]
fn test_yes_no_answers() {
    assert_eq!(parse_yes_no("y"), Some(true));
    assert_eq!(parse_yes_no("  YES \n"), Some(true));
    assert_eq!(parse_yes_no("n"), Some(false));
    assert_eq!(parse_yes_no("No"), Some(false));
    assert_eq!(parse_yes_no("maybe"), None);
    assert_eq!(parse_yes_no(""), None);
}

#[test]
fn test_rank_counts() {
    let h = hand();
    let counts = h.rank_counts();
    assert_eq!(counts.get(Rank::Three), Some(2));
    assert_eq!(counts.get(Rank::Five), None);
    assert_eq!(counts.count(Rank::JokerBig), 1);
    assert_eq!(h.count_all(), 6);
    assert_eq!(h.card_at(3), c(Rank::Ten, Suit::Clubs));
}

#[test]
fn test_text_reads_back() {
    for r in Rank::ALL.iter() {
        assert_eq!(Rank::from_str(&r.to_string()).unwrap(), *r);
    }
    for s in Suit::ALL.iter() {
        assert_eq!(Suit::from_str(&s.to_string()).unwrap(), *s);
    }
    let deck = poker_landlord_rs::game::dealer::Deck::new();
    for card in deck.cards.iter() {
        assert_eq!(Card::from_str(&card.to_string()).unwrap(), *card);
    }
}

#[test]
fn test_card_from_str_trait() {
    assert_eq!("♠3".parse::<Card>().unwrap(), c(Rank::Three, Suit::Spades));
    assert_eq!("3s".parse::<Card>().unwrap(), c(Rank::Three, Suit::Spades));
    assert_eq!("bj".parse::<Card>().unwrap(), Card::joker(false));
    match "ss".parse::<Card>() {
        Err(CardError::Other(m)) => assert_eq!(m, "Unknown error: ss"),
        _ => panic!("expected Other"),
    }
    match " hsj ".parse::<Card>() {
        Err(CardError::Other(m)) => assert_eq!(m, "Unknown error: hsj"),
        _ => panic!("expected Other"),
    }
    match "".parse::<Card>() {
        Err(CardError::InvalidCardString(m)) => assert_eq!(m, ""),
        _ => panic!("expected InvalidCardString"),
    }
}

#[test]
fn test_rank_counts_add_up() {
    let h = hand();
    let counts = h.rank_counts();
    let total: usize = Rank::ALL.iter().map(|r| counts.count(*r) as usize).sum();
    assert_eq!(total, h.len());
}
