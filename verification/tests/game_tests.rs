use poker_landlord_rs::card::{Card, Cards, Rank, Suit};
use poker_landlord_rs::error::{GameError, PlayerError};
use poker_landlord_rs::game::dealer::InitialDeal;
use poker_landlord_rs::game::{Game, GameAction, GameActionResult, GamePhase, TurnOutcome};
use poker_landlord_rs::player::{PlayerType, Role};
use poker_landlord_rs::rules::{Play, PlayCategory};

fn c(rank: Rank, suit: Suit) -> Card {
    Card::new(rank, suit)
}

fn cards(v: Vec<Card>) -> Cards {
    Cards::from_vec(v)
}

fn play(v: Vec<Card>) -> Play {
    Play::new(cards(v)).unwrap()
}

fn pass() -> Play {
    Play::new(Cards::new()).unwrap()
}

fn not_allowed(r: Result<GameActionResult, GameError>, text: &str) -> bool {
    match r {
        Err(GameError::ActionNotAllowed(m)) => m == text,
        _ => false,
    }
}

/// Player 1 holds the three of diamonds and starts the bidding.
fn small_deal() -> InitialDeal {
    InitialDeal {
        player_hands: [
            cards(vec![c(Rank::Four, Suit::Spades), c(Rank::Five, Suit::Spades)]),
            cards(vec![c(Rank::Three, Suit::Diamonds), c(Rank::Six, Suit::Spades)]),
            cards(vec![c(Rank::Seven, Suit::Spades), c(Rank::Nine, Suit::Spades)]),
        ],
        landlord_cards: cards(vec![c(Rank::Eight, Suit::Spades)]),
    }
}

fn hand_of(g: &Game, i: usize) -> Vec<Card> {
    g.game_state().players[i].hand.clone().into_vec()
}

#[test]
fn test_from_deal_starts_with_three_of_diamonds() {
    let g = Game::from_deal(small_deal());
    assert_eq!(g.current_player(), 1);
    assert_eq!(
        g.phase(),
        GamePhase::Bidding { start_player: 1, pass_streak: 0, last_bidder: None }
    );
    assert!(!g.is_finished());
    assert_eq!(g.winner(), None);
    let s = g.game_state();
    assert_eq!(s.current_player, 1);
    assert_eq!(s.last_player, 1);
    assert_eq!(s.last_played_cards.category, PlayCategory::Pass);
    assert!(s.last_played_cards.cards.is_empty());
    for i in 0..3 {
        assert_eq!(s.players[i].id, i);
        assert_eq!(s.players[i].role, Role::Farmer);
        assert_eq!(s.players[i].player_type, PlayerType::Human);
    }
    assert_eq!(s.landlord_cards.len(), 1);
}

#[test]
fn test_from_deal_without_three_of_diamonds_starts_with_player_0() {
    let deal = InitialDeal {
        player_hands: [
            cards(vec![c(Rank::Four, Suit::Spades)]),
            cards(vec![c(Rank::Three, Suit::Spades)]),
            cards(vec![c(Rank::Five, Suit::Spades)]),
        ],
        landlord_cards: Cards::new(),
    };
    let g = Game::from_deal(deal);
    assert_eq!(g.current_player(), 0);
}

#[test]
fn test_two_passes_make_the_starting_player_landlord() {
    let mut g = Game::from_deal(small_deal());
    let r = g.apply_action(GameAction::Bid { player_id: 1, bid: false }).unwrap();
    assert_eq!(r, GameActionResult::BiddingContinues { next_player: 2 });
    assert_eq!(
        g.phase(),
        GamePhase::Bidding { start_player: 1, pass_streak: 1, last_bidder: None }
    );
    let r = g.apply_action(GameAction::Bid { player_id: 2, bid: false }).unwrap();
    assert_eq!(r, GameActionResult::BiddingEnded { landlord: 1 });
    assert_eq!(g.phase(), GamePhase::Playing);
    assert_eq!(g.current_player(), 1);
    let s = g.game_state();
    assert_eq!(s.players[1].role, Role::Landlord);
    assert_eq!(s.last_player, 1);
    assert_eq!(
        hand_of(&g, 1),
        vec![c(Rank::Three, Suit::Diamonds), c(Rank::Six, Suit::Spades), c(Rank::Eight, Suit::Spades)]
    );
    assert_eq!(hand_of(&g, 0).len(), 2);
    assert_eq!(hand_of(&g, 2).len(), 2);
}

#[test]
fn test_last_bidder_becomes_landlord() {
    let mut g = Game::from_deal(small_deal());
    assert_eq!(
        g.apply_action(GameAction::Bid { player_id: 1, bid: true }).unwrap(),
        GameActionResult::BiddingContinues { next_player: 2 }
    );
    assert_eq!(
        g.apply_action(GameAction::Bid { player_id: 2, bid: true }).unwrap(),
        GameActionResult::BiddingContinues { next_player: 0 }
    );
    assert_eq!(
        g.phase(),
        GamePhase::Bidding { start_player: 1, pass_streak: 0, last_bidder: Some(2) }
    );
    assert_eq!(
        g.apply_action(GameAction::Bid { player_id: 0, bid: false }).unwrap(),
        GameActionResult::BiddingContinues { next_player: 1 }
    );
    assert_eq!(
        g.apply_action(GameAction::Bid { player_id: 1, bid: false }).unwrap(),
        GameActionResult::BiddingEnded { landlord: 2 }
    );
    assert_eq!(g.current_player(), 2);
    assert_eq!(g.game_state().players[2].role, Role::Landlord);
    assert_eq!(hand_of(&g, 2).len(), 3);
}

#[test]
fn test_refused_actions_change_nothing() {
    let mut g = Game::from_deal(small_deal());
    let before = g.phase();
    let r = g.apply_action(GameAction::Bid { player_id: 0, bid: true });
    assert!(not_allowed(r, "当前不是该玩家出牌回合"));
    assert_eq!(g.phase(), before);
    assert_eq!(g.current_player(), 1);

    let r = g.apply_action(GameAction::Play {
        player_id: 1,
        play: play(vec![c(Rank::Three, Suit::Diamonds)]),
    });
    assert!(not_allowed(r, "当前阶段不是出牌阶段"));
    assert_eq!(hand_of(&g, 1).len(), 2);
    assert_eq!(g.phase(), before);
}

#[test]
fn test_play_through_to_the_end() {
    let mut g = Game::from_deal(small_deal());
    g.apply_action(GameAction::Bid { player_id: 1, bid: false }).unwrap();
    g.apply_action(GameAction::Bid { player_id: 2, bid: false }).unwrap();

    let r = g.apply_action(GameAction::Bid { player_id: 1, bid: true });
    assert!(not_allowed(r, "当前阶段不是抢地主阶段"));

    let r = g.apply_action(GameAction::Play {
        player_id: 1,
        play: play(vec![c(Rank::King, Suit::Spades)]),
    });
    match r {
        Err(GameError::Player(PlayerError::InvalidPlay(m))) => assert_eq!(m, "手牌中不存在这些卡牌"),
        _ => panic!("expected the hand to lack the card"),
    }
    assert_eq!(hand_of(&g, 1).len(), 3);

    let r = g.apply_action(GameAction::Play {
        player_id: 1,
        play: play(vec![c(Rank::Three, Suit::Diamonds)]),
    });
    assert_eq!(r.unwrap(), GameActionResult::PlayAccepted { next_player: 2 });
    assert_eq!(hand_of(&g, 1), vec![c(Rank::Six, Suit::Spades), c(Rank::Eight, Suit::Spades)]);

    let r = g.apply_action(GameAction::Play {
        player_id: 2,
        play: play(vec![c(Rank::Seven, Suit::Spades)]),
    });
    assert_eq!(r.unwrap(), GameActionResult::PlayAccepted { next_player: 0 });

    let r = g.apply_action(GameAction::Play {
        player_id: 0,
        play: play(vec![c(Rank::Five, Suit::Spades)]),
    });
    assert!(not_allowed(r, "出牌不能压过上一手牌"));

    let t = g.play_phase_turn(pass());
    assert!(matches!(t, TurnOutcome::Passed { player: 0, next_player: 1, round_reset: false }));

    let r = g.apply_action(GameAction::Play {
        player_id: 1,
        play: play(vec![c(Rank::Eight, Suit::Spades)]),
    });
    assert_eq!(r.unwrap(), GameActionResult::PlayAccepted { next_player: 2 });

    let r = g.apply_action(GameAction::Play {
        player_id: 2,
        play: play(vec![c(Rank::Nine, Suit::Spades)]),
    });
    assert_eq!(r.unwrap(), GameActionResult::GameOver { winner: 2 });
    assert!(g.is_finished());
    assert_eq!(g.winner(), Some(2));
    assert_eq!(g.phase(), GamePhase::Finished { winner: 2 });
    assert!(hand_of(&g, 2).is_empty());

    let r = g.apply_action(GameAction::Bid { player_id: 2, bid: true });
    assert!(not_allowed(r, "当前阶段不是抢地主阶段"));
    let r = g.apply_action(GameAction::Play { player_id: 2, play: pass() });
    assert!(not_allowed(r, "当前阶段不是出牌阶段"));
}

#[test]
fn test_round_resets_after_two_passes() {
    let mut g = Game::from_deal(small_deal());
    g.apply_action(GameAction::Bid { player_id: 1, bid: false }).unwrap();
    g.apply_action(GameAction::Bid { player_id: 2, bid: false }).unwrap();

    let t = g.play_phase_turn(play(vec![c(Rank::Eight, Suit::Spades)]));
    assert!(matches!(t, TurnOutcome::Played { player: 1, next_player: 2 }));
    let t = g.play_phase_turn(play(vec![c(Rank::Seven, Suit::Spades)]));
    assert!(matches!(t, TurnOutcome::CannotBeat));
    assert_eq!(g.current_player(), 2);
    let t = g.play_phase_turn(pass());
    assert!(matches!(t, TurnOutcome::Passed { player: 2, next_player: 0, round_reset: false }));
    let t = g.play_phase_turn(pass());
    assert!(matches!(t, TurnOutcome::Passed { player: 0, next_player: 1, round_reset: true }));
    let s = g.game_state();
    assert_eq!(s.last_played_cards.category, PlayCategory::Pass);
    assert!(s.last_played_cards.cards.is_empty());
    assert_eq!(s.current_player, 1);

    let t = g.play_phase_turn(play(vec![c(Rank::Three, Suit::Diamonds)]));
    assert!(matches!(t, TurnOutcome::Played { player: 1, next_player: 2 }));

    let t = g.play_phase_turn(play(vec![c(Rank::Four, Suit::Spades)]));
    assert!(matches!(t, TurnOutcome::PlayFailed(PlayerError::InvalidPlay(_))));
    assert_eq!(g.current_player(), 2);
}

#[test]
fn test_play_phase_turn_wins() {
    let mut g = Game::from_deal(small_deal());
    g.apply_action(GameAction::Bid { player_id: 1, bid: false }).unwrap();
    g.apply_action(GameAction::Bid { player_id: 2, bid: true }).unwrap();
    g.apply_action(GameAction::Bid { player_id: 0, bid: false }).unwrap();
    g.apply_action(GameAction::Bid { player_id: 1, bid: false }).unwrap();
    assert_eq!(g.current_player(), 2);
    let t = g.play_phase_turn(play(vec![c(Rank::Seven, Suit::Spades)]));
    assert!(matches!(t, TurnOutcome::Played { player: 2, next_player: 0 }));
    g.play_phase_turn(pass());
    let t = g.play_phase_turn(pass());
    assert!(matches!(t, TurnOutcome::Passed { player: 1, next_player: 2, round_reset: true }));
    let t = g.play_phase_turn(play(vec![c(Rank::Nine, Suit::Spades)]));
    assert!(matches!(t, TurnOutcome::Played { player: 2, next_player: 0 }));
    g.play_phase_turn(pass());
    g.play_phase_turn(pass());
    let t = g.play_phase_turn(play(vec![c(Rank::Eight, Suit::Spades)]));
    assert!(matches!(t, TurnOutcome::Won { player: 2 }));
    assert_eq!(g.winner(), Some(2));
    assert!(g.is_finished());
}

#[test]
fn test_play_loop_on_a_fresh_deal() {
    let deal = InitialDeal {
        player_hands: [
            cards(vec![c(Rank::Three, Suit::Diamonds), c(Rank::Nine, Suit::Spades)]),
            cards(vec![c(Rank::Five, Suit::Spades)]),
            cards(vec![c(Rank::Six, Suit::Spades)]),
        ],
        landlord_cards: Cards::new(),
    };
    let mut g = Game::from_deal(deal);
    let t = g.play_phase_turn(play(vec![c(Rank::Nine, Suit::Spades)]));
    assert!(matches!(t, TurnOutcome::Played { player: 0, next_player: 1 }));
    let t = g.play_phase_turn(pass());
    assert!(matches!(t, TurnOutcome::Passed { player: 1, next_player: 2, round_reset: false }));
    let t = g.play_phase_turn(pass());
    assert!(matches!(t, TurnOutcome::Passed { player: 2, next_player: 0, round_reset: true }));
    let t = g.play_phase_turn(play(vec![c(Rank::Three, Suit::Diamonds)]));
    assert!(matches!(t, TurnOutcome::Won { player: 0 }));
    let s = g.game_state();
    assert!(s.players[0].hand.is_empty());
    assert_eq!(s.players[1].hand.as_vec(), &vec![c(Rank::Five, Suit::Spades)]);
    assert_eq!(s.players[2].hand.as_vec(), &vec![c(Rank::Six, Suit::Spades)]);
    assert_eq!(s.current_player, 0);
    assert_eq!(s.last_player, 0);
    assert_eq!(s.last_played_cards.category, PlayCategory::Single);
    assert_eq!(s.last_played_cards.cards.as_vec(), &vec![c(Rank::Three, Suit::Diamonds)]);
    assert_eq!(g.winner(), Some(0));
}

#[test]
fn test_pass_through_apply_action() {
    let deal = InitialDeal {
        player_hands: [
            cards(vec![c(Rank::Four, Suit::Spades)]),
            cards(vec![c(Rank::Three, Suit::Diamonds)]),
            cards(vec![c(Rank::Five, Suit::Spades)]),
        ],
        landlord_cards: cards(vec![c(Rank::Six, Suit::Spades)]),
    };
    let mut g = Game::from_deal(deal);
    g.apply_action(GameAction::Bid { player_id: 1, bid: true }).unwrap();
    g.apply_action(GameAction::Bid { player_id: 2, bid: false }).unwrap();
    assert_eq!(
        g.apply_action(GameAction::Bid { player_id: 0, bid: false }).unwrap(),
        GameActionResult::BiddingEnded { landlord: 1 }
    );
    let r = g.apply_action(GameAction::Play {
        player_id: 1,
        play: play(vec![c(Rank::Three, Suit::Diamonds)]),
    });
    assert_eq!(r.unwrap(), GameActionResult::PlayAccepted { next_player: 2 });
    let r = g.apply_action(GameAction::Play { player_id: 2, play: pass() });
    assert_eq!(r.unwrap(), GameActionResult::PlayAccepted { next_player: 0 });
    assert_eq!(g.current_player(), 0);
    assert_eq!(hand_of(&g, 2), vec![c(Rank::Five, Suit::Spades)]);
    let r = g.apply_action(GameAction::Play { player_id: 0, play: pass() });
    assert_eq!(r.unwrap(), GameActionResult::PlayAccepted { next_player: 1 });
    let s = g.game_state();
    assert_eq!(s.last_played_cards.category, PlayCategory::Pass);
    let r = g.apply_action(GameAction::Play {
        player_id: 1,
        play: play(vec![c(Rank::Six, Suit::Spades)]),
    });
    assert_eq!(r.unwrap(), GameActionResult::GameOver { winner: 1 });
}

#[test]
fn test_bidding_ends_after_six_turns() {
    let mut g = Game::from_deal(small_deal());
    let answers = [true, false, true, false, true, false];
    let mut results = Vec::new();
    for (turn, bid) in answers.iter().enumerate() {
        results.push(g.bidding_phase_turn(turn, *bid).unwrap());
    }
    assert_eq!(results[4], GameActionResult::BiddingContinues { next_player: 0 });
    assert_eq!(results[5], GameActionResult::BiddingEnded { landlord: 2 });
    assert_eq!(g.current_player(), 2);
    assert_eq!(g.phase(), GamePhase::Playing);
    assert_eq!(g.game_state().players[2].role, Role::Landlord);
}

#[test]
fn test_bidding_phase_turn_ends_on_two_passes() {
    let mut g = Game::from_deal(small_deal());
    assert_eq!(
        g.bidding_phase_turn(0, false).unwrap(),
        GameActionResult::BiddingContinues { next_player: 2 }
    );
    assert_eq!(g.bidding_phase_turn(1, false).unwrap(), GameActionResult::BiddingEnded { landlord: 1 });
}

#[test]
fn test_set_player_type() {
    let mut g = Game::from_deal(small_deal());
    assert!(g.set_player_type(1, PlayerType::AI).is_ok());
    let s = g.game_state();
    assert_eq!(s.players[1].player_type, PlayerType::AI);
    assert_eq!(s.players[0].player_type, PlayerType::Human);
    match g.set_player_type(3, PlayerType::AI) {
        Err(GameError::InvalidPlayerId(n)) => assert_eq!(n, 3),
        _ => panic!("expected an invalid player number"),
    }
}

#[test]
fn test_new_game_deals_everything() {
    let g = Game::new_with_player_types([PlayerType::Human, PlayerType::AI, PlayerType::Human]);
    let s = g.game_state();
    let mut all: Vec<Card> = Vec::new();
    for i in 0..3 {
        assert_eq!(s.players[i].hand.len(), 17);
        all.extend(s.players[i].hand.iter().copied());
    }
    assert_eq!(s.players[1].player_type, PlayerType::AI);
    assert_eq!(s.landlord_cards.len(), 3);
    all.extend(s.landlord_cards.iter().copied());
    all.sort();
    all.dedup();
    assert_eq!(all.len(), 54);
    let three_of_diamonds = Card::new(Rank::Three, Suit::Diamonds);
    let holder = (0..3).find(|&i| s.players[i].hand.contains(&three_of_diamonds)).unwrap_or(0);
    assert_eq!(g.current_player(), holder);
    assert_eq!(
        g.phase(),
        GamePhase::Bidding { start_player: holder, pass_streak: 0, last_bidder: None }
    );
    let d = Game::default();
    assert!(!d.is_finished());
}

#[test]
fn test_phase_debug_text() {
    let phases = [
        GamePhase::Bidding { start_player: 1, pass_streak: 0, last_bidder: None },
        GamePhase::Bidding { start_player: 0, pass_streak: 1, last_bidder: Some(2) },
        GamePhase::Playing,
        GamePhase::Finished { winner: 2 },
    ];
    for p in phases.iter() {
        assert_eq!(p.debug_string(), format!("{:?}", p));
    }
    assert_eq!(GamePhase::Playing.debug_string(), "Playing");
}

fn held(g: &Game) -> Vec<Card> {
    let s = g.game_state();
    let mut all: Vec<Card> = Vec::new();
    for p in s.players.iter() {
        all.extend(p.hand.iter().copied());
    }
    if matches!(s.phase, GamePhase::Bidding { .. }) {
        all.extend(s.landlord_cards.iter().copied());
    }
    all.sort();
    all
}

#[test]
fn test_cards_are_conserved() {
    let mut g = Game::from_deal(small_deal());
    let start = held(&g);
    assert_eq!(start.len(), 7);
    g.apply_action(GameAction::Bid { player_id: 1, bid: false }).unwrap();
    assert_eq!(held(&g), start);
    g.apply_action(GameAction::Bid { player_id: 2, bid: false }).unwrap();
    assert_eq!(held(&g), start);
    g.apply_action(GameAction::Play { player_id: 1, play: play(vec![c(Rank::Six, Suit::Spades)]) })
        .unwrap();
    let mut expected = start.clone();
    expected.retain(|x| *x != c(Rank::Six, Suit::Spades));
    assert_eq!(held(&g), expected);
}

#[test]
fn test_current_player_type() {
    let mut g = Game::from_deal(small_deal());
    assert_eq!(g.current_player_type(), PlayerType::Human);
    g.set_player_type(1, PlayerType::AI).unwrap();
    assert_eq!(g.current_player_type(), PlayerType::AI);
    g.apply_action(GameAction::Bid { player_id: 1, bid: false }).unwrap();
    assert_eq!(g.current_player_type(), PlayerType::Human);
}
