use poker_landlord_rs::error::{CardError, GameError, PlayError, PlayerError};
use poker_landlord_rs::game::GamePhase;

#[test]
fn test_play_error_messages() {
    assert_eq!(PlayError::Empty.to_string(), "空牌集合");
    assert_eq!(PlayError::MismatchedType.to_string(), "牌型不匹配");
}

#[test]
fn test_player_error_messages() {
    assert_eq!(PlayerError::InvalidPlay("x".to_string()).to_string(), "无效的出牌: x");
    assert_eq!(PlayerError::AlreadyLandlord.to_string(), "玩家已是地主");
    assert_eq!(PlayerError::NotLandlord.to_string(), "玩家不是地主");
    assert_eq!(PlayerError::InvalidInput("q1".to_string()).to_string(), "无效的输入: q1");
    assert_eq!(PlayerError::NoCards.to_string(), "玩家手牌为空");
    assert_eq!(PlayerError::Other("别的".to_string()).to_string(), "别的");
    let e: PlayerError = "坏".to_string().into();
    assert!(matches!(e, PlayerError::Other(m) if m == "坏"));
}

#[test]
fn test_card_error_messages() {
    assert_eq!(CardError::InvalidRank("1".to_string()).to_string(), "无效的点数: 1");
    assert_eq!(CardError::InvalidSuit("x".to_string()).to_string(), "无效的花色: x");
    assert_eq!(CardError::InvalidCardString("".to_string()).to_string(), "无效的卡牌字符串: ");
    assert_eq!(CardError::EmptyCards.to_string(), "卡牌集合为空");
    assert_eq!(CardError::InvalidCards("重复".to_string()).to_string(), "无效的卡牌集合: 重复");
    assert_eq!(CardError::Other("o".to_string()).to_string(), "o");
    let e: CardError = "c".to_string().into();
    assert!(matches!(e, CardError::Other(m) if m == "c"));
}

#[test]
fn test_game_error_messages() {
    let e: GameError = PlayerError::NoCards.into();
    assert_eq!(e.to_string(), "玩家错误: 玩家手牌为空");
    let e: GameError = CardError::EmptyCards.into();
    assert_eq!(e.to_string(), "卡牌错误: 卡牌集合为空");
    let e: GameError = "坏".to_string().into();
    assert_eq!(e.to_string(), "错误: 坏");
    assert_eq!(GameError::Play(PlayError::Invalid).to_string(), "牌型错误: 无效的出牌：卡牌组合不构成任何有效牌型");
    assert_eq!(GameError::InvalidPlayerId(7).to_string(), "无效玩家编号: 7");
    assert_eq!(GameError::InvalidPlayerId(120).to_string(), "无效玩家编号: 120");
    assert_eq!(
        GameError::ActionNotAllowed("当前阶段不是出牌阶段".to_string()).to_string(),
        "动作不被允许: 当前阶段不是出牌阶段"
    );
    let phase = GamePhase::Bidding { start_player: 2, pass_streak: 1, last_bidder: Some(0) };
    let e = GameError::WrongPhase { expected: "Playing", actual: phase };
    assert_eq!(e.to_string(), format!("错误阶段: 期望 Playing，当前 {:?}", phase));
    let e = GameError::WrongPhase { expected: "Bidding", actual: GamePhase::Finished { winner: 1 } };
    assert_eq!(e.to_string(), "错误阶段: 期望 Bidding，当前 Finished { winner: 1 }");
}
