use poker_landlord_rs::error::{GameError, PlayError, PlayerError};

#[test]
fn test_play_error_display() {
    let err = PlayError::Invalid;
    assert_eq!(err.to_string(), "无效的出牌：卡牌组合不构成任何有效牌型");
}

#[test]
fn test_player_error_display() {
    let err = PlayerError::CardNotFound("红桃3".to_string());
    assert_eq!(err.to_string(), "手牌中没有: 红桃3");
}

#[test]
fn test_game_error_from_play_error() {
    let play_err = PlayError::Invalid;
    let game_err: GameError = play_err.into();

    match game_err {
        GameError::Play(_) => (),
        _ => panic!("Expected GameError::Play"),
    }
}

#[test]
fn test_game_error_from_player_error() {
    let player_err = PlayerError::NotLandlord;
    let game_err: GameError = player_err.into();

    match game_err {
        GameError::Player(_) => (),
        _ => panic!("Expected GameError::Player"),
    }
}

#[test]
fn test_game_error_display() {
    let game_err: GameError = PlayError::Invalid.into();
    let display_str = game_err.to_string();
    assert!(display_str.contains("牌型错误"));
}
