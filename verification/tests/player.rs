use sabacc_core::error::GameError;
use sabacc_core::player::Player;
use sabacc_core::shift_token::ShiftToken;

#[test]
fn new_player() {
    let p = Player::new(0, "Alice".into(), 6, false);
    assert_eq!(p.id, 0);
    assert_eq!(p.chips, 6);
    assert_eq!(p.pot, 0);
    assert!(!p.is_eliminated);
    assert!(!p.is_bot);
}

#[test]
fn pay_chip_success() {
    let mut p = Player::new(0, "Alice".into(), 6, false);
    assert!(p.pay_chip().is_ok());
    assert_eq!(p.chips, 5);
    assert_eq!(p.pot, 1);
}

#[test]
fn pay_chip_insufficient() {
    let mut p = Player::new(0, "Alice".into(), 0, false);
    assert!(p.pay_chip().is_err());
}

#[test]
fn return_invested() {
    let mut p = Player::new(0, "Alice".into(), 6, false);
    p.pay_chip().unwrap();
    p.pay_chip().unwrap();
    assert_eq!(p.chips, 4);
    assert_eq!(p.pot, 2);
    p.return_invested();
    assert_eq!(p.chips, 6);
    assert_eq!(p.pot, 0);
}

#[test]
fn apply_penalty_partial() {
    let mut p = Player::new(0, "Alice".into(), 6, false);
    p.apply_penalty(3);
    assert_eq!(p.chips, 3);
    assert!(!p.is_eliminated);
}

#[test]
fn apply_penalty_elimination() {
    let mut p = Player::new(0, "Alice".into(), 2, false);
    p.apply_penalty(5);
    assert_eq!(p.chips, 0);
    assert!(p.is_eliminated);
}

#[test]
fn apply_penalty_exact() {
    let mut p = Player::new(0, "Alice".into(), 3, false);
    p.apply_penalty(3);
    assert_eq!(p.chips, 0);
    assert!(p.is_eliminated);
}

#[test]
fn pay_chip_error_reports_amounts() {
    let mut p = Player::new(7, "Bob".into(), 0, false);
    assert_eq!(
        p.pay_chip(),
        Err(GameError::InsufficientChips { player_id: 7, available: 0, required: 1 })
    );
    assert_eq!(p.chips, 0);
    assert_eq!(p.pot, 0);
}

#[test]
fn pay_then_refund_keeps_total() {
    let mut p = Player::new(0, "Alice".into(), 6, false);
    p.pay_chip().unwrap();
    p.pay_chip().unwrap();
    p.pay_chip().unwrap();
    assert_eq!(p.total_chips(), 6);
    assert_eq!(p.refund_chips(2), 2);
    assert_eq!(p.chips, 5);
    assert_eq!(p.pot, 1);
    assert_eq!(p.refund_chips(3), 1);
    assert_eq!(p.chips, 6);
    assert_eq!(p.pot, 0);
    assert_eq!(p.total_chips(), 6);
}

#[test]
fn tokens_are_found_and_removed_by_kind() {
    let mut p = Player::new(0, "Alice".into(), 6, false);
    p.shift_tokens = vec![ShiftToken::FreeDraw, ShiftToken::TargetTariff(1), ShiftToken::FreeDraw];
    assert!(p.has_token(&ShiftToken::TargetTariff(3)));
    assert!(!p.has_token(&ShiftToken::Refund));
    assert!(p.remove_token(&ShiftToken::FreeDraw).is_ok());
    assert_eq!(p.shift_tokens, vec![ShiftToken::TargetTariff(1), ShiftToken::FreeDraw]);
    assert_eq!(
        p.remove_token(&ShiftToken::Refund),
        Err(GameError::ShiftTokenNotOwned { player_id: 0 })
    );
}
