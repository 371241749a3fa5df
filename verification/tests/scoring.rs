use sabacc_core::card::{Card, Family};
use sabacc_core::error::GameError;
use sabacc_core::hand::{Hand, HandRank};
use sabacc_core::scoring::{compare_ranks, evaluate_hand, resolve_round, ActiveModifiers, ImpostorChoice};

fn no_modifiers() -> ActiveModifiers {
    ActiveModifiers::default()
}

#[test]
fn pure_sabacc() {
    let hand = Hand::new(Card::sylop(Family::Sand), Card::sylop(Family::Blood)).unwrap();
    let rank = evaluate_hand(&hand, None, &no_modifiers(), 0).unwrap();
    assert_eq!(rank, HandRank::PureSabacc);
}

#[test]
fn sylop_sabacc() {
    let hand = Hand::new(Card::sylop(Family::Sand), Card::number(Family::Blood, 3)).unwrap();
    let rank = evaluate_hand(&hand, None, &no_modifiers(), 0).unwrap();
    assert_eq!(rank, HandRank::SylopSabacc { value: 3 });
}

#[test]
fn sylop_sabacc_blood_sylop() {
    let hand = Hand::new(Card::number(Family::Sand, 5), Card::sylop(Family::Blood)).unwrap();
    let rank = evaluate_hand(&hand, None, &no_modifiers(), 0).unwrap();
    assert_eq!(rank, HandRank::SylopSabacc { value: 5 });
}

#[test]
fn sabacc_pair() {
    let hand = Hand::new(Card::number(Family::Sand, 4), Card::number(Family::Blood, 4)).unwrap();
    let rank = evaluate_hand(&hand, None, &no_modifiers(), 0).unwrap();
    assert_eq!(rank, HandRank::Sabacc { pair_value: 4 });
}

#[test]
fn non_sabacc() {
    let hand = Hand::new(Card::number(Family::Sand, 6), Card::number(Family::Blood, 2)).unwrap();
    let rank = evaluate_hand(&hand, None, &no_modifiers(), 0).unwrap();
    assert_eq!(rank, HandRank::NonSabacc { difference: 4 });
}

#[test]
fn impostor_makes_sabacc() {
    let hand = Hand::new(Card::impostor(Family::Sand), Card::number(Family::Blood, 3)).unwrap();
    let choice = ImpostorChoice { player_id: 0, die1: 3, die2: 5, sand_choice: Some(3), blood_choice: None };
    choice.validate().unwrap();
    let rank = evaluate_hand(&hand, Some(&choice), &no_modifiers(), 0).unwrap();
    assert_eq!(rank, HandRank::Sabacc { pair_value: 3 });
}

#[test]
fn impostor_non_sabacc() {
    let hand = Hand::new(Card::impostor(Family::Sand), Card::number(Family::Blood, 3)).unwrap();
    let choice = ImpostorChoice { player_id: 0, die1: 2, die2: 5, sand_choice: Some(5), blood_choice: None };
    choice.validate().unwrap();
    let rank = evaluate_hand(&hand, Some(&choice), &no_modifiers(), 0).unwrap();
    assert_eq!(rank, HandRank::NonSabacc { difference: 2 });
}

#[test]
fn double_impostor() {
    let hand = Hand::new(Card::impostor(Family::Sand), Card::impostor(Family::Blood)).unwrap();
    let choice = ImpostorChoice { player_id: 0, die1: 4, die2: 4, sand_choice: Some(4), blood_choice: Some(4) };
    choice.validate().unwrap();
    let rank = evaluate_hand(&hand, Some(&choice), &no_modifiers(), 0).unwrap();
    assert_eq!(rank, HandRank::Sabacc { pair_value: 4 });
}

#[test]
fn sylop_plus_impostor() {
    let hand = Hand::new(Card::sylop(Family::Sand), Card::impostor(Family::Blood)).unwrap();
    let choice = ImpostorChoice { player_id: 0, die1: 2, die2: 5, sand_choice: None, blood_choice: Some(2) };
    choice.validate().unwrap();
    let rank = evaluate_hand(&hand, Some(&choice), &no_modifiers(), 0).unwrap();
    assert_eq!(rank, HandRank::SylopSabacc { value: 2 });
}

#[test]
fn invalid_die_choice() {
    let choice = ImpostorChoice { player_id: 0, die1: 2, die2: 5, sand_choice: Some(3), blood_choice: None };
    assert!(choice.validate().is_err());
}

#[test]
fn compare_ranks_basic() {
    let mods = no_modifiers();
    let pure = HandRank::PureSabacc;
    let sabacc = HandRank::Sabacc { pair_value: 1 };
    assert_eq!(compare_ranks(&pure, &sabacc, &mods), std::cmp::Ordering::Less);
}

#[test]
fn scoring_sabacc_1_beats_sabacc_6() {
    let mods = no_modifiers();
    let s1 = HandRank::Sabacc { pair_value: 1 };
    let s6 = HandRank::Sabacc { pair_value: 6 };
    assert_eq!(compare_ranks(&s1, &s6, &mods), std::cmp::Ordering::Less);
}

#[test]
fn resolve_round_winner_gets_chips_back() {
    let mods = no_modifiers();
    let players = vec![(0, HandRank::Sabacc { pair_value: 1 }, 3), (1, HandRank::NonSabacc { difference: 4 }, 2)];
    let results = resolve_round(&players, &mods);
    assert_eq!(results.len(), 2);
    let winner = &results[0];
    assert!(winner.is_winner);
    assert_eq!(winner.penalty, 0);
    let loser = &results[1];
    assert!(!loser.is_winner);
    assert_eq!(loser.penalty, 4);
}

#[test]
fn resolve_round_losing_sabacc_penalty_1() {
    let mods = no_modifiers();
    let players = vec![(0, HandRank::Sabacc { pair_value: 1 }, 3), (1, HandRank::Sabacc { pair_value: 6 }, 2)];
    let results = resolve_round(&players, &mods);
    let loser = &results[1];
    assert!(!loser.is_winner);
    assert_eq!(loser.penalty, 1);
}

#[test]
fn resolve_round_tie() {
    let mods = no_modifiers();
    let players = vec![(0, HandRank::Sabacc { pair_value: 3 }, 2), (1, HandRank::Sabacc { pair_value: 3 }, 2)];
    let results = resolve_round(&players, &mods);
    assert!(results[0].is_winner);
    assert!(results[1].is_winner);
    assert_eq!(results[0].penalty, 0);
    assert_eq!(results[1].penalty, 0);
}

#[test]
fn cook_the_books_inverts_sabacc() {
    let mods = ActiveModifiers { cook_the_books_active: true, ..Default::default() };
    let s1 = HandRank::Sabacc { pair_value: 1 };
    let s6 = HandRank::Sabacc { pair_value: 6 };
    assert_eq!(compare_ranks(&s6, &s1, &mods), std::cmp::Ordering::Less);
}

#[test]
fn markdown_breaks_sylop() {
    let mods = ActiveModifiers { markdown_active: true, ..Default::default() };
    let hand = Hand::new(Card::sylop(Family::Sand), Card::number(Family::Blood, 3)).unwrap();
    let rank = evaluate_hand(&hand, None, &mods, 0).unwrap();
    assert_eq!(rank, HandRank::NonSabacc { difference: 3 });
}

#[test]
fn impostor_without_choice_is_an_error() {
    let hand = Hand::new(Card::impostor(Family::Sand), Card::number(Family::Blood, 3)).unwrap();
    assert_eq!(
        evaluate_hand(&hand, None, &no_modifiers(), 4),
        Err(GameError::ImpostorChoiceRequired { player_id: 4 })
    );
}

#[test]
fn die_choice_error_reports_the_dice() {
    let choice = ImpostorChoice { player_id: 0, die1: 2, die2: 5, sand_choice: None, blood_choice: Some(6) };
    assert_eq!(choice.validate(), Err(GameError::InvalidDieChoice { chosen: 6, die1: 2, die2: 5 }));
}

#[test]
fn compare_ranks_equal_and_greater() {
    let mods = no_modifiers();
    let a = HandRank::NonSabacc { difference: 2 };
    let b = HandRank::NonSabacc { difference: 2 };
    assert_eq!(compare_ranks(&a, &b, &mods), std::cmp::Ordering::Equal);
    assert_eq!(compare_ranks(&HandRank::NonSabacc { difference: 1 }, &HandRank::PureSabacc, &mods), std::cmp::Ordering::Greater);
}

#[test]
fn every_round_has_a_winner() {
    let mods = no_modifiers();
    let players = vec![
        (0, HandRank::NonSabacc { difference: 5 }, 1),
        (1, HandRank::NonSabacc { difference: 3 }, 1),
        (2, HandRank::NonSabacc { difference: 4 }, 1),
    ];
    let results = resolve_round(&players, &mods);
    assert_eq!(results.iter().filter(|r| r.is_winner).count(), 1);
    assert!(results[1].is_winner);
    assert_eq!(results[0].penalty, 5);
    assert_eq!(results[2].penalty, 4);
}
