use rand::rngs::SmallRng;
use rand::SeedableRng;
use sabacc_core::card::{Card, Family};
use sabacc_core::deck::FamilyDeck;
use sabacc_core::hand::{Hand, HandRank};
use sabacc_core::player::Player;
use sabacc_core::round::{apply_results, check_game_over, deal_hands, players_with_impostors, resolve};
use sabacc_core::scoring::{ActiveModifiers, ImpostorChoice, RoundResult};
use sabacc_core::error::GameError;

fn test_rng() -> SmallRng {
    SmallRng::seed_from_u64(42)
}

#[test]
fn deal_hands_gives_cards() {
    let mut rng = test_rng();
    let mut sand_deck = FamilyDeck::new(Family::Sand, &mut rng);
    let mut blood_deck = FamilyDeck::new(Family::Blood, &mut rng);
    let mut players = vec![Player::new(0, "Alice".into(), 6, false), Player::new(1, "Bob".into(), 6, true)];

    deal_hands(&mut players, &mut sand_deck, &mut blood_deck, &mut rng).unwrap();

    assert!(players[0].hand.is_some());
    assert!(players[1].hand.is_some());
    assert_eq!(sand_deck.total_cards(), 22 - 2);
    assert_eq!(blood_deck.total_cards(), 22 - 2);
}

#[test]
fn deal_hands_skips_eliminated() {
    let mut rng = test_rng();
    let mut sand_deck = FamilyDeck::new(Family::Sand, &mut rng);
    let mut blood_deck = FamilyDeck::new(Family::Blood, &mut rng);
    let mut players = vec![Player::new(0, "Alice".into(), 6, false), Player::new(1, "Bob".into(), 0, true)];
    players[1].is_eliminated = true;

    deal_hands(&mut players, &mut sand_deck, &mut blood_deck, &mut rng).unwrap();

    assert!(players[0].hand.is_some());
    assert!(players[1].hand.is_none());
}

#[test]
fn players_with_impostors_detection() {
    let mut players = vec![Player::new(0, "Alice".into(), 6, false), Player::new(1, "Bob".into(), 6, true)];

    players[0].hand = Some(Hand::new(Card::impostor(Family::Sand), Card::number(Family::Blood, 3)).unwrap());
    players[1].hand = Some(Hand::new(Card::number(Family::Sand, 2), Card::number(Family::Blood, 4)).unwrap());

    let impostors = players_with_impostors(&players);
    assert_eq!(impostors, vec![0]);
}

#[test]
fn check_game_over_one_remaining() {
    let mut players = vec![Player::new(0, "Alice".into(), 6, false), Player::new(1, "Bob".into(), 0, true)];
    players[1].is_eliminated = true;

    assert_eq!(check_game_over(&players), Some(0));
}

#[test]
fn check_game_over_multiple_remaining() {
    let players = vec![Player::new(0, "Alice".into(), 6, false), Player::new(1, "Bob".into(), 3, true)];

    assert_eq!(check_game_over(&players), None);
}

#[test]
fn check_game_over_nobody_left() {
    let mut players = vec![Player::new(0, "Alice".into(), 0, false)];
    players[0].is_eliminated = true;
    assert_eq!(check_game_over(&players), None);
}

#[test]
fn deal_fails_when_a_deck_runs_out() {
    let mut rng = test_rng();
    let mut sand_deck = FamilyDeck::new(Family::Sand, &mut rng);
    let mut blood_deck = FamilyDeck::new(Family::Blood, &mut rng);
    for _ in 0..21 {
        sand_deck.draw(&mut rng).unwrap();
    }
    let mut players = vec![Player::new(0, "Alice".into(), 6, false), Player::new(1, "Bob".into(), 6, true)];
    assert_eq!(
        deal_hands(&mut players, &mut sand_deck, &mut blood_deck, &mut rng),
        Err(GameError::DeckExhausted { family: Family::Sand })
    );
}

#[test]
fn resolve_scores_active_players_in_order() {
    let mut players = vec![
        Player::new(0, "A".into(), 6, false),
        Player::new(1, "B".into(), 6, false),
        Player::new(2, "C".into(), 6, false),
    ];
    players[0].hand = Some(Hand::new(Card::number(Family::Sand, 2), Card::number(Family::Blood, 2)).unwrap());
    players[1].is_eliminated = true;
    players[2].hand = Some(Hand::new(Card::number(Family::Sand, 6), Card::number(Family::Blood, 1)).unwrap());
    players[2].pot = 2;
    let results = resolve(&players, &[], &ActiveModifiers::default()).unwrap();
    assert_eq!(results.len(), 2);
    assert_eq!(results[0].player_id, 0);
    assert!(results[0].is_winner);
    assert_eq!(results[0].rank, HandRank::Sabacc { pair_value: 2 });
    assert_eq!(results[1].player_id, 2);
    assert!(!results[1].is_winner);
    assert_eq!(results[1].penalty, 5);
    assert_eq!(results[1].invested, 2);
}

#[test]
fn resolve_requires_impostor_choice() {
    let mut players = vec![Player::new(0, "A".into(), 6, false)];
    players[0].hand = Some(Hand::new(Card::impostor(Family::Sand), Card::number(Family::Blood, 2)).unwrap());
    assert_eq!(
        resolve(&players, &[], &ActiveModifiers::default()),
        Err(GameError::ImpostorChoiceRequired { player_id: 0 })
    );
    let choice = ImpostorChoice { player_id: 0, die1: 2, die2: 5, sand_choice: Some(2), blood_choice: None };
    let results = resolve(&players, &[choice], &ActiveModifiers::default()).unwrap();
    assert_eq!(results[0].rank, HandRank::Sabacc { pair_value: 2 });
}

#[test]
fn apply_results_returns_cards_and_settles_chips() {
    let mut rng = test_rng();
    let mut sand_deck = FamilyDeck::new(Family::Sand, &mut rng);
    let mut blood_deck = FamilyDeck::new(Family::Blood, &mut rng);
    let mut players = vec![Player::new(0, "A".into(), 4, false), Player::new(1, "B".into(), 3, false)];
    players[0].pot = 2;
    players[1].pot = 1;
    players[0].hand = Some(Hand::new(Card::number(Family::Sand, 2), Card::number(Family::Blood, 2)).unwrap());
    players[1].hand = Some(Hand::new(Card::number(Family::Sand, 6), Card::number(Family::Blood, 1)).unwrap());
    let results = vec![
        RoundResult { player_id: 0, rank: HandRank::Sabacc { pair_value: 2 }, invested: 2, is_winner: true, penalty: 0 },
        RoundResult { player_id: 1, rank: HandRank::NonSabacc { difference: 5 }, invested: 1, is_winner: false, penalty: 5 },
    ];
    apply_results(&mut players, &results, &mut sand_deck, &mut blood_deck);
    assert_eq!(players[0].chips, 6);
    assert_eq!(players[0].pot, 0);
    assert_eq!(players[1].chips, 0);
    assert!(players[1].is_eliminated);
    assert!(players[0].hand.is_none() && players[1].hand.is_none());
    assert_eq!(sand_deck.discard_pile.len(), 2);
    assert_eq!(blood_deck.discard_pile.len(), 2);
}
