use rand::rngs::SmallRng;
use rand::SeedableRng;
use sabacc_core::card::{Card, CardValue, Family};
use sabacc_core::deck::FamilyDeck;
use sabacc_core::error::GameError;

fn test_rng() -> SmallRng {
    SmallRng::seed_from_u64(42)
}

#[test]
fn deck_has_22_cards() {
    let mut rng = test_rng();
    let deck = FamilyDeck::new(Family::Sand, &mut rng);
    assert_eq!(deck.total_cards(), 22);
    assert_eq!(deck.draw_pile.len(), 22);
    assert_eq!(deck.discard_pile.len(), 0);
}

#[test]
fn deck_card_distribution() {
    let mut rng = test_rng();
    let deck = FamilyDeck::new(Family::Blood, &mut rng);

    let numbers: Vec<u8> = deck
        .draw_pile
        .iter()
        .filter_map(|c| match c.value {
            CardValue::Number(n) => Some(n),
            _ => None,
        })
        .collect();
    assert_eq!(numbers.len(), 18);

    for n in 1..=6u8 {
        assert_eq!(numbers.iter().filter(|&&v| v == n).count(), 3);
    }

    let sylops = deck.draw_pile.iter().filter(|c| c.value == CardValue::Sylop).count();
    assert_eq!(sylops, 2);

    let impostors = deck.draw_pile.iter().filter(|c| c.value == CardValue::Impostor).count();
    assert_eq!(impostors, 2);
}

#[test]
fn draw_reduces_pile() {
    let mut rng = test_rng();
    let mut deck = FamilyDeck::new(Family::Sand, &mut rng);
    let _ = deck.draw(&mut rng);
    assert_eq!(deck.draw_pile.len(), 21);
}

#[test]
fn reshuffle_on_empty_draw() {
    let mut rng = test_rng();
    let mut deck = FamilyDeck::new(Family::Sand, &mut rng);

    let mut cards = Vec::new();
    for _ in 0..22 {
        cards.push(deck.draw(&mut rng).unwrap());
    }

    for card in cards.into_iter().take(5) {
        deck.discard(card);
    }

    let result = deck.draw(&mut rng);
    assert!(result.is_ok());
    assert_eq!(deck.total_cards(), 4);
}

#[test]
fn error_when_both_piles_empty() {
    let mut rng = test_rng();
    let mut deck = FamilyDeck::new(Family::Sand, &mut rng);

    for _ in 0..22 {
        let _ = deck.draw(&mut rng);
    }

    let result = deck.draw(&mut rng);
    assert!(matches!(result, Err(GameError::DeckExhausted { .. })));
}

#[test]
fn draw_from_discard() {
    let mut rng = test_rng();
    let mut deck = FamilyDeck::new(Family::Sand, &mut rng);

    let card = deck.draw(&mut rng).unwrap();
    let card_clone = card.clone();
    deck.discard(card);

    let drawn = deck.draw_from_discard().unwrap();
    assert_eq!(drawn, card_clone);
}

#[test]
fn empty_discard_error() {
    let mut rng = test_rng();
    let deck = FamilyDeck::new(Family::Sand, &mut rng);
    let mut deck = deck;
    let result = deck.draw_from_discard();
    assert!(matches!(result, Err(GameError::DiscardEmpty { .. })));
}

#[test]
fn draw_takes_the_top_card() {
    let mut rng = test_rng();
    let mut deck = FamilyDeck::new(Family::Sand, &mut rng);
    let top = *deck.draw_pile.last().unwrap();
    assert_eq!(deck.draw(&mut rng).unwrap(), top);
    assert_eq!(deck.peek_discard(), None);
    deck.discard(Card::sylop(Family::Sand));
    assert_eq!(deck.peek_discard(), Some(&Card::sylop(Family::Sand)));
}

#[test]
fn exhausted_error_names_the_family() {
    let mut rng = test_rng();
    let mut deck = FamilyDeck::new(Family::Blood, &mut rng);
    for _ in 0..22 {
        deck.draw(&mut rng).unwrap();
    }
    assert_eq!(deck.draw(&mut rng), Err(GameError::DeckExhausted { family: Family::Blood }));
    assert_eq!(deck.draw_from_discard(), Err(GameError::DiscardEmpty { family: Family::Blood }));
}

#[test]
fn shuffled_decks_differ_by_seed_but_hold_the_same_cards() {
    let mut a = SmallRng::seed_from_u64(1);
    let mut b = SmallRng::seed_from_u64(2);
    let d1 = FamilyDeck::new(Family::Sand, &mut a);
    let d2 = FamilyDeck::new(Family::Sand, &mut b);
    let mut c1: Vec<String> = d1.draw_pile.iter().map(|c| format!("{:?}", c)).collect();
    let mut c2: Vec<String> = d2.draw_pile.iter().map(|c| format!("{:?}", c)).collect();
    assert_ne!(c1, c2);
    c1.sort();
    c2.sort();
    assert_eq!(c1, c2);
}
