use sabacc_core::card::{Card, Family};
use sabacc_core::error::GameError;
use sabacc_core::hand::{Hand, HandRank};

#[test]
fn valid_hand() {
    let hand = Hand::new(Card::number(Family::Sand, 3), Card::number(Family::Blood, 5));
    assert!(hand.is_ok());
}

#[test]
fn invalid_hand_swapped_families() {
    let hand = Hand::new(Card::number(Family::Blood, 3), Card::number(Family::Sand, 5));
    assert!(hand.is_err());
}

#[test]
fn strength_ordering() {
    let pure = HandRank::PureSabacc;
    let sylop = HandRank::SylopSabacc { value: 3 };
    let sabacc_low = HandRank::Sabacc { pair_value: 1 };
    let sabacc_high = HandRank::Sabacc { pair_value: 6 };
    let non_sabacc = HandRank::NonSabacc { difference: 2 };

    assert!(pure.strength_key() < sylop.strength_key());
    assert!(sylop.strength_key() < sabacc_low.strength_key());
    assert!(sabacc_low.strength_key() < sabacc_high.strength_key());
    assert!(sabacc_high.strength_key() < non_sabacc.strength_key());
}

#[test]
fn hand_sabacc_1_beats_sabacc_6() {
    let s1 = HandRank::Sabacc { pair_value: 1 };
    let s6 = HandRank::Sabacc { pair_value: 6 };
    assert!(s1.strength_key() < s6.strength_key());
}

#[test]
fn hand_error_names_the_wrong_family() {
    let err = Hand::new(Card::number(Family::Blood, 3), Card::number(Family::Blood, 5)).unwrap_err();
    assert_eq!(err, GameError::InvalidHand { sand_family: Family::Blood, blood_family: Family::Blood });
}

#[test]
fn strength_keys_exact() {
    assert_eq!(HandRank::PureSabacc.strength_key(), (0, 0));
    assert_eq!(HandRank::PrimeSabacc { value: 4 }.strength_key(), (0, 1));
    assert_eq!(HandRank::SylopSabacc { value: 3 }.strength_key(), (1, 3));
    assert_eq!(HandRank::Sabacc { pair_value: 5 }.strength_key(), (2, 5));
    assert_eq!(HandRank::NonSabacc { difference: 4 }.strength_key(), (3, 4));
}
