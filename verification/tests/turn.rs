use sabacc_core::card::Family;
use sabacc_core::turn::DrawSource;

#[test]
fn draw_source_family() {
    assert_eq!(DrawSource::SandDeck.family(), Family::Sand);
    assert_eq!(DrawSource::BloodDeck.family(), Family::Blood);
    assert_eq!(DrawSource::SandDiscard.family(), Family::Sand);
    assert_eq!(DrawSource::BloodDiscard.family(), Family::Blood);
}

#[test]
fn draw_source_is_discard() {
    assert!(!DrawSource::SandDeck.is_discard());
    assert!(!DrawSource::BloodDeck.is_discard());
    assert!(DrawSource::SandDiscard.is_discard());
    assert!(DrawSource::BloodDiscard.is_discard());
}
