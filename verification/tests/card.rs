use sabacc_core::card::{Card, CardValue, Family};

#[test]
fn card_constructors() {
    let sand3 = Card::number(Family::Sand, 3);
    assert_eq!(sand3.family, Family::Sand);
    assert_eq!(sand3.value, CardValue::Number(3));

    let blood_sylop = Card::sylop(Family::Blood);
    assert_eq!(blood_sylop.family, Family::Blood);
    assert_eq!(blood_sylop.value, CardValue::Sylop);

    let sand_impostor = Card::impostor(Family::Sand);
    assert_eq!(sand_impostor.family, Family::Sand);
    assert_eq!(sand_impostor.value, CardValue::Impostor);
}

#[test]
fn card_clone_and_eq() {
    let card = Card::number(Family::Blood, 5);
    let cloned = card.clone();
    assert_eq!(card, cloned);
}
