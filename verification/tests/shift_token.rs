use sabacc_core::shift_token::ShiftToken;

#[test]
fn matches_type_same() {
    assert!(ShiftToken::FreeDraw.matches_type(&ShiftToken::FreeDraw));
    assert!(ShiftToken::TargetTariff(0).matches_type(&ShiftToken::TargetTariff(1)));
}

#[test]
fn matches_type_different() {
    assert!(!ShiftToken::FreeDraw.matches_type(&ShiftToken::Refund));
    assert!(!ShiftToken::TargetTariff(0).matches_type(&ShiftToken::TargetAudit(0)));
}

#[test]
fn requires_target_correct() {
    assert!(!ShiftToken::FreeDraw.requires_target());
    assert!(!ShiftToken::GeneralTariff.requires_target());
    assert!(ShiftToken::TargetTariff(0).requires_target());
    assert!(ShiftToken::TargetAudit(0).requires_target());
    assert!(ShiftToken::Exhaustion(0).requires_target());
    assert!(ShiftToken::DirectTransaction(0).requires_target());
}

#[test]
fn all_types_has_16() {
    assert_eq!(ShiftToken::all_types().len(), 16);
}

#[test]
fn all_types_are_distinct_kinds() {
    let all = ShiftToken::all_types();
    for i in 0..all.len() {
        for j in 0..all.len() {
            assert_eq!(all[i].matches_type(&all[j]), i == j);
        }
    }
}

#[test]
fn token_descriptions() {
    assert_eq!(ShiftToken::FreeDraw.description(), "Draw without paying 1 chip");
    assert_eq!(ShiftToken::Embezzlement.description(), "Take 1 chip from each opponent");
}
