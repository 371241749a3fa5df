use rand::rngs::SmallRng;
use rand::SeedableRng;
use sabacc_core::animation::{Animation, AnimationQueue};
use sabacc_core::card::{Card, CardValue, Family};
use sabacc_core::card_view::CardWidget;
use sabacc_core::error::GameError;
use sabacc_core::game::{Action, GameState};
use sabacc_core::hand::HandRank;
use sabacc_core::labels::{
    apply_target_to_token, chip_dots, describe_action, short_rank, source_name, token_name, token_summary,
    token_text, truncate, wrap_text,
};
use sabacc_core::shift_token::ShiftToken;
use sabacc_core::starfield::{Star, Starfield, StarfieldWidget, NUM_STARS};
use sabacc_core::turn::{DrawSource, TurnAction};

fn some_game() -> GameState {
    let s = sabacc_core::session::AppState::quick_start("Han".into(), 1, 100, false, SmallRng::seed_from_u64(1));
    s.game.unwrap()
}

#[test]
fn token_texts() {
    assert_eq!(token_name(&ShiftToken::TargetTariff(2)), "TargetTariff");
    assert_eq!(token_text(&ShiftToken::TargetTariff(2)), "TargetTariff(2)");
    assert_eq!(token_text(&ShiftToken::Exhaustion(12)), "Exhaustion(12)");
    assert_eq!(token_text(&ShiftToken::FreeDraw), "FreeDraw");
    assert_eq!(token_summary(&ShiftToken::Embezzlement), "1 chip per opponent");
    assert_eq!(token_summary(&ShiftToken::PrimeSabacc), "Dice → best Sabacc");
}

#[test]
fn aiming_tokens() {
    assert_eq!(apply_target_to_token(&ShiftToken::TargetAudit(0), 3), ShiftToken::TargetAudit(3));
    assert_eq!(apply_target_to_token(&ShiftToken::DirectTransaction(1), 2), ShiftToken::DirectTransaction(2));
    assert_eq!(apply_target_to_token(&ShiftToken::Immunity, 3), ShiftToken::Immunity);
}

#[test]
fn action_descriptions() {
    let g = some_game();
    assert_eq!(source_name(DrawSource::BloodDiscard), "Déf B");
    let draw = Action::PlayerAction { player_id: 1, action: TurnAction::Draw(DrawSource::SandDeck) };
    assert_eq!(describe_action(&draw, &g), "Draw Deck S");
    let stand = Action::PlayerAction { player_id: 1, action: TurnAction::Stand };
    assert_eq!(describe_action(&stand, &g), "Stand");
    let tok = Action::PlayShiftToken { player_id: 1, token: ShiftToken::TargetTariff(0) };
    assert_eq!(describe_action(&tok, &g), "TargetTariff(0)");
    assert_eq!(describe_action(&Action::AdvanceRound, &g), "action");
}

#[test]
fn rank_texts() {
    assert_eq!(short_rank(&HandRank::PureSabacc), "PureSabacc");
    assert_eq!(short_rank(&HandRank::NonSabacc { difference: 3 }), "Non(3)");
    assert_eq!(short_rank(&HandRank::Sabacc { pair_value: 6 }), "Sabacc(6)");
    assert_eq!(short_rank(&HandRank::PrimeSabacc { value: 2 }), "PrimeSabacc(2)");
}

#[test]
fn chip_rows_and_truncation() {
    assert_eq!(chip_dots(3), "●●●○○○○○");
    assert_eq!(chip_dots(0), "○○○○○○○○");
    assert_eq!(chip_dots(12), "●●●●●●●●");
    assert_eq!(truncate("Bonjour", 4), "Bon…");
    assert_eq!(truncate("abc", 5), "abc");
    assert_eq!(truncate("abc", 3), "abc");
    assert_eq!(truncate("abc", 0), "…");
}

#[test]
fn card_widgets() {
    let sand3 = Card { family: Family::Sand, value: CardValue::Number(3) };
    let w = CardWidget::from_card(&sand3, false);
    assert_eq!(w.label(), "SAND");
    assert_eq!(w.symbol(), "△");
    assert_eq!(w.value_str(), "3");
    let sylop = Card { family: Family::Blood, value: CardValue::Sylop };
    let w = CardWidget::from_card(&sylop, false);
    assert_eq!(w.label(), "SYLOP");
    assert_eq!(w.symbol(), "◎");
    assert_eq!(w.value_str(), "");
    let imp = Card { family: Family::Blood, value: CardValue::Impostor };
    let mut w = CardWidget::from_card(&imp, false);
    assert_eq!(w.symbol(), "?");
    w.resolved_impostor = Some(5);
    assert_eq!(w.symbol(), "?→");
    assert_eq!(w.value_str(), "5");
    let back = CardWidget::face_down();
    assert_eq!(back.label(), "????");
    assert_eq!(back.symbol(), "▓▓");
    assert_eq!(CardWidget::from_card(&sand3, true).value_str(), "▓▓");
}

#[test]
fn error_messages() {
    let e = GameError::InsufficientChips { player_id: 1, available: 2, required: 3 };
    assert_eq!(e.message(), "player 1 has insufficient chips (2 < 3)");
    let e = GameError::DeckExhausted { family: Family::Sand };
    assert_eq!(e.message(), "Sand deck is empty and discard pile has no cards to reshuffle");
    let e = GameError::InvalidDieChoice { chosen: 4, die1: 1, die2: 2 };
    assert_eq!(e.message(), "die value 4 not available from roll (1, 2)");
    assert_eq!(GameError::ShiftTokensDisabled.message(), "shift tokens are not enabled");
}

#[test]
fn starfield_moves_and_wraps() {
    let mut rng = SmallRng::seed_from_u64(9);
    let f = Starfield::new(80, 24, &mut rng);
    assert_eq!(f.stars.len(), NUM_STARS);
    assert!(f.stars.iter().all(|s| s.x < 80 && s.y < 24 && (1..=3).contains(&s.speed) && s.brightness <= 2));
    let mut f = Starfield {
        stars: vec![
            Star { x: 0, y: 0, speed: 1, brightness: 0 },
            Star { x: 1, y: 23, speed: 1, brightness: 1 },
            Star { x: 2, y: 5, speed: 2, brightness: 2 },
        ],
        tick_counter: 0,
        width: 80,
        height: 24,
    };
    f.tick();
    assert_eq!(f.tick_counter, 1);
    assert_eq!(f.stars[0].y, 1);
    assert_eq!(f.stars[1].y, 0);
    assert_eq!(f.stars[2].y, 5);
    f.tick();
    assert_eq!(f.stars[2].y, 6);
    let before = f.stars.clone();
    f.resize(80, 24, &mut rng);
    assert_eq!(f.stars, before);
    f.resize(10, 5, &mut rng);
    assert_eq!(f.stars.len(), NUM_STARS);
    assert!(f.stars.iter().all(|s| s.x < 10 && s.y < 5));
    let w = StarfieldWidget::new(&f);
    assert_eq!(w.starfield.width, 10);
}

#[test]
fn animation_queue_plays_against_the_clock() {
    let mut q = AnimationQueue::new();
    assert!(!q.is_animating());
    q.push(Animation::PlayerHighlight { player_id: 1, duration_ms: 300 });
    q.push(Animation::LogMessage { text: "a".into() });
    q.push(Animation::Pause { duration_ms: 10 });
    q.push(Animation::LogMessage { text: "b".into() });
    assert!(q.tick(200).is_empty());
    assert_eq!(q.elapsed_ms, 200);
    assert_eq!(q.tick(100), vec!["a".to_string()]);
    assert_eq!(q.pending.len(), 2);
    assert_eq!(q.elapsed_ms, 0);
    assert_eq!(q.skip_all(), vec!["b".to_string()]);
    assert!(!q.is_animating());
}

#[test]
fn wrapping_log_lines() {
    assert_eq!(wrap_text("Lando: Draw Deck S", 10), vec!["Lando:", "Draw", "Deck S"]);
    assert_eq!(wrap_text("abcdefghij", 6), vec!["abcd", "efgh", "ij"]);
    assert_eq!(wrap_text("", 10), vec![""]);
    assert_eq!(wrap_text("abc def", 2), vec!["abc def"]);
    assert_eq!(wrap_text("ab   cd", 5), vec!["ab", "cd"]);
    for line in wrap_text("Erreur: invalid action for current phase: not in Reveal or RoundEnd phase", 27) {
        assert!(line.chars().count() <= 25);
    }
}
