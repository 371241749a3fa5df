use rand::rngs::SmallRng;
use rand::SeedableRng;
use sabacc_core::bot::{most_threatening, pick_closest, BasicBot, BotDifficulty, BotStrategy, ExpertBot};
use sabacc_core::card::{Card, CardValue, Family};
use sabacc_core::game::{self, Action, GameConfig, GamePhase, GameState, TokenDistribution};
use sabacc_core::hand::Hand;
use sabacc_core::shift_token::ShiftToken;
use sabacc_core::turn::{DrawSource, TurnAction};

fn test_rng() -> SmallRng {
    SmallRng::seed_from_u64(42)
}

#[test]
fn basic_bot_produces_valid_actions() {
    let mut rng = test_rng();
    let config = GameConfig {
        players: vec![("Human".into(), false), ("Bot".into(), true)],
        starting_chips: 6,
        buy_in: 100,
        enable_shift_tokens: false,
        token_distribution: TokenDistribution::NoTokens,
        bot_difficulty: BotDifficulty::Basic,
    };

    let state = game::new_game(config, &mut rng).unwrap();
    let state = game::apply_action(state, Action::StartGame, &mut rng).unwrap();

    let state =
        game::apply_action(state, Action::PlayerAction { player_id: 0, action: TurnAction::Stand }, &mut rng).unwrap();

    assert_eq!(state.players[state.current_player_idx].id, 1);

    let bot = BasicBot;
    let action = bot.choose_action(&state, &mut rng);

    match &action {
        Action::PlayerAction { player_id, action } => {
            assert_eq!(*player_id, 1);
            match action {
                TurnAction::Stand | TurnAction::Draw(_) => {},
            }
        },
        _ => panic!("expected PlayerAction"),
    }
}

#[test]
fn pick_closest_works() {
    assert_eq!(pick_closest(2, 5, 3), 2);
    assert_eq!(pick_closest(2, 5, 4), 5);
    assert_eq!(pick_closest(3, 3, 3), 3);
}

#[test]
fn most_threatening_finds_richest() {
    let mut rng = test_rng();
    let config = GameConfig {
        players: vec![("P1".into(), true), ("P2".into(), true), ("P3".into(), true)],
        starting_chips: 6,
        buy_in: 100,
        enable_shift_tokens: false,
        token_distribution: TokenDistribution::NoTokens,
        bot_difficulty: BotDifficulty::Basic,
    };

    let mut state = game::new_game(config, &mut rng).unwrap();
    state.players[2].chips = 10;

    let threat = most_threatening(&state, 0);
    assert_eq!(threat, Some(2));
}

fn expert_test_state(
    sand_val: CardValue,
    blood_val: CardValue,
    chips: u8,
    turn: u8,
    tokens: Vec<ShiftToken>,
) -> (GameState, SmallRng) {
    let mut rng = test_rng();
    let config = GameConfig {
        players: vec![("Human".into(), false), ("Bot".into(), true)],
        starting_chips: chips,
        buy_in: 100,
        enable_shift_tokens: !tokens.is_empty(),
        token_distribution: TokenDistribution::NoTokens,
        bot_difficulty: BotDifficulty::Expert,
    };

    let mut state = game::new_game(config, &mut rng).unwrap();
    state = game::apply_action(state, Action::StartGame, &mut rng).unwrap();

    for _ in 1..turn {
        let pid = state.players[state.current_player_idx].id;
        state = game::apply_action(state, Action::PlayerAction { player_id: pid, action: TurnAction::Stand }, &mut rng)
            .unwrap();
        let pid = state.players[state.current_player_idx].id;
        state = game::apply_action(state, Action::PlayerAction { player_id: pid, action: TurnAction::Stand }, &mut rng)
            .unwrap();
    }

    let pid = state.players[state.current_player_idx].id;
    state =
        game::apply_action(state, Action::PlayerAction { player_id: pid, action: TurnAction::Stand }, &mut rng).unwrap();

    let bot = &mut state.players[1];
    bot.hand = Some(
        Hand::new(Card { family: Family::Sand, value: sand_val }, Card { family: Family::Blood, value: blood_val })
            .unwrap(),
    );
    bot.chips = chips;
    bot.shift_tokens = tokens;

    (state, rng)
}

#[test]
fn expert_stands_on_sabacc() {
    let (state, mut rng) = expert_test_state(CardValue::Number(3), CardValue::Number(3), 6, 3, vec![]);
    let bot = ExpertBot;
    let action = bot.choose_action(&state, &mut rng);
    match action {
        Action::PlayerAction { action: TurnAction::Stand, .. } => {},
        other => panic!("expected Stand on Sabacc hand, got {other:?}"),
    }
}

#[test]
fn expert_draws_high_diff() {
    let (state, mut rng) = expert_test_state(CardValue::Number(1), CardValue::Number(5), 6, 1, vec![]);
    let bot = ExpertBot;
    let action = bot.choose_action(&state, &mut rng);
    match action {
        Action::PlayerAction { action: TurnAction::Draw(_), .. } => {},
        other => panic!("expected Draw on D=4 T1, got {other:?}"),
    }
}

#[test]
fn expert_conservative_low_chips() {
    let (state, mut rng) = expert_test_state(CardValue::Number(1), CardValue::Number(4), 1, 2, vec![]);
    let bot = ExpertBot;
    let action = bot.choose_action(&state, &mut rng);
    match action {
        Action::PlayerAction { action: TurnAction::Stand, .. } => {},
        other => panic!("expected Stand with low chips, got {other:?}"),
    }
}

#[test]
fn expert_prefers_discard_sabacc() {
    let (mut state, mut rng) = expert_test_state(CardValue::Number(3), CardValue::Number(5), 6, 1, vec![]);
    state.sand_deck.discard(Card { family: Family::Sand, value: CardValue::Number(5) });
    let bot = ExpertBot;
    let action = bot.choose_action(&state, &mut rng);
    match action {
        Action::PlayerAction { action: TurnAction::Draw(DrawSource::SandDiscard), .. } => {},
        other => panic!("expected SandDiscard for guaranteed Sabacc, got {other:?}"),
    }
}

#[test]
fn expert_token_free_draw_t1() {
    let (state, mut rng) =
        expert_test_state(CardValue::Number(1), CardValue::Number(5), 6, 1, vec![ShiftToken::FreeDraw]);
    let bot = ExpertBot;
    let token = bot.choose_token(&state, &mut rng);
    match token {
        Some(Action::PlayShiftToken { token: ShiftToken::FreeDraw, .. }) => {},
        other => panic!("expected FreeDraw token on T1 D≥3, got {other:?}"),
    }
}

#[test]
fn expert_token_refund_survival() {
    let (mut state, mut rng) =
        expert_test_state(CardValue::Number(2), CardValue::Number(3), 2, 2, vec![ShiftToken::Refund]);
    state.players[1].pot = 3;
    let bot = ExpertBot;
    let token = bot.choose_token(&state, &mut rng);
    match token {
        Some(Action::PlayShiftToken { token: ShiftToken::Refund, .. }) => {},
        other => panic!("expected Refund on survival mode, got {other:?}"),
    }
}

#[test]
fn difficulty_delegates_correctly() {
    let (state, _rng) = expert_test_state(CardValue::Number(3), CardValue::Number(3), 6, 1, vec![]);
    let mut rng1 = SmallRng::seed_from_u64(99);
    let mut rng2 = SmallRng::seed_from_u64(99);

    let basic_action = BasicBot.choose_action(&state, &mut rng1);
    let difficulty_action = BotDifficulty::Basic.choose_action(&state, &mut rng2);
    assert_eq!(basic_action, difficulty_action);
}

// ── Further scenarios ──

#[test]
fn expert_without_chips_stands() {
    let (state, mut rng) = expert_test_state(CardValue::Number(1), CardValue::Number(6), 0, 1, vec![]);
    assert_eq!(
        ExpertBot.choose_action(&state, &mut rng),
        Action::PlayerAction { player_id: 1, action: TurnAction::Stand }
    );
}

#[test]
fn expert_blind_draws_from_the_higher_card() {
    let (mut state, mut rng) = expert_test_state(CardValue::Number(1), CardValue::Number(6), 6, 1, vec![]);
    state.sand_deck.discard_pile.clear();
    state.blood_deck.discard_pile.clear();
    assert_eq!(
        ExpertBot.choose_action(&state, &mut rng),
        Action::PlayerAction { player_id: 1, action: TurnAction::Draw(DrawSource::BloodDeck) }
    );
}

#[test]
fn basic_bot_without_chips_stands() {
    let (state, mut rng) = expert_test_state(CardValue::Number(1), CardValue::Number(6), 0, 1, vec![]);
    assert_eq!(
        BasicBot.choose_action(&state, &mut rng),
        Action::PlayerAction { player_id: 1, action: TurnAction::Stand }
    );
}

#[test]
fn expert_targets_the_richest_rival() {
    let (mut state, mut rng) =
        expert_test_state(CardValue::Number(1), CardValue::Number(2), 6, 2, vec![ShiftToken::TargetTariff(0)]);
    state.players[0].chips = 9;
    assert_eq!(
        ExpertBot.choose_token(&state, &mut rng),
        Some(Action::PlayShiftToken { player_id: 1, token: ShiftToken::TargetTariff(0) })
    );
}

#[test]
fn expert_keeps_tokens_without_a_trigger() {
    let (state, mut rng) =
        expert_test_state(CardValue::Number(1), CardValue::Number(2), 6, 1, vec![ShiftToken::GeneralAudit]);
    assert_eq!(ExpertBot.choose_token(&state, &mut rng), None);
}

#[test]
fn prime_choice_picks_die_closest_to_lower_card() {
    let (mut state, mut rng) = expert_test_state(CardValue::Number(2), CardValue::Number(5), 6, 1, vec![]);
    state.phase = GamePhase::PrimeSabaccChoice { player_id: 1, die1: 6, die2: 1 };
    assert_eq!(
        BasicBot.choose_prime_sabacc(&state, &mut rng),
        Action::SubmitPrimeSabaccChoice { player_id: 1, chosen_value: 1 }
    );
}

#[test]
fn impostor_choice_uses_rolled_dice() {
    let (mut state, mut rng) = expert_test_state(CardValue::Impostor, CardValue::Number(4), 6, 1, vec![]);
    state.phase = GamePhase::ImpostorReveal { pending: vec![1], submitted: vec![] };
    match ExpertBot.choose_impostor(&state, &mut rng) {
        Action::SubmitImpostorChoice(c) => {
            assert_eq!(c.player_id, 1);
            assert!((1..=6).contains(&c.die1) && (1..=6).contains(&c.die2));
            let s = c.sand_choice.unwrap();
            assert!(s == c.die1 || s == c.die2);
            assert_eq!(s, pick_closest(c.die1, c.die2, 4));
            assert_eq!(c.blood_choice, None);
        },
        other => panic!("expected impostor choice, got {other:?}"),
    }
}
