use rand::rngs::SmallRng;
use rand::SeedableRng;
use sabacc_core::animation::Animation;
use sabacc_core::autoplay::run_bots;
use sabacc_core::controls::update;
use sabacc_core::game::{Action, GamePhase};
use sabacc_core::screens::{AppEvent, Command, Key, KeyPress, Overlay, Screen};
use sabacc_core::session::AppState;

fn rng() -> SmallRng {
    SmallRng::seed_from_u64(7)
}

fn key(code: Key) -> AppEvent {
    AppEvent::Key(KeyPress { code, ctrl: false })
}

fn texts(state: &AppState) -> Vec<String> {
    state.log.iter().map(|e| e.text.clone()).collect()
}

#[test]
fn test_quit_on_ctrl_c() {
    let state = AppState::new(rng());
    let event = AppEvent::Key(KeyPress { code: Key::Char('c'), ctrl: true });
    let (_, cmd) = update(state, event);
    assert_eq!(cmd, Command::Quit);
}

#[test]
fn test_setup_navigation() {
    let state = AppState::new(rng());
    assert_eq!(state.setup.selected_field, 0);

    let (state, _) = update(state, key(Key::Tab));
    assert_eq!(state.setup.selected_field, 1);

    let (state, _) = update(state, key(Key::Tab));
    assert_eq!(state.setup.selected_field, 2);
}

#[test]
fn test_setup_bots_adjustment() {
    let mut state = AppState::new(rng());
    state.setup.selected_field = 1; // bots field
    state.setup.num_bots = 3;

    let (state, _) = update(state, key(Key::Right));
    assert_eq!(state.setup.num_bots, 4);

    let (state, _) = update(state, key(Key::Left));
    assert_eq!(state.setup.num_bots, 3);
}

#[test]
fn test_resize_event() {
    let state = AppState::new(rng());
    let (state, _) = update(state, AppEvent::Resize(120, 40));
    assert_eq!(state.tui.terminal_width, 120);
    assert_eq!(state.tui.terminal_height, 40);
}

#[test]
fn setup_wraps_backwards_and_caps_values() {
    let state = AppState::new(rng());
    let (state, cmd) = update(state, key(Key::BackTab));
    assert_eq!(state.setup.selected_field, 5);
    assert_eq!(cmd, Command::Idle);
    let mut state = state;
    state.setup.selected_field = 1;
    state.setup.num_bots = 7;
    let (state, _) = update(state, key(Key::Right));
    assert_eq!(state.setup.num_bots, 7);
    let mut state = state;
    state.setup.num_bots = 1;
    let (state, _) = update(state, key(Key::Left));
    assert_eq!(state.setup.num_bots, 1);
}

#[test]
fn setup_name_editing_and_quit_keys() {
    let state = AppState::new(rng());
    let (state, _) = update(state, key(Key::Char('s')));
    assert_eq!(state.setup.player_name, "Players");
    let (state, _) = update(state, key(Key::Backspace));
    let (state, _) = update(state, key(Key::Backspace));
    assert_eq!(state.setup.player_name, "Playe");
    // 'q' types into the name field, but quits elsewhere
    let (state, cmd) = update(state, key(Key::Char('q')));
    assert_eq!(cmd, Command::Idle);
    assert_eq!(state.setup.player_name, "Playeq");
    let (state, _) = update(state, key(Key::Tab));
    let (_, cmd) = update(state, key(Key::Char('q')));
    assert_eq!(cmd, Command::Quit);
}

#[test]
fn start_from_form_deals_the_game() {
    let mut state = AppState::new(rng());
    state.setup.selected_field = 5;
    let (state, cmd) = update(state, key(Key::Enter));
    assert_eq!(cmd, Command::RunBots);
    assert_eq!(state.screen, Screen::Playing);
    let game = state.game.as_ref().unwrap();
    assert_eq!(game.players.len(), 4);
    assert_eq!(game.players[0].name, "Player");
    assert_eq!(game.players[1].name, "Lando");
    assert_eq!(game.players[3].name, "Chewie");
    assert_eq!(game.config.buy_in, 100);
    assert_eq!(game.config.starting_chips, 5);
    assert!(matches!(game.phase, GamePhase::TurnAction));
    assert_eq!(texts(&state), vec!["Partie lancée !".to_string()]);
    assert!(!state.log[0].is_error);
}

#[test]
fn start_with_too_many_players_logs_the_error() {
    let mut state = AppState::new(rng());
    state.setup.num_bots = 7;
    state.setup.selected_field = 5;
    let (state, _) = update(state, key(Key::Enter));
    assert_eq!(state.screen, Screen::Setup);
    assert!(state.game.is_none());
    assert_eq!(
        texts(&state),
        vec!["Erreur de configuration: invalid config: need 2-4 players, got 8".to_string()]
    );
    assert!(state.log[0].is_error);
}

#[test]
fn quick_start_skips_the_form() {
    let state = AppState::quick_start("Han".into(), 1, 150, false, rng());
    assert_eq!(state.setup.buy_in_index, 2);
    let game = state.game.as_ref().unwrap();
    assert_eq!(game.players.len(), 2);
    assert_eq!(game.players[0].name, "Han");
    assert_eq!(game.config.starting_chips, 6);
    assert!(!game.config.enable_shift_tokens);
    // an unknown buy-in falls back to 100 credits
    let state = AppState::quick_start("Han".into(), 1, 75, true, rng());
    assert_eq!(state.setup.buy_in_index, 1);
    assert_eq!(state.game.unwrap().config.buy_in, 100);
}

#[test]
fn human_turn_helpers() {
    let state = AppState::new(rng());
    assert!(!state.is_human_turn());
    assert!(state.human_player().is_none());
    assert!(state.current_player().is_none());
    let state = AppState::quick_start("Han".into(), 2, 100, false, rng());
    assert!(state.is_human_turn());
    assert_eq!(state.human_player().unwrap().name, "Han");
    assert_eq!(state.current_player().unwrap().id, 0);
}

#[test]
fn stand_then_bots_play_and_cues_reach_the_log() {
    let state = AppState::quick_start("Han".into(), 2, 100, false, rng());
    let mut state = state;
    state.tui.selected_action = 1;
    let (state, cmd) = update(state, key(Key::Enter));
    assert_eq!(cmd, Command::RunBots);
    assert_eq!(texts(&state).last().unwrap(), "Vous: Stand");
    let state = run_bots(state);
    // the bots moved and left cues naming themselves
    assert!(state.is_animating());
    let first = match &state.animations.pending[0] {
        Animation::LogMessage { text } => text.clone(),
        _ => String::new(),
    };
    assert!(first.starts_with("Lando: "));
    assert!(matches!(state.animations.pending[1], Animation::Pause { duration_ms: 200 }));
    // keys other than Space are ignored while cues play
    let before = state.log.len();
    let (state, cmd) = update(state, key(Key::Enter));
    assert_eq!(cmd, Command::Idle);
    assert_eq!(state.log.len(), before);
    // Space plays them all
    let (state, _) = update(state, key(Key::Char(' ')));
    assert!(!state.is_animating());
    assert_eq!(state.log[before].text, first);
}

#[test]
fn ticks_play_the_cues_in_time() {
    let mut state = AppState::new(rng());
    state.animations.push(Animation::LogMessage { text: "un".into() });
    state.animations.push(Animation::Pause { duration_ms: 50 });
    state.animations.push(Animation::LogMessage { text: "deux".into() });
    let (state, cmd) = update(state, AppEvent::Tick);
    assert_eq!(cmd, Command::Idle);
    assert_eq!(texts(&state), vec!["un".to_string()]);
    assert_eq!(state.animations.pending.len(), 2);
    assert_eq!(state.animations.elapsed_ms, 33);
    let (state, _) = update(state, AppEvent::Tick);
    assert_eq!(texts(&state), vec!["un".to_string(), "deux".to_string()]);
    assert!(!state.is_animating());
    assert_eq!(state.animations.elapsed_ms, 0);
}

#[test]
fn quit_confirmation_and_help() {
    let state = AppState::quick_start("Han".into(), 1, 100, false, rng());
    let (state, cmd) = update(state, key(Key::Char('?')));
    assert!(state.tui.show_help);
    assert_eq!(cmd, Command::Idle);
    let (state, _) = update(state, key(Key::Char('x')));
    assert!(!state.tui.show_help);
    let (state, _) = update(state, key(Key::Esc));
    assert!(matches!(state.tui.overlay, Some(Overlay::QuitConfirm)));
    let (state, cmd) = update(state, key(Key::Char('n')));
    assert!(state.tui.overlay.is_none());
    assert_eq!(cmd, Command::Idle);
    let (state, _) = update(state, key(Key::Char('q')));
    let (_, cmd) = update(state, key(Key::Char('y')));
    assert_eq!(cmd, Command::Quit);
}

#[test]
fn log_paging() {
    let mut state = AppState::quick_start("Han".into(), 1, 100, false, rng());
    for i in 0..25 {
        state.push_log(format!("ligne {i}"));
    }
    let (state, _) = update(state, key(Key::PageUp));
    assert_eq!(state.tui.log_scroll_offset, 10);
    assert!(!state.tui.log_auto_scroll);
    let (state, _) = update(state, key(Key::PageUp));
    // no further back than the first page: 26 lines, so 16
    assert_eq!(state.tui.log_scroll_offset, 16);
    let mut state = state;
    state.push_log("nouvelle".into());
    assert_eq!(state.tui.log_scroll_offset, 17);
    let (state, _) = update(state, key(Key::PageDown));
    assert_eq!(state.tui.log_scroll_offset, 7);
    assert!(!state.tui.log_auto_scroll);
    let (state, _) = update(state, key(Key::PageDown));
    assert_eq!(state.tui.log_scroll_offset, 0);
    assert!(state.tui.log_auto_scroll);
}

#[test]
fn digit_key_draws_and_offers_the_discard() {
    let state = AppState::quick_start("Han".into(), 1, 100, false, rng());
    let (state, cmd) = update(state, key(Key::Char('1')));
    assert_eq!(cmd, Command::Idle);
    assert_eq!(texts(&state).last().unwrap(), "Vous: Draw Deck S");
    let game = state.game.as_ref().unwrap();
    let drawn = match &game.phase {
        GamePhase::ChoosingDiscard { drawn_card, .. } => *drawn_card,
        _ => panic!("expected the discard choice"),
    };
    match &state.tui.overlay {
        Some(Overlay::DiscardChoice { drawn: d, current }) => {
            assert_eq!(*d, drawn);
            assert_eq!(*current, game.players[0].hand.unwrap().sand);
        }
        _ => panic!("expected the discard overlay"),
    }
    let (state, _) = update(state, key(Key::Tab));
    assert_eq!(state.tui.selected_discard, 1);
    let (state, cmd) = update(state, key(Key::Enter));
    assert_eq!(texts(&state).last().unwrap(), "Vous: défausse");
    assert_eq!(cmd, Command::RunBots);
    assert!(state.tui.overlay.is_none());
}

#[test]
fn action_bar_moves_around() {
    let state = AppState::quick_start("Han".into(), 1, 100, false, rng());
    let (state, _) = update(state, key(Key::Left));
    assert_eq!(state.tui.selected_action, 1);
    let (state, _) = update(state, key(Key::Right));
    assert_eq!(state.tui.selected_action, 0);
    let (state, _) = update(state, key(Key::Enter));
    assert!(matches!(state.tui.overlay, Some(Overlay::SourcePicker)));
    let (state, _) = update(state, key(Key::Up));
    assert_eq!(state.tui.selected_source, 3);
    let (state, _) = update(state, key(Key::Char('2')));
    assert_eq!(state.tui.selected_source, 1);
    let (state, _) = update(state, key(Key::Enter));
    assert_eq!(texts(&state).last().unwrap(), "Vous: Draw Deck B");
}

#[test]
fn token_picker_flow() {
    let state = AppState::quick_start("Han".into(), 1, 100, true, rng());
    let n = state.game.as_ref().unwrap().players[0].shift_tokens.len();
    assert_eq!(n, 4);
    let (state, _) = update(state, key(Key::Char('s')));
    assert!(matches!(state.tui.overlay, Some(Overlay::TokenPicker)));
    let (state, _) = update(state, key(Key::Up));
    assert_eq!(state.tui.selected_token, 3);
    let (state, _) = update(state, key(Key::Down));
    assert_eq!(state.tui.selected_token, 0);
    let token = state.game.as_ref().unwrap().players[0].shift_tokens[0];
    let (state, _) = update(state, key(Key::Enter));
    if token.requires_target() {
        assert!(matches!(state.tui.overlay, Some(Overlay::TargetPicker { .. })));
        let (state, _) = update(state, key(Key::Enter));
        let line = texts(&state).last().unwrap().clone();
        assert!(line.starts_with("Vous: "));
        assert!(line.ends_with("→Lando"));
    } else {
        assert!(state.tui.overlay.is_none());
        assert!(texts(&state).iter().any(|t| t.starts_with("Vous: ")));
    }
}

#[test]
fn apply_without_game_changes_nothing() {
    let state = AppState::new(rng());
    let state = state.apply_game_action(Action::AdvanceRound);
    assert!(state.game.is_none());
    assert!(state.log.is_empty());
}

#[test]
fn refused_action_loses_the_game() {
    let state = AppState::quick_start("Han".into(), 1, 100, false, rng());
    let state = state.apply_game_action(Action::AdvanceRound);
    assert!(state.game.is_none());
    assert_eq!(
        texts(&state)[1..].to_vec(),
        vec![
            "Erreur: invalid action for current phase: not in Reveal or RoundEnd phase".to_string(),
            "État du jeu perdu suite à une erreur.".to_string(),
        ]
    );
}

#[test]
fn game_over_enter_restarts_with_the_same_form() {
    let mut state = AppState::quick_start("Han".into(), 1, 200, false, rng());
    state.tui.overlay = Some(Overlay::GameOver { winner_name: "Han".into(), is_human: true });
    let (state, cmd) = update(state, key(Key::Enter));
    assert_eq!(cmd, Command::Idle);
    assert_eq!(state.screen, Screen::Setup);
    assert!(state.game.is_none());
    assert_eq!(state.setup.player_name, "Han");
    assert_eq!(state.setup.buy_in_index, 3);
    assert!(state.log.is_empty());
}

#[test]
fn full_game_through_the_front_end_ends() {
    let mut state = AppState::quick_start("Han".into(), 1, 100, false, SmallRng::seed_from_u64(3));
    let mut steps = 0;
    loop {
        steps += 1;
        assert!(steps < 20000, "the game should end");
        if state.game.is_none() {
            panic!("the game was lost: {:?}", texts(&state));
        }
        if let Some(Overlay::GameOver { .. }) = state.tui.overlay {
            break;
        }
        let ev = if state.is_animating() {
            key(Key::Char(' '))
        } else if state.tui.overlay.is_some() {
            key(Key::Enter)
        } else {
            match state.game.as_ref().unwrap().phase {
                GamePhase::TurnAction if state.is_human_turn() => {
                    state.tui.selected_action = 1;
                    key(Key::Enter)
                }
                GamePhase::Reveal { .. } | GamePhase::RoundEnd | GamePhase::ImpostorReveal { .. } => key(Key::Enter),
                GamePhase::PrimeSabaccChoice { .. } => key(Key::Enter),
                _ => AppEvent::Tick,
            }
        };
        assert!(state.can_update());
        let (next, cmd) = update(state, ev);
        state = next;
        if cmd == Command::RunBots {
            state = run_bots(state);
        }
    }
    assert!(texts(&state).iter().any(|t| t == "Vous: Stand"));
}
