//! What each key and each tick does to a session of the front end: the pure update of
//! the front end, from a state and an event to the next state and what to do next.

use rand::rngs::SmallRng;
use vstd::prelude::*;

use crate::animation::{cues, log_texts, played, texts};
use crate::card::{Card, CardValue, Family};
use crate::game::{Action, GamePhase, GameState};
use crate::labels::{aimed, apply_target_to_token, source_name, spec_source_name, spec_token_text, token_text};
use crate::player::{find_player_index, player_index, Player};
use crate::scoring::ImpostorChoice;
use crate::rng::next_u64;
use crate::screens::{default_tui, setup_key_effect, AppEvent, Command, Key, KeyPress, Overlay, Screen, SetupOutcome, TuiState};
use crate::session::{action_applied, game_started, human_turn, lines, name_of, scrolled, AppState};
use crate::shift_token::ShiftToken;
use crate::text::{decimal, text_with_number};
use crate::turn::{DiscardChoice, DrawSource, TurnAction};
use crate::PlayerId;

verus! {

/// What comes after a move of the human: the bots play unless the human is to act again.
pub open spec fn follow_up(s: AppState) -> Command {
    if human_turn(s.game) {
        Command::Idle
    } else {
        Command::RunBots
    }
}

/// `new` is `old` with one more line in the log.
pub open spec fn logged(old: AppState, new: AppState, text: Seq<char>, is_error: bool) -> bool {
    &&& new == (AppState { log: new.log, tui: new.tui, ..old })
    &&& lines(new.log@) == lines(old.log@).push((text, is_error))
    &&& new.tui == (TuiState { log_scroll_offset: scrolled(old.tui, 1), ..old.tui })
}

/// `old` with the widgets' state replaced.
pub open spec fn with_tui(old: AppState, t: TuiState) -> AppState {
    AppState { tui: t, ..old }
}

/// `old` with another overlay shown (or none).
pub open spec fn with_overlay(old: AppState, o: Option<Overlay>) -> AppState {
    with_tui(old, TuiState { overlay: o, ..old.tui })
}

/// The piles in the order the source picker lists them.
pub open spec fn source_at(i: int) -> DrawSource {
    if i == 0 {
        DrawSource::SandDeck
    } else if i == 1 {
        DrawSource::BloodDeck
    } else if i == 2 {
        DrawSource::SandDiscard
    } else {
        DrawSource::BloodDiscard
    }
}

/// The card of the drawn card's family that the player holds (the drawn card itself
/// when the player holds no hand).
pub open spec fn held_card(g: GameState, pid: PlayerId, drawn: Card) -> Card {
    let k = player_index(g.players@, pid);
    if k >= 0 && g.players@[k].hand is Some {
        if drawn.family == Family::Sand {
            g.players@[k].hand->Some_0.sand
        } else {
            g.players@[k].hand->Some_0.blood
        }
    } else {
        drawn
    }
}

/// After a draw, the choice of what to discard is offered when the game waits for it.
pub open spec fn discard_offered(old: AppState, new: AppState) -> bool {
    match old.game {
        Some(g) => match g.phase {
            GamePhase::ChoosingDiscard { drawn_card, player_id } => new == with_tui(
                old,
                TuiState {
                    overlay: Some(Overlay::DiscardChoice { drawn: drawn_card, current: held_card(g, player_id, drawn_card) }),
                    selected_discard: 0,
                    ..old.tui
                },
            ),
            _ => new == old,
        },
        None => new == old,
    }
}

/// The draw from the selected pile: the picker closes, the draw is logged and played,
/// and the choice of what to discard is offered when it is due.
pub open spec fn source_picked(old: AppState, new: AppState) -> bool {
    let src = source_at(old.tui.selected_source as int);
    exists|b: AppState, c: AppState|
        {
            &&& logged(with_overlay(old, None), b, "Vous: Draw "@ + spec_source_name(src), false)
            &&& #[trigger] action_applied(b, Action::PlayerAction { player_id: 0, action: TurnAction::Draw(src) }, c)
            &&& discard_offered(c, new)
        }
}

/// Draw from the pile selected in the picker.
fn pick_source(state: AppState) -> (s: AppState)
    requires
        state.wf(),
        state.log_room(3),
    ensures
        s.wf(),
        source_picked(state, s),
{
    let mut state = state;
    let i = state.tui.selected_source;
    let source = if i == 0 {
        DrawSource::SandDeck
    } else if i == 1 {
        DrawSource::BloodDeck
    } else if i == 2 {
        DrawSource::SandDiscard
    } else {
        DrawSource::BloodDiscard
    };
    state.tui.overlay = None;
    let mut text = "Vous: Draw ".to_owned();
    text.append(source_name(source));
    state.push_log(text);
    let ghost b = state;
    let action = Action::PlayerAction { player_id: 0, action: TurnAction::Draw(source) };
    let mut state = state.apply_game_action(action);
    let ghost c = state;
    let offer: Option<(Card, Card)> = match &state.game {
        Some(g) => match &g.phase {
            GamePhase::ChoosingDiscard { drawn_card, player_id } => {
                let current = match find_player_index(&g.players, *player_id) {
                    Some(k) => match &g.players[k].hand {
                        Some(h) => match drawn_card.family {
                            Family::Sand => h.sand,
                            Family::Blood => h.blood,
                        },
                        None => *drawn_card,
                    },
                    None => *drawn_card,
                };
                Some((*drawn_card, current))
            },
            _ => None,
        },
        None => None,
    };
    match offer {
        Some((drawn, current)) => {
            state.tui.overlay = Some(Overlay::DiscardChoice { drawn, current });
            state.tui.selected_discard = 0;
        },
        None => {},
    }
    assert(action_applied(b, action, c));
    state
}

/// Whether the human (the first seat) can play a shift token now.
pub open spec fn has_tokens(g: GameState) -> bool {
    &&& g.config.enable_shift_tokens
    &&& !g.turn_state.token_played_this_turn
    &&& g.players@.len() > 0
    &&& g.players@[0].shift_tokens@.len() > 0
}

/// The pile a digit key picks (`1` to `4`), or -1.
pub open spec fn digit_key(c: char) -> int {
    if c == '1' {
        0
    } else if c == '2' {
        1
    } else if c == '3' {
        2
    } else if c == '4' {
        3
    } else {
        -1
    }
}

/// One step back around a ring of `m` entries.
pub open spec fn step_back(sel: int, m: int) -> int {
    (sel + m - 1) % m
}

fn ring_back(sel: usize, m: usize) -> (r: usize)
    requires
        0 < m,
    ensures
        r == step_back(sel as int, m as int),
{
    if sel == 0 {
        proof {
            vstd::arithmetic::div_mod::lemma_small_mod((m - 1) as nat, m as nat);
        }
        m - 1
    } else {
        proof {
            vstd::arithmetic::div_mod::lemma_mod_add_multiples_vanish(sel - 1, m as int);
        }
        (sel - 1) % m
    }
}

fn ring_next(sel: usize, m: usize) -> (r: usize)
    requires
        0 < m,
    ensures
        r == (sel + 1) % (m as int),
{
    let r = sel % m;
    assert((sel + 1) % (m as int) == if r + 1 == m { 0 } else { r + 1 }) by (nonlinear_arith)
        requires
            r == (sel as int) % (m as int),
            m > 0,
    ;
    if r + 1 == m {
        0
    } else {
        r + 1
    }
}

/// A key during the human's turn: the arrows and Tab move along the action bar (draw,
/// stand, and token when one can be played); Enter acts on the selected entry; `1` to
/// `4` draw from a pile at once; `s` opens the token picker.
pub open spec fn turn_key_effect(old: AppState, key: Key, new: AppState, cmd: Command) -> bool {
    let ht = old.game matches Some(g) && has_tokens(g);
    let m: int = if ht {
        3
    } else {
        2
    };
    let sel = old.tui.selected_action as int;
    match key {
        Key::Tab | Key::Right => cmd == Command::Idle && new == with_tui(
            old,
            TuiState { selected_action: ((sel + 1) % m) as usize, ..old.tui },
        ),
        Key::BackTab | Key::Left => cmd == Command::Idle && new == with_tui(
            old,
            TuiState { selected_action: step_back(sel, m) as usize, ..old.tui },
        ),
        Key::Char(c) => if c == 's' && ht {
            cmd == Command::Idle && new == with_tui(
                old,
                TuiState { overlay: Some(Overlay::TokenPicker), selected_token: 0, ..old.tui },
            )
        } else if digit_key(c) >= 0 {
            &&& source_picked(
                with_tui(
                    old,
                    TuiState { selected_source: digit_key(c) as usize, overlay: Some(Overlay::SourcePicker), ..old.tui },
                ),
                new,
            )
            &&& cmd == follow_up(new)
        } else {
            new == old && cmd == Command::Idle
        },
        Key::Enter => if sel == 0 {
            cmd == Command::Idle && new == with_tui(
                old,
                TuiState { overlay: Some(Overlay::SourcePicker), selected_source: 0, ..old.tui },
            )
        } else if sel == 1 {
            &&& exists|b: AppState|
                #[trigger] action_applied(old, Action::PlayerAction { player_id: 0, action: TurnAction::Stand }, b)
                    && logged(b, new, "Vous: Stand"@, false)
            &&& cmd == follow_up(new)
        } else if sel == 2 && ht {
            cmd == Command::Idle && new == with_tui(
                old,
                TuiState { overlay: Some(Overlay::TokenPicker), selected_token: 0, ..old.tui },
            )
        } else {
            new == old && cmd == Command::Idle
        },
        _ => new == old && cmd == Command::Idle,
    }
}

impl AppState {
    /// Whether the human is to act, as a value.
    fn next_command(&self) -> (c: Command)
        ensures
            c == follow_up(*self),
    {
        if self.is_human_turn() {
            Command::Idle
        } else {
            Command::RunBots
        }
    }
}

/// Stand, and log it.
fn stand(state: AppState) -> (s: AppState)
    requires
        state.wf(),
        state.log_room(3),
    ensures
        s.wf(),
        exists|b: AppState|
            #[trigger] action_applied(state, Action::PlayerAction { player_id: 0, action: TurnAction::Stand }, b)
                && logged(b, s, "Vous: Stand"@, false),
{
    let action = Action::PlayerAction { player_id: 0, action: TurnAction::Stand };
    let mut s = state.apply_game_action(action);
    let ghost b = s;
    s.push_log("Vous: Stand".to_owned());
    assert(action_applied(state, action, b));
    s
}

/// Handle a key during the human's turn.
fn turn_key(state: AppState, key: Key) -> (r: (AppState, Command))
    requires
        state.wf(),
        state.log_room(3),
    ensures
        r.0.wf(),
        turn_key_effect(state, key, r.0, r.1),
{
    let ghost old_state = state;
    let mut state = state;
    let ht = match &state.game {
        Some(g) => g.config.enable_shift_tokens && !g.turn_state.token_played_this_turn && g.players.len() > 0
            && g.players[0].shift_tokens.len() > 0,
        None => false,
    };
    let m: usize = if ht {
        3
    } else {
        2
    };
    let sel = state.tui.selected_action;
    match key {
        Key::Tab | Key::Right => {
            state.tui.selected_action = ring_next(sel, m);
            (state, Command::Idle)
        },
        Key::BackTab | Key::Left => {
            state.tui.selected_action = ring_back(sel, m);
            (state, Command::Idle)
        },
        Key::Char(c) => {
            if c == 's' && ht {
                state.tui.overlay = Some(Overlay::TokenPicker);
                state.tui.selected_token = 0;
                (state, Command::Idle)
            } else if c == '1' || c == '2' || c == '3' || c == '4' {
                state.tui.selected_source = if c == '1' {
                    0
                } else if c == '2' {
                    1
                } else if c == '3' {
                    2
                } else {
                    3
                };
                state.tui.overlay = Some(Overlay::SourcePicker);
                let state = pick_source(state);
                let cmd = state.next_command();
                proof {
                    assert(source_picked(
                        with_tui(
                            old_state,
                            TuiState { selected_source: digit_key(c) as usize, overlay: Some(Overlay::SourcePicker), ..old_state.tui },
                        ),
                        state,
                    ));
                }
                (state, cmd)
            } else {
                (state, Command::Idle)
            }
        },
        Key::Enter => {
            if sel == 0 {
                state.tui.overlay = Some(Overlay::SourcePicker);
                state.tui.selected_source = 0;
                (state, Command::Idle)
            } else if sel == 1 {
                let state = stand(state);
                let cmd = state.next_command();
                (state, cmd)
            } else if sel == 2 && ht {
                state.tui.overlay = Some(Overlay::TokenPicker);
                state.tui.selected_token = 0;
                (state, Command::Idle)
            } else {
                (state, Command::Idle)
            }
        },
        _ => (state, Command::Idle),
    }
}

/// The tokens the human (the first seat) holds.
pub open spec fn human_tokens(g: Option<GameState>) -> Seq<ShiftToken> {
    match g {
        Some(g) => if g.players@.len() > 0 {
            g.players@[0].shift_tokens@
        } else {
            Seq::empty()
        },
        None => Seq::empty(),
    }
}

/// The ids of the players a token can aim at: every other player still in the game,
/// in seating order.
pub open spec fn targets_of(s: Seq<Player>) -> Seq<PlayerId>
    decreases s.len(),
{
    if s.len() == 0 {
        Seq::empty()
    } else {
        targets_of(s.drop_last()) + if s.last().id != 0 && !s.last().is_eliminated {
            seq![s.last().id]
        } else {
            Seq::empty()
        }
    }
}

/// The players the human can aim at in the game in progress.
pub open spec fn game_targets(g: Option<GameState>) -> Seq<PlayerId> {
    match g {
        Some(g) => targets_of(g.players@),
        None => Seq::empty(),
    }
}

/// A new session on the setup screen that keeps the form (and the generator).
pub open spec fn restarted(old: AppState, new: AppState) -> bool {
    &&& new.screen == Screen::Setup
    &&& new.setup == old.setup
    &&& new.game is None
    &&& new.tui == default_tui()
    &&& new.log@.len() == 0
    &&& new.animations@.len() == 0 && new.animations.elapsed_ms == 0
    &&& new.revealed_players@.len() == 0
    &&& new.rng == old.rng
}

/// The die a choice overlay has selected.
pub open spec fn chosen_die(t: TuiState, die1: u8, die2: u8) -> u8 {
    if t.selected_die == 0 {
        die1
    } else {
        die2
    }
}

/// The human's Impostor choice for the selected die: for the Sand card when the overlay
/// is for it, else for the Blood card (keeping the Sand choice already made).
pub open spec fn impostor_choice_of(chosen: u8, die1: u8, die2: u8, for_sand: bool, sand_choice: Option<u8>) -> ImpostorChoice {
    ImpostorChoice {
        player_id: 0,
        die1,
        die2,
        sand_choice: if for_sand {
            Some(chosen)
        } else {
            sand_choice
        },
        blood_choice: if for_sand {
            None
        } else {
            Some(chosen)
        },
    }
}

/// A key while the source picker is shown.
pub open spec fn source_key_effect(old: AppState, key: Key, new: AppState, cmd: Command) -> bool {
    let s = old.tui.selected_source as int;
    match key {
        Key::Tab | Key::Right | Key::Down => cmd == Command::Idle && new == with_tui(
            old,
            TuiState { selected_source: ((s + 1) % 4) as usize, ..old.tui },
        ),
        Key::BackTab | Key::Left | Key::Up => cmd == Command::Idle && new == with_tui(
            old,
            TuiState { selected_source: ((s + 3) % 4) as usize, ..old.tui },
        ),
        Key::Char(c) => cmd == Command::Idle && new == (if digit_key(c) >= 0 {
            with_tui(old, TuiState { selected_source: digit_key(c) as usize, ..old.tui })
        } else {
            old
        }),
        Key::Enter => source_picked(old, new) && cmd == follow_up(new),
        _ => new == old && cmd == Command::Idle,
    }
}

/// The answer the discard choice has selected.
pub open spec fn discard_choice_at(d: int) -> DiscardChoice {
    if d == 0 {
        DiscardChoice::KeepDrawn
    } else {
        DiscardChoice::DiscardDrawn
    }
}

/// The action a die overlay submits: an Impostor choice (with whether it is for the
/// Sand card and the Sand choice already made), or a PrimeSabacc value.
pub open spec fn die_action(impostor: Option<(bool, Option<u8>)>, chosen: u8, die1: u8, die2: u8) -> Action {
    match impostor {
        Some((for_sand, sand_choice)) => Action::SubmitImpostorChoice(
            impostor_choice_of(chosen, die1, die2, for_sand, sand_choice),
        ),
        None => Action::SubmitPrimeSabaccChoice { player_id: 0, chosen_value: chosen },
    }
}

/// How a die overlay logs the pick.
pub open spec fn die_label(impostor: Option<(bool, Option<u8>)>, chosen: u8) -> Seq<char> {
    (if impostor is Some {
        "Imposteur→"@
    } else {
        "PrimeSabacc→"@
    }) + decimal(chosen as nat)
}

/// A key while the discard choice is shown.
pub open spec fn discard_key_effect(old: AppState, key: Key, new: AppState, cmd: Command) -> bool {
    let d = old.tui.selected_discard as int;
    match key {
        Key::Tab | Key::Left | Key::Right => cmd == Command::Idle && new == with_tui(
            old,
            TuiState { selected_discard: (1 - d) as usize, ..old.tui },
        ),
        Key::Enter => {
            let choice = discard_choice_at(d);
            let text = if d == 0 {
                "Vous: garde piochée"@
            } else {
                "Vous: défausse"@
            };
            &&& exists|b: AppState|
                #[trigger] action_applied(with_overlay(old, None), Action::ChooseDiscard { player_id: 0, choice }, b)
                    && logged(b, new, text, false)
            &&& cmd == follow_up(new)
        },
        _ => new == old && cmd == Command::Idle,
    }
}

/// A key while the token picker is shown.
pub open spec fn token_key_effect(old: AppState, key: Key, new: AppState, cmd: Command) -> bool {
    let ts = human_tokens(old.game);
    let n = ts.len() as int;
    let t = old.tui.selected_token as int;
    if n == 0 {
        new == with_overlay(old, None) && cmd == Command::Idle
    } else {
        match key {
            Key::Tab | Key::Down => cmd == Command::Idle && new == with_tui(
                old,
                TuiState { selected_token: ((t + 1) % n) as usize, ..old.tui },
            ),
            Key::BackTab | Key::Up => cmd == Command::Idle && new == with_tui(
                old,
                TuiState { selected_token: step_back(t, n) as usize, ..old.tui },
            ),
            Key::Enter => if t < n {
                let tok = ts[t];
                if tok.spec_requires_target() {
                    cmd == Command::Idle && new == with_tui(
                        old,
                        TuiState { overlay: Some(Overlay::TargetPicker { token: tok }), selected_target: 0, ..old.tui },
                    )
                } else {
                    &&& exists|a: AppState|
                        logged(with_overlay(old, None), a, "Vous: "@ + spec_token_text(tok), false)
                            && #[trigger] action_applied(a, Action::PlayShiftToken { player_id: 0, token: tok }, new)
                    &&& cmd == follow_up(new)
                }
            } else {
                new == old && cmd == Command::Idle
            },
            _ => new == old && cmd == Command::Idle,
        }
    }
}

/// A key while the target picker for `token` is shown.
pub open spec fn target_key_effect(old: AppState, token: ShiftToken, key: Key, new: AppState, cmd: Command) -> bool {
    let ts = game_targets(old.game);
    let n = ts.len() as int;
    let t = old.tui.selected_target as int;
    if n == 0 {
        new == with_overlay(old, None) && cmd == Command::Idle
    } else {
        match key {
            Key::Tab | Key::Down => cmd == Command::Idle && new == with_tui(
                old,
                TuiState { selected_target: ((t + 1) % n) as usize, ..old.tui },
            ),
            Key::BackTab | Key::Up => cmd == Command::Idle && new == with_tui(
                old,
                TuiState { selected_target: step_back(t, n) as usize, ..old.tui },
            ),
            Key::Enter => {
                let target = ts[t];
                &&& exists|a: AppState|
                    logged(
                        with_overlay(old, None),
                        a,
                        "Vous: "@ + spec_token_text(token) + "→"@ + name_of(old.game->Some_0, target),
                        false,
                    ) && #[trigger] action_applied(a, Action::PlayShiftToken { player_id: 0, token: aimed(token, target) }, new)
                &&& cmd == follow_up(new)
            },
            _ => new == old && cmd == Command::Idle,
        }
    }
}

/// A key while a die is to be picked: the arrows and Tab switch dice; Enter logs the
/// pick under `label` and submits the action it makes.
pub open spec fn die_key_effect(old: AppState, key: Key, new: AppState, cmd: Command, label: Seq<char>, action: Action) -> bool {
    match key {
        Key::Tab | Key::Left | Key::Right | Key::Up | Key::Down => cmd == Command::Idle && new == with_tui(
            old,
            TuiState { selected_die: (1 - old.tui.selected_die) as usize, ..old.tui },
        ),
        Key::Enter => {
            &&& exists|a: AppState|
                logged(with_tui(old, TuiState { overlay: None, selected_die: 0, ..old.tui }), a, label, false)
                    && #[trigger] action_applied(a, action, new)
            &&& cmd == follow_up(new)
        },
        _ => new == old && cmd == Command::Idle,
    }
}

/// A key while an overlay is shown: Escape closes it; otherwise the overlay handles it.
pub open spec fn overlay_key_effect(old: AppState, key: Key, new: AppState, cmd: Command) -> bool {
    if key == Key::Esc {
        new == with_overlay(old, None) && cmd == Command::Idle
    } else {
        match old.tui.overlay {
            Some(Overlay::QuitConfirm) => if key == Key::Char('y') || key == Key::Enter {
                new == old && cmd == Command::Quit
            } else {
                new == with_overlay(old, None) && cmd == Command::Idle
            },
            Some(Overlay::SourcePicker) => source_key_effect(old, key, new, cmd),
            Some(Overlay::DiscardChoice { .. }) => discard_key_effect(old, key, new, cmd),
            Some(Overlay::TokenPicker) => token_key_effect(old, key, new, cmd),
            Some(Overlay::TargetPicker { token }) => target_key_effect(old, token, key, new, cmd),
            Some(Overlay::ImpostorChoice { die1, die2, for_sand, sand_choice }) => {
                let chosen = chosen_die(old.tui, die1, die2);
                let imp = Some((for_sand, sand_choice));
                die_key_effect(old, key, new, cmd, die_label(imp, chosen), die_action(imp, chosen, die1, die2))
            },
            Some(Overlay::PrimeSabaccChoice { die1, die2 }) => {
                let chosen = chosen_die(old.tui, die1, die2);
                die_key_effect(old, key, new, cmd, die_label(None, chosen), die_action(None, chosen, die1, die2))
            },
            Some(Overlay::GameOver { .. }) => if key == Key::Enter {
                restarted(old, new) && cmd == Command::Idle
            } else if key == Key::Char('q') {
                new == old && cmd == Command::Quit
            } else {
                new == old && cmd == Command::Idle
            },
            None => new == old && cmd == Command::Idle,
        }
    }
}

/// The selected target is one of the targets, whenever the target picker has any.
pub open spec fn target_ok(s: AppState) -> bool {
    s.tui.overlay matches Some(Overlay::TargetPicker { .. }) && game_targets(s.game).len() > 0
        ==> s.tui.selected_target < game_targets(s.game).len()
}

/// The players a token can aim at, in seating order.
fn targets(players: &Vec<Player>) -> (v: Vec<PlayerId>)
    ensures
        v@ == targets_of(players@),
{
    let mut v: Vec<PlayerId> = Vec::new();
    let mut i: usize = 0;
    while i < players.len()
        invariant
            i <= players@.len(),
            v@ == targets_of(players@.take(i as int)),
        decreases players@.len() - i,
    {
        assert(players@.take(i + 1).drop_last() =~= players@.take(i as int));
        if players[i].id != 0 && !players[i].is_eliminated {
            v.push(players[i].id);
        }
        i = i + 1;
    }
    assert(players@.take(players@.len() as int) =~= players@);
    v
}

/// The name of the player with id `id`, or `?`.
fn player_name(g: &GameState, id: PlayerId) -> (s: String)
    ensures
        s@ == name_of(*g, id),
{
    match find_player_index(&g.players, id) {
        Some(k) => g.players[k].name.clone(),
        None => "?".to_owned(),
    }
}

/// A fresh session on the setup screen that keeps the form and the generator.
fn restart(state: AppState) -> (s: AppState)
    requires
        state.wf(),
    ensures
        s.wf(),
        restarted(state, s),
{
    let AppState { setup, rng, .. } = state;
    let mut s = AppState::new(rng);
    s.setup = setup;
    s
}

fn source_key(state: AppState, key: Key) -> (r: (AppState, Command))
    requires
        state.wf(),
        state.log_room(3),
    ensures
        r.0.wf(),
        source_key_effect(state, key, r.0, r.1),
{
    let mut state = state;
    let s = state.tui.selected_source;
    match key {
        Key::Tab | Key::Right | Key::Down => {
            state.tui.selected_source = (s + 1) % 4;
            (state, Command::Idle)
        },
        Key::BackTab | Key::Left | Key::Up => {
            state.tui.selected_source = (s + 3) % 4;
            (state, Command::Idle)
        },
        Key::Char(c) => {
            if c == '1' {
                state.tui.selected_source = 0;
            } else if c == '2' {
                state.tui.selected_source = 1;
            } else if c == '3' {
                state.tui.selected_source = 2;
            } else if c == '4' {
                state.tui.selected_source = 3;
            }
            (state, Command::Idle)
        },
        Key::Enter => {
            let state = pick_source(state);
            let cmd = state.next_command();
            (state, cmd)
        },
        _ => (state, Command::Idle),
    }
}

fn discard_key(state: AppState, key: Key) -> (r: (AppState, Command))
    requires
        state.wf(),
        state.log_room(3),
    ensures
        r.0.wf(),
        discard_key_effect(state, key, r.0, r.1),
{
    let ghost old_state = state;
    let mut state = state;
    let d = state.tui.selected_discard;
    match key {
        Key::Tab | Key::Left | Key::Right => {
            state.tui.selected_discard = 1 - d;
            (state, Command::Idle)
        },
        Key::Enter => {
            let choice = if d == 0 {
                DiscardChoice::KeepDrawn
            } else {
                DiscardChoice::DiscardDrawn
            };
            state.tui.overlay = None;
            let ghost a = state;
            let action = Action::ChooseDiscard { player_id: 0, choice };
            let mut state = state.apply_game_action(action);
            let ghost b = state;
            if d == 0 {
                state.push_log("Vous: garde piochée".to_owned());
            } else {
                state.push_log("Vous: défausse".to_owned());
            }
            assert(action_applied(a, action, b));
            let cmd = state.next_command();

            (state, cmd)
        },
        _ => (state, Command::Idle),
    }
}

fn token_key(state: AppState, key: Key) -> (r: (AppState, Command))
    requires
        state.wf(),
        state.log_room(3),
    ensures
        r.0.wf(),
        token_key_effect(state, key, r.0, r.1),
{
    let mut state = state;
    let n = match &state.game {
        Some(g) => if g.players.len() > 0 {
            g.players[0].shift_tokens.len()
        } else {
            0
        },
        None => 0,
    };
    if n == 0 {
        state.tui.overlay = None;
        return (state, Command::Idle);
    }
    let t = state.tui.selected_token;
    match key {
        Key::Tab | Key::Down => {
            state.tui.selected_token = ring_next(t, n);
            (state, Command::Idle)
        },
        Key::BackTab | Key::Up => {
            state.tui.selected_token = ring_back(t, n);
            (state, Command::Idle)
        },
        Key::Enter => {
            let token: Option<ShiftToken> = match &state.game {
                Some(g) => if g.players.len() > 0 && t < g.players[0].shift_tokens.len() {
                    Some(g.players[0].shift_tokens[t])
                } else {
                    None
                },
                None => None,
            };
            match token {
                Some(tok) => {
                    if tok.requires_target() {
                        state.tui.overlay = Some(Overlay::TargetPicker { token: tok });
                        state.tui.selected_target = 0;
                        (state, Command::Idle)
                    } else {
                        state.tui.overlay = None;
                        let mut text = "Vous: ".to_owned();
                        text.append(token_text(&tok).as_str());
                        state.push_log(text);
                        let ghost a = state;
                        let action = Action::PlayShiftToken { player_id: 0, token: tok };
                        let state = state.apply_game_action(action);
                        assert(action_applied(a, action, state));
                        let cmd = state.next_command();
                        (state, cmd)
                    }
                },
                None => (state, Command::Idle),
            }
        },
        _ => (state, Command::Idle),
    }
}

fn target_key(state: AppState, token: ShiftToken, key: Key) -> (r: (AppState, Command))
    requires
        state.wf(),
        state.log_room(3),
        target_ok(state),
        state.tui.overlay matches Some(Overlay::TargetPicker { .. }),
    ensures
        r.0.wf(),
        target_key_effect(state, token, key, r.0, r.1),
{
    let mut state = state;
    let ts: Vec<PlayerId> = match &state.game {
        Some(g) => targets(&g.players),
        None => Vec::new(),
    };
    let n = ts.len();
    if n == 0 {
        state.tui.overlay = None;
        return (state, Command::Idle);
    }
    let t = state.tui.selected_target;
    match key {
        Key::Tab | Key::Down => {
            state.tui.selected_target = ring_next(t, n);
            (state, Command::Idle)
        },
        Key::BackTab | Key::Up => {
            state.tui.selected_target = ring_back(t, n);
            (state, Command::Idle)
        },
        Key::Enter => {
            let target = ts[t];
            let aimed_token = apply_target_to_token(&token, target);
            let name = match &state.game {
                Some(g) => player_name(g, target),
                None => "?".to_owned(),
            };
            state.tui.overlay = None;
            let mut text = "Vous: ".to_owned();
            text.append(token_text(&token).as_str());
            text.append("→");
            text.append(name.as_str());
            state.push_log(text);
            let ghost a = state;
            let action = Action::PlayShiftToken { player_id: 0, token: aimed_token };
            let state = state.apply_game_action(action);
            assert(action_applied(a, action, state));
            let cmd = state.next_command();
            (state, cmd)
        },
        _ => (state, Command::Idle),
    }
}

fn die_key(state: AppState, key: Key, die1: u8, die2: u8, impostor: Option<(bool, Option<u8>)>) -> (r: (AppState, Command))
    requires
        state.wf(),
        state.log_room(3),
        impostor is Some ==> die1 <= 7 && die2 <= 7,
        impostor matches Some((_, Some(v))) ==> v <= 7,
    ensures
        r.0.wf(),
        die_key_effect(
            state,
            key,
            r.0,
            r.1,
            die_label(impostor, chosen_die(state.tui, die1, die2)),
            die_action(impostor, chosen_die(state.tui, die1, die2), die1, die2),
        ),
{
    let mut state = state;
    match key {
        Key::Tab | Key::Left | Key::Right | Key::Up | Key::Down => {
            state.tui.selected_die = 1 - state.tui.selected_die;
            (state, Command::Idle)
        },
        Key::Enter => {
            let chosen = if state.tui.selected_die == 0 {
                die1
            } else {
                die2
            };
            let action = match impostor {
                Some((for_sand, sand_choice)) => Action::SubmitImpostorChoice(
                    ImpostorChoice {
                        player_id: 0,
                        die1,
                        die2,
                        sand_choice: if for_sand {
                            Some(chosen)
                        } else {
                            sand_choice
                        },
                        blood_choice: if for_sand {
                            None
                        } else {
                            Some(chosen)
                        },
                    },
                ),
                None => Action::SubmitPrimeSabaccChoice { player_id: 0, chosen_value: chosen },
            };
            state.tui.overlay = None;
            state.tui.selected_die = 0;
            let text = match impostor {
                Some(_) => text_with_number("Imposteur→", chosen as usize),
                None => text_with_number("PrimeSabacc→", chosen as usize),
            };
            state.push_log(text);
            let ghost a = state;
            let state = state.apply_game_action(action);
            assert(action_applied(a, action, state));
            let cmd = state.next_command();
            (state, cmd)
        },
        _ => (state, Command::Idle),
    }
}

/// Handle a key while an overlay is shown.
fn overlay_key(state: AppState, key: Key) -> (r: (AppState, Command))
    requires
        state.wf(),
        state.log_room(3),
        target_ok(state),
    ensures
        r.0.wf(),
        overlay_key_effect(state, key, r.0, r.1),
{
    let mut state = state;
    if key == Key::Esc {
        state.tui.overlay = None;
        return (state, Command::Idle);
    }
    let kind: u8 = match &state.tui.overlay {
        Some(Overlay::QuitConfirm) => 0,
        Some(Overlay::SourcePicker) => 1,
        Some(Overlay::DiscardChoice { .. }) => 2,
        Some(Overlay::TokenPicker) => 3,
        Some(Overlay::TargetPicker { .. }) => 4,
        Some(Overlay::ImpostorChoice { .. }) => 5,
        Some(Overlay::PrimeSabaccChoice { .. }) => 6,
        Some(Overlay::GameOver { .. }) => 7,
        None => 8,
    };
    if kind == 0 {
        if key == Key::Char('y') || key == Key::Enter {
            (state, Command::Quit)
        } else {
            state.tui.overlay = None;
            (state, Command::Idle)
        }
    } else if kind == 1 {
        source_key(state, key)
    } else if kind == 2 {
        discard_key(state, key)
    } else if kind == 3 {
        token_key(state, key)
    } else if kind == 4 {
        let token = match &state.tui.overlay {
            Some(Overlay::TargetPicker { token }) => *token,
            _ => ShiftToken::PrimeSabacc,
        };
        target_key(state, token, key)
    } else if kind == 5 {
        let (die1, die2, for_sand, sand_choice) = match &state.tui.overlay {
            Some(Overlay::ImpostorChoice { die1, die2, for_sand, sand_choice }) => (*die1, *die2, *for_sand, *sand_choice),
            _ => (0, 0, false, None),
        };
        die_key(state, key, die1, die2, Some((for_sand, sand_choice)))
    } else if kind == 6 {
        let (die1, die2) = match &state.tui.overlay {
            Some(Overlay::PrimeSabaccChoice { die1, die2 }) => (*die1, *die2),
            _ => (0, 0),
        };
        die_key(state, key, die1, die2, None)
    } else if kind == 7 {
        if key == Key::Enter {
            (restart(state), Command::Idle)
        } else if key == Key::Char('q') {
            (state, Command::Quit)
        } else {
            (state, Command::Idle)
        }
    } else {
        (state, Command::Idle)
    }
}

/// The log view one page (ten lines) further back, but no further than the first page.
pub open spec fn page_up(old: AppState) -> TuiState {
    let max = if old.log@.len() >= 10 {
        old.log@.len() - 10
    } else {
        0
    };
    let o = old.tui.log_scroll_offset + 10;
    TuiState { log_scroll_offset: (if o <= max { o } else { max }) as usize, log_auto_scroll: false, ..old.tui }
}

/// The log view one page (ten lines) nearer the end; at the end it follows the log again.
pub open spec fn page_down(old: AppState) -> TuiState {
    let o = if old.tui.log_scroll_offset >= 10 {
        old.tui.log_scroll_offset - 10
    } else {
        0
    };
    TuiState {
        log_scroll_offset: o as usize,
        log_auto_scroll: if o == 0 {
            true
        } else {
            old.tui.log_auto_scroll
        },
        ..old.tui
    }
}

/// A key on the playing screen, in the game's phase.
pub open spec fn phase_key_effect(old: AppState, g: GameState, key: Key, new: AppState, cmd: Command) -> bool {
    match g.phase {
        GamePhase::TurnAction => if human_turn(old.game) {
            turn_key_effect(old, key, new, cmd)
        } else {
            new == old && cmd == Command::Idle
        },
        GamePhase::Reveal { .. } | GamePhase::RoundEnd => if key == Key::Enter {
            action_applied(old, Action::AdvanceRound, new) && cmd == follow_up(new)
        } else {
            new == old && cmd == Command::Idle
        },
        GamePhase::GameOver { .. } => if key == Key::Enter {
            restarted(old, new) && cmd == Command::Idle
        } else if key == Key::Char('q') {
            new == old && cmd == Command::Quit
        } else {
            new == old && cmd == Command::Idle
        },
        GamePhase::ImpostorReveal { pending, .. } => if pending@.contains(0) {
            &&& cmd == Command::Idle
            &&& if g.players@.len() > 0 && g.players@[0].hand is Some {
                &&& new == (AppState { tui: TuiState { overlay: new.tui.overlay, ..old.tui }, rng: new.rng, ..old })
                &&& new.tui.overlay matches Some(Overlay::ImpostorChoice { die1, die2, for_sand, sand_choice })
                &&& 1 <= die1 <= 6 && 1 <= die2 <= 6
                &&& for_sand == (g.players@[0].hand->Some_0.sand.value is Impostor)
                &&& sand_choice is None
            } else {
                new == old
            }
        } else {
            new == old && cmd == Command::RunBots
        },
        GamePhase::PrimeSabaccChoice { player_id, die1, die2 } => if player_id == 0 {
            new == with_overlay(old, Some(Overlay::PrimeSabaccChoice { die1, die2 })) && cmd == Command::Idle
        } else {
            new == old && cmd == Command::RunBots
        },
        _ => new == old && cmd == Command::Idle,
    }
}

/// A key on the playing screen: `?` toggles the help, which any other key closes;
/// Page Up and Page Down scroll the log; an overlay takes the other keys; `q` or Escape
/// ask to quit; otherwise the key goes to the game's phase.
pub open spec fn playing_key_effect(old: AppState, key: Key, new: AppState, cmd: Command) -> bool {
    if key == Key::Char('?') {
        new == with_tui(old, TuiState { show_help: !old.tui.show_help, ..old.tui }) && cmd == Command::Idle
    } else if old.tui.show_help {
        new == with_tui(old, TuiState { show_help: false, ..old.tui }) && cmd == Command::Idle
    } else if key == Key::PageUp {
        new == with_tui(old, page_up(old)) && cmd == Command::Idle
    } else if key == Key::PageDown {
        new == with_tui(old, page_down(old)) && cmd == Command::Idle
    } else if old.tui.overlay is Some {
        overlay_key_effect(old, key, new, cmd)
    } else if key == Key::Char('q') || key == Key::Esc {
        new == with_overlay(old, Some(Overlay::QuitConfirm)) && cmd == Command::Idle
    } else {
        match old.game {
            Some(g) => phase_key_effect(old, g, key, new, cmd),
            None => new == old && cmd == Command::Idle,
        }
    }
}

/// A die roll from the session's generator: 1 to 6.
fn roll(rng: &mut SmallRng) -> (d: u8)
    ensures
        1 <= d <= 6,
{
    (next_u64(rng) % 6 + 1) as u8
}

fn holds_id(v: &Vec<PlayerId>, id: PlayerId) -> (b: bool)
    ensures
        b == v@.contains(id),
{
    let mut i: usize = 0;
    while i < v.len()
        invariant
            i <= v@.len(),
            forall|k: int| 0 <= k < i ==> v@[k] != id,
        decreases v@.len() - i,
    {
        if v[i] == id {
            return true;
        }
        i = i + 1;
    }
    false
}

/// Handle a key in the game's phase.
fn phase_key(state: AppState, key: Key) -> (r: (AppState, Command))
    requires
        state.wf(),
        state.log_room(3),
        state.game is Some,
    ensures
        r.0.wf(),
        phase_key_effect(state, state.game->Some_0, key, r.0, r.1),
{
    let mut state = state;
    let (stage, human_first, sand_impostor, prime) = match &state.game {
        Some(g) => {
            let human_first = g.players.len() > 0 && match &g.players[0].hand {
                Some(_) => true,
                None => false,
            };
            let sand_impostor = g.players.len() > 0 && match &g.players[0].hand {
                Some(h) => match h.sand.value {
                    CardValue::Impostor => true,
                    _ => false,
                },
                None => false,
            };
            let (stage, prime): (u8, (PlayerId, u8, u8)) = match &g.phase {
                GamePhase::TurnAction => (0, (0, 0, 0)),
                GamePhase::Reveal { .. } | GamePhase::RoundEnd => (1, (0, 0, 0)),
                GamePhase::GameOver { .. } => (2, (0, 0, 0)),
                GamePhase::ImpostorReveal { pending, .. } => (if holds_id(pending, 0) {
                    3
                } else {
                    4
                }, (0, 0, 0)),
                GamePhase::PrimeSabaccChoice { player_id, die1, die2 } => (5, (*player_id, *die1, *die2)),
                _ => (6, (0, 0, 0)),
            };
            (stage, human_first, sand_impostor, prime)
        },
        None => (6, false, false, (0, 0, 0)),
    };
    if stage == 0 {
        if state.is_human_turn() {
            turn_key(state, key)
        } else {
            (state, Command::Idle)
        }
    } else if stage == 1 {
        if key == Key::Enter {
            let state = state.apply_game_action(Action::AdvanceRound);
            let cmd = state.next_command();
            (state, cmd)
        } else {
            (state, Command::Idle)
        }
    } else if stage == 2 {
        if key == Key::Enter {
            (restart(state), Command::Idle)
        } else if key == Key::Char('q') {
            (state, Command::Quit)
        } else {
            (state, Command::Idle)
        }
    } else if stage == 3 {
        if human_first {
            let die1 = roll(&mut state.rng);
            let die2 = roll(&mut state.rng);
            state.tui.overlay = Some(Overlay::ImpostorChoice { die1, die2, for_sand: sand_impostor, sand_choice: None });
        }
        (state, Command::Idle)
    } else if stage == 4 {
        (state, Command::RunBots)
    } else if stage == 5 {
        let (pid, die1, die2) = prime;
        if pid == 0 {
            state.tui.overlay = Some(Overlay::PrimeSabaccChoice { die1, die2 });
            (state, Command::Idle)
        } else {
            (state, Command::RunBots)
        }
    } else {
        (state, Command::Idle)
    }
}

/// Handle a key on the playing screen.
fn playing_key(state: AppState, key: Key) -> (r: (AppState, Command))
    requires
        state.wf(),
        state.log_room(16),
        target_ok(state),
    ensures
        r.0.wf(),
        playing_key_effect(state, key, r.0, r.1),
{
    let mut state = state;
    if key == Key::Char('?') {
        state.tui.show_help = !state.tui.show_help;
        return (state, Command::Idle);
    }
    if state.tui.show_help {
        state.tui.show_help = false;
        return (state, Command::Idle);
    }
    if key == Key::PageUp {
        let max = if state.log.len() >= 10 {
            state.log.len() - 10
        } else {
            0
        };
        let o = state.tui.log_scroll_offset + 10;
        state.tui.log_scroll_offset = if o <= max {
            o
        } else {
            max
        };
        state.tui.log_auto_scroll = false;
        return (state, Command::Idle);
    }
    if key == Key::PageDown {
        let o = if state.tui.log_scroll_offset >= 10 {
            state.tui.log_scroll_offset - 10
        } else {
            0
        };
        state.tui.log_scroll_offset = o;
        if o == 0 {
            state.tui.log_auto_scroll = true;
        }
        return (state, Command::Idle);
    }
    let has_overlay = match &state.tui.overlay {
        Some(_) => true,
        None => false,
    };
    if has_overlay {
        return overlay_key(state, key);
    }
    if key == Key::Char('q') || key == Key::Esc {
        state.tui.overlay = Some(Overlay::QuitConfirm);
        return (state, Command::Idle);
    }
    let in_game = match &state.game {
        Some(_) => true,
        None => false,
    };
    if in_game {
        phase_key(state, key)
    } else {
        (state, Command::Idle)
    }
}

/// The log lines a list of texts makes, none of them an error.
pub open spec fn plain_lines(ts: Seq<Seq<char>>) -> Seq<(Seq<char>, bool)> {
    ts.map_values(|t: Seq<char>| (t, false))
}

/// `new` is `old` with the texts `ts` added to the log, in order.
pub open spec fn logged_all(old: AppState, new: AppState, ts: Seq<Seq<char>>) -> bool {
    &&& new == (AppState { log: new.log, tui: new.tui, ..old })
    &&& lines(new.log@) == lines(old.log@) + plain_lines(ts)
    &&& new.tui == (TuiState { log_scroll_offset: scrolled(old.tui, ts.len() as int), ..old.tui })
}

/// Whether the bots are to play in the game `g`: a bot's turn, an Impostor choice only
/// bots still owe, or a PrimeSabacc value a bot picks.
pub open spec fn needs_bots(g: GameState) -> bool {
    match g.phase {
        GamePhase::TurnAction => !human_turn(Some(g)),
        GamePhase::ImpostorReveal { pending, .. } => !pending@.contains(0),
        GamePhase::PrimeSabaccChoice { player_id, .. } => player_id != 0,
        _ => false,
    }
}

/// A tick of the clock: the cues play for 33 ms, the lines of those done go to the log,
/// and once no cue is left the bots are asked to play if it is their move.
pub open spec fn tick_effect(old: AppState, new: AppState, cmd: Command) -> bool {
    let cs = cues(old.animations@);
    let p = played(cs, (old.animations.elapsed_ms + 33) as nat);
    let ts = log_texts(cs.take(p.0 as int));
    &&& logged_all(AppState { animations: new.animations, ..old }, new, ts)
    &&& cues(new.animations@) == cs.skip(p.0 as int)
    &&& new.animations.elapsed_ms == p.1
    &&& cmd == (if new.animations@.len() == 0 && (old.game matches Some(g) && needs_bots(g)) {
        Command::RunBots
    } else {
        Command::Idle
    })
}

/// A key press: Control-C quits at once; while cues play, Space plays them all (and the
/// bots are asked to play if it is their turn) and any other key is ignored; otherwise
/// the screen shown handles the key.
pub open spec fn key_effect(old: AppState, k: KeyPress, new: AppState, cmd: Command) -> bool {
    if k.ctrl && k.code == Key::Char('c') {
        new == old && cmd == Command::Quit
    } else if old.animations@.len() > 0 && k.code == Key::Char(' ') {
        &&& logged_all(AppState { animations: new.animations, ..old }, new, log_texts(cues(old.animations@)))
        &&& new.animations@.len() == 0 && new.animations.elapsed_ms == 0
        &&& cmd == (if (old.game matches Some(g) && g.phase is TurnAction) && !human_turn(old.game) {
            Command::RunBots
        } else {
            Command::Idle
        })
    } else if old.animations@.len() > 0 {
        new == old && cmd == Command::Idle
    } else {
        match old.screen {
            Screen::Setup => {
                ||| cmd == Command::RunBots && setup_key_effect(old.setup, old.setup, k.code, SetupOutcome::Start)
                    && game_started(old, new)
                ||| cmd == Command::Quit && setup_key_effect(old.setup, new.setup, k.code, SetupOutcome::Quit) && new == (
                AppState { setup: new.setup, ..old })
                ||| cmd == Command::Idle && setup_key_effect(old.setup, new.setup, k.code, SetupOutcome::Stay) && new == (
                AppState { setup: new.setup, ..old })
            },
            Screen::Playing => playing_key_effect(old, k.code, new, cmd),
        }
    }
}

/// What an event does to the session, and what the front end is asked to do next.
pub open spec fn updated(old: AppState, event: AppEvent, new: AppState, cmd: Command) -> bool {
    match event {
        AppEvent::Resize(w, h) => new == with_tui(old, TuiState { terminal_width: w, terminal_height: h, ..old.tui })
            && cmd == Command::Idle,
        AppEvent::Tick => tick_effect(old, new, cmd),
        AppEvent::Key(k) => key_effect(old, k, new, cmd),
    }
}

impl AppState {
    /// The log view has room for every line an event can add, and the target picker
    /// points at one of its targets.
    pub open spec fn ready(self) -> bool {
        &&& self.tui.log_scroll_offset + self.animations@.len() + 16 <= usize::MAX
        &&& target_ok(self)
    }

    /// Whether an event can be handled: the log view has room for the lines it can add,
    /// and the target picker, when shown with targets, points at one of them.
    pub fn can_update(&self) -> (b: bool)
        ensures
            b == self.ready(),
    {
        let room = self.tui.log_scroll_offset <= usize::MAX - 16 && self.animations.pending.len() <= usize::MAX - 16
            - self.tui.log_scroll_offset;
        let picking = match &self.tui.overlay {
            Some(Overlay::TargetPicker { .. }) => true,
            _ => false,
        };
        if !room {
            return false;
        }
        if picking {
            let n = match &self.game {
                Some(g) => targets(&g.players).len(),
                None => 0,
            };
            n == 0 || self.tui.selected_target < n
        } else {
            true
        }
    }
}

/// Write each text to the log, in order.
fn push_logs(state: AppState, msgs: Vec<String>) -> (s: AppState)
    requires
        state.tui.log_scroll_offset + msgs@.len() <= usize::MAX,
    ensures
        logged_all(state, s, texts(msgs@)),
{
    let mut state = state;
    let ghost old_state = state;
    let mut i: usize = 0;
    while i < msgs.len()
        invariant
            i <= msgs@.len(),
            old_state.tui.log_scroll_offset + msgs@.len() <= usize::MAX,
            logged_all(old_state, state, texts(msgs@.take(i as int))),
        decreases msgs@.len() - i,
    {
        let ghost before = state;
        state.push_log(msgs[i].clone());
        assert(texts(msgs@.take(i + 1)) =~= texts(msgs@.take(i as int)).push(msgs@[i as int]@));
        assert(plain_lines(texts(msgs@.take(i + 1))) =~= plain_lines(texts(msgs@.take(i as int))).push(
            (msgs@[i as int]@, false),
        ));
        i = i + 1;
    }
    assert(msgs@.take(msgs@.len() as int) =~= msgs@);
    state
}

/// A tick of the clock.
fn on_tick(state: AppState) -> (r: (AppState, Command))
    requires
        state.wf(),
        state.ready(),
    ensures
        r.0.wf(),
        tick_effect(state, r.0, r.1),
{
    let mut state = state;
    let ghost old_state = state;
    let msgs = state.animations.tick(33);
    proof {
        crate::animation::lemma_played_bounds(cues(old_state.animations@), (old_state.animations.elapsed_ms + 33) as nat);
        crate::animation::lemma_log_texts_len(cues(old_state.animations@).take(
            played(cues(old_state.animations@), (old_state.animations.elapsed_ms + 33) as nat).0 as int,
        ));
    }
    let state = push_logs(state, msgs);
    let bots = match &state.game {
        Some(g) => !state.animations.is_animating() && match &g.phase {
            GamePhase::TurnAction => !state.is_human_turn(),
            GamePhase::ImpostorReveal { pending, .. } => !holds_id(pending, 0),
            GamePhase::PrimeSabaccChoice { player_id, .. } => *player_id != 0,
            _ => false,
        },
        None => false,
    };
    if bots {
        (state, Command::RunBots)
    } else {
        (state, Command::Idle)
    }
}

/// A key press.
fn on_key(state: AppState, k: KeyPress) -> (r: (AppState, Command))
    requires
        state.wf(),
        state.ready(),
    ensures
        r.0.wf(),
        key_effect(state, k, r.0, r.1),
{
    let mut state = state;
    if k.ctrl && k.code == Key::Char('c') {
        return (state, Command::Quit);
    }
    let animating = state.animations.is_animating();
    if animating && k.code == Key::Char(' ') {
        let ghost old_state = state;
        let msgs = state.animations.skip_all();
        proof {
            crate::animation::lemma_log_texts_len(cues(old_state.animations@));
        }
        let state = push_logs(state, msgs);
        let bots = match &state.game {
            Some(g) => match &g.phase {
                GamePhase::TurnAction => !state.is_human_turn(),
                _ => false,
            },
            None => false,
        };
        return if bots {
            (state, Command::RunBots)
        } else {
            (state, Command::Idle)
        };
    }
    if animating {
        return (state, Command::Idle);
    }
    match state.screen {
        Screen::Setup => {
            let out = state.setup.on_key(k.code);
            match out {
                SetupOutcome::Start => (state.start_game(), Command::RunBots),
                SetupOutcome::Quit => (state, Command::Quit),
                SetupOutcome::Stay => (state, Command::Idle),
            }
        },
        Screen::Playing => playing_key(state, k.code),
    }
}

/// Pure update function: state × event → (state, command).
pub fn update(state: AppState, event: AppEvent) -> (r: (AppState, Command))
    requires
        state.wf(),
        state.ready(),
    ensures
        r.0.wf(),
        updated(state, event, r.0, r.1),
{
    match event {
        AppEvent::Resize(w, h) => {
            let mut state = state;
            state.tui.terminal_width = w;
            state.tui.terminal_height = h;
            (state, Command::Idle)
        },
        AppEvent::Tick => on_tick(state),
        AppEvent::Key(k) => on_key(state, k),
    }
}

} // verus!
