//! The bots' moves as the front end plays them: one decision at a time, each logged
//! through the cues, until the human is to act, the round waits, or a move fails.

use vstd::prelude::*;

use crate::animation::{cues, Animation, Cue};
use crate::bot::{basic_action, basic_discard, basic_token, impostor_pick, prime_pick, BasicBot, BotStrategy};
use crate::error::GameError;
use crate::game::{self, action_outcome, answers, bot_to_act, step_ok, Action, GamePhase, GameState};
use crate::labels::{describe_action, spec_action_text};
use crate::player::find_player_index;
use crate::progress;
use crate::screens::TuiState;
use crate::session::{lines, name_of, phase_noted, scrolled, AppState};

verus! {

/// The name of the player at the current seat.
pub open spec fn seat_name(g: GameState) -> Seq<char> {
    g.players@[g.current_player_idx as int].name@
}

/// The cues a bot's move in a turn adds: the move in the log, then a pause (shorter
/// after a token).
pub open spec fn move_cues(a: GameState, act: Action) -> Seq<Cue> {
    let line = seat_name(a) + ": "@ + spec_action_text(act);
    if act is PlayShiftToken {
        seq![Cue::Log(line), Cue::Wait(150)]
    } else {
        seq![Cue::Log(line), Cue::Wait(200)]
    }
}

/// `sb` is `sa` with the cue `line` in the log cues, then the new phase of `b` noted.
pub open spec fn choice_noted(sa: AppState, line: Seq<char>, b: GameState, sb: AppState) -> bool {
    exists|m: AppState|
        #[trigger] phase_noted(m, sb, b) && m == (AppState { animations: m.animations, rng: m.rng, ..sa })
            && cues(m.animations@) == cues(sa.animations@).push(Cue::Log(line))
            && m.animations.elapsed_ms == sa.animations.elapsed_ms
}

/// Whether `act` is a move the basic bot can make in `a`: in a turn, the token it picks
/// when tokens can be played, else (or when it picks none) its draw or stand; otherwise
/// its discard, its Impostor dice or its PrimeSabacc value.
pub open spec fn basic_move(a: GameState, act: Action) -> bool {
    match a.phase {
        GamePhase::TurnAction => if a.config.enable_shift_tokens && !a.turn_state.token_played_this_turn {
            exists|r: i32|
                0 <= r < 100 && match #[trigger] basic_token(a, r) {
                    Some(t) => act == t,
                    None => exists|dr: u32, sr: i32, c: bool|
                        dr < 100 && 0 <= sr < 4 && act == #[trigger] basic_action(a, dr, sr, c),
                }
        } else {
            exists|dr: u32, sr: i32, c: bool| dr < 100 && 0 <= sr < 4 && act == #[trigger] basic_action(a, dr, sr, c)
        },
        GamePhase::ChoosingDiscard { .. } => exists|c: bool| act == #[trigger] basic_discard(a, c),
        GamePhase::ImpostorReveal { .. } => exists|d1: u8, d2: u8|
            1 <= d1 <= 6 && 1 <= d2 <= 6 && act == #[trigger] impostor_pick(a, d1, d2),
        GamePhase::PrimeSabaccChoice { .. } => act == prime_pick(a),
        _ => false,
    }
}

/// One step of a run of the bots: a bot's decision was due in `a`, the basic bot's move
/// `act` took the game to `b`, and the session went from `sa` to `sb`. A move in a turn adds
/// its cues; an Impostor or PrimeSabacc choice is logged and the new phase noted; a
/// discard adds nothing.
pub open spec fn bot_step(sa: AppState, a: GameState, act: Action, b: GameState, sb: AppState) -> bool {
    &&& bot_to_act(a)
    &&& a.fits(act)
    &&& basic_move(a, act)
    &&& step_ok(a, act, b)
    &&& match a.phase {
        GamePhase::TurnAction => {
            &&& sb == (AppState { animations: sb.animations, rng: sb.rng, ..sa })
            &&& cues(sb.animations@) == cues(sa.animations@) + move_cues(a, act)
            &&& sb.animations.elapsed_ms == sa.animations.elapsed_ms
        },
        GamePhase::ImpostorReveal { pending, .. } => choice_noted(sa, name_of(a, pending@[0]) + ": "@ + "Imposteur"@, b, sb),
        GamePhase::PrimeSabaccChoice { player_id, .. } => choice_noted(sa, name_of(a, player_id) + ": "@ + "PrimeSabacc"@, b, sb),
        _ => sb == (AppState { rng: sb.rng, ..sa }),
    }
}

/// `sess`, `states` and `acts` record a run of the bots: the session beside the game
/// (the game itself kept apart) and the games, before and after each move.
pub open spec fn bot_trace(sess: Seq<AppState>, states: Seq<GameState>, acts: Seq<Action>) -> bool {
    &&& sess.len() == states.len()
    &&& states.len() == acts.len() + 1
    &&& forall|i: int|
        0 <= i < acts.len() ==> bot_step(sess[i], states[i], #[trigger] acts[i], states[i + 1], sess[i + 1])
}

/// How a failed move of a run is reported: by the phase it was made in, with the bot's
/// name where the report gives it (for a discard, the name of the bot that just drew).
pub open spec fn bot_error_prefix(states: Seq<GameState>, acts: Seq<Action>, act: Action) -> Seq<char> {
    let g = states.last();
    match g.phase {
        GamePhase::TurnAction => if act is PlayShiftToken {
            "Bot token error: "@
        } else {
            "Bot error"@ + " ("@ + seat_name(g) + "): "@
        },
        GamePhase::ChoosingDiscard { .. } => if acts.len() > 0 && states[acts.len() - 1].phase is TurnAction {
            "Bot discard error"@ + " ("@ + seat_name(states[acts.len() - 1]) + "): "@
        } else {
            "Bot discard error: "@
        },
        GamePhase::ImpostorReveal { .. } => "Bot impostor error: "@,
        _ => "Bot prime error: "@,
    }
}

/// Whether a run stops in `g` without noting its phase: in a phase where a player acts.
pub open spec fn acting_phase(g: GameState) -> bool {
    ||| g.phase is TurnAction
    ||| g.phase is ChoosingDiscard
    ||| g.phase is ImpostorReveal
    ||| g.phase is PrimeSabaccChoice
}

/// How a run ends, from the session `sl` beside the last game of `states`. Either no
/// bot decision is due and the game is kept, its phase noted when no player is to act;
/// or the bot's next move has no room (a counter or a chip count would overflow) and the
/// game is kept as it is; or the bot's next move fails, the game is lost and the failure
/// logged.
pub open spec fn bot_end(sl: AppState, states: Seq<GameState>, acts: Seq<Action>, s: AppState) -> bool {
    let g = states.last();
    ||| {
        &&& !bot_to_act(g) || !g.seat_ok()
        &&& if acting_phase(g) {
            s == (AppState { game: Some(g), ..sl })
        } else {
            exists|m: AppState| #[trigger] phase_noted(sl, m, g) && s == (AppState { game: Some(g), ..m })
        }
    }
    ||| {
        &&& bot_to_act(g) && g.seat_ok()
        &&& exists|act: Action| #[trigger] answers(g, act) && basic_move(g, act) && !g.fits(act)
        &&& s == (AppState { game: Some(g), rng: s.rng, ..sl })
    }
    ||| exists|act: Action, e: GameError|
        {
            &&& #[trigger] action_outcome(g, act, Err(e))
            &&& bot_to_act(g) && g.seat_ok() && g.fits(act) && answers(g, act) && basic_move(g, act)
            &&& s == (AppState { game: None, log: s.log, tui: s.tui, rng: s.rng, ..sl })
            &&& lines(s.log@) == lines(sl.log@).push((bot_error_prefix(states, acts, act) + e.spec_message(), true))
            &&& s.tui == (TuiState { log_scroll_offset: scrolled(sl.tui, 1), ..sl.tui })
        }
}

/// What a run of the bots does to a session: nothing without a game; otherwise the bots
/// move, one decision at a time, as `bot_trace` records, and the run ends as `bot_end`
/// says.
pub open spec fn bots_ran(old: AppState, s: AppState) -> bool {
    match old.game {
        None => s == old,
        Some(g0) => exists|sess: Seq<AppState>, states: Seq<GameState>, acts: Seq<Action>|
            {
                &&& #[trigger] bot_trace(sess, states, acts)
                &&& sess[0] == (AppState { game: None, ..old })
                &&& states[0] == g0
                &&& bot_end(sess.last(), states, acts, s)
            },
    }
}

/// How a failed move in `a` is reported, `drew` naming the bot that has just drawn
/// when the move was its discard.
pub open spec fn move_error_prefix(a: GameState, act: Action, drew: Option<Seq<char>>) -> Seq<char> {
    match a.phase {
        GamePhase::TurnAction => if act is PlayShiftToken {
            "Bot token error: "@
        } else {
            "Bot error"@ + " ("@ + seat_name(a) + "): "@
        },
        GamePhase::ChoosingDiscard { .. } => match drew {
            Some(n) => "Bot discard error"@ + " ("@ + n + "): "@,
            None => "Bot discard error: "@,
        },
        GamePhase::ImpostorReveal { .. } => "Bot impostor error: "@,
        _ => "Bot prime error: "@,
    }
}

/// The session after a failed move: the game lost and the failure logged.
pub open spec fn move_failed(sa: AppState, a: GameState, drew: Option<Seq<char>>, s: AppState) -> bool {
    exists|act: Action, e: GameError|
        {
            &&& #[trigger] action_outcome(a, act, Err(e))
            &&& a.fits(act) && answers(a, act) && basic_move(a, act)
            &&& s == (AppState { game: None, log: s.log, tui: s.tui, rng: s.rng, ..sa })
            &&& lines(s.log@) == lines(sa.log@).push((move_error_prefix(a, act, drew) + e.spec_message(), true))
            &&& s.tui == (TuiState { log_scroll_offset: scrolled(sa.tui, 1), ..sa.tui })
        }
}

/// What became of a bot's move: made, with the session and game after it; chosen but
/// without room, with the session (its generator moved on) and the game as it was; or
/// failed, with the session after the failure.
enum Move {
    Made(AppState, GameState, Action),
    Full(AppState, GameState, Action),
    Failed(AppState),
}

/// The bot's chosen move `act` had no room: the game is handed back as it was.
pub open spec fn move_full(sa: AppState, a: GameState, sb: AppState, b: GameState, act: Action) -> bool {
    &&& b == a
    &&& sb == (AppState { rng: sb.rng, ..sa })
    &&& answers(a, act) && basic_move(a, act) && !a.fits(act)
}

/// The text `who: what`.
fn line_of(who: &String, what: &str) -> (s: String)
    ensures
        s@ == who@ + ": "@ + what@,
{
    let mut s = who.clone();
    s.append(": ");
    s.append(what);
    s
}

/// The text `prefix` then the error's message.
fn error_line(prefix: String, e: &GameError) -> (s: String)
    ensures
        s@ == prefix@ + e.spec_message(),
{
    let mut s = prefix;
    s.append(e.message().as_str());
    s
}

/// The text `head (who): `.
fn named_prefix(head: &str, who: &String) -> (s: String)
    ensures
        s@ == head@ + " ("@ + who@ + "): "@,
{
    let mut s = head.to_owned();
    s.append(" (");
    s.append(who.as_str());
    s.append("): ");
    s
}

/// The bot's move in a turn: a token when it plays one, else a draw or a stand.
fn turn_move(state: AppState, cur: GameState, bot: &BasicBot) -> (r: Move)
    requires
        state.wf(),
        state.game is None,
        state.log_room(1),
        cur.wf(),
        cur.phase is TurnAction,
        bot_to_act(cur),
        cur.seat_ok(),
    ensures
        r matches Move::Made(sb, b, act) ==> bot_step(state, cur, act, b, sb) && sb.wf() && sb.game is None && b.wf()
            && sb.tui.log_scroll_offset == state.tui.log_scroll_offset,
        r matches Move::Full(sb, b, act) ==> move_full(state, cur, sb, b, act) && sb.wf(),
        r matches Move::Failed(s) ==> move_failed(state, cur, None, s) && s.wf(),
{
    let mut state = state;
    let name = cur.players[cur.current_player_idx].name.clone();
    if cur.config.enable_shift_tokens && !cur.turn_state.token_played_this_turn {
        match bot.choose_token(&cur, &mut state.rng) {
            Some(ta) => {
                if !cur.has_room_for(&ta) {
                    return Move::Full(state, cur, ta);
                }
                let desc = describe_action(&ta, &cur);
                let ghost a = cur;
                return match game::apply_action(cur, ta, &mut state.rng) {
                    Ok(next) => {
                        proof {
                            crate::validity::lemma_actions_keep_wf(a, ta, next);
                        }
                        let ghost before = state;
                        state.animations.push(Animation::LogMessage { text: line_of(&name, desc.as_str()) });
                        state.animations.push(Animation::Pause { duration_ms: 150 });
                        assert(cues(state.animations@) =~= cues(before.animations@) + move_cues(a, ta));
                        Move::Made(state, next, ta)
                    },
                    Err(e) => {
                        state.push_error(error_line("Bot token error: ".to_owned(), &e));
                        assert(action_outcome(a, ta, Err(e)));
                        Move::Failed(state)
                    },
                };
            },
            None => {},
        }
    }
    let action = bot.choose_action(&cur, &mut state.rng);
    if !cur.has_room_for(&action) {
        return Move::Full(state, cur, action);
    }
    let desc = describe_action(&action, &cur);
    let ghost a = cur;
    match game::apply_action(cur, action, &mut state.rng) {
        Ok(next) => {
            proof {
                crate::validity::lemma_actions_keep_wf(a, action, next);
            }
            let ghost before = state;
            state.animations.push(Animation::LogMessage { text: line_of(&name, desc.as_str()) });
            state.animations.push(Animation::Pause { duration_ms: 200 });
            assert(cues(state.animations@) =~= cues(before.animations@) + move_cues(a, action));
            Move::Made(state, next, action)
        },
        Err(e) => {
            state.push_error(error_line(named_prefix("Bot error", &name), &e));
            assert(action_outcome(a, action, Err(e)));
            Move::Failed(state)
        },
    }
}

/// The bot's discard.
fn discard_move(state: AppState, cur: GameState, bot: &BasicBot, drew: Option<String>) -> (r: Move)
    requires
        state.wf(),
        state.game is None,
        state.log_room(1),
        cur.wf(),
        cur.phase is ChoosingDiscard,
        bot_to_act(cur),
        cur.seat_ok(),
    ensures
        r matches Move::Made(sb, b, act) ==> bot_step(state, cur, act, b, sb) && sb.wf() && sb.game is None && b.wf()
            && sb.tui.log_scroll_offset == state.tui.log_scroll_offset,
        r matches Move::Full(sb, b, act) ==> move_full(state, cur, sb, b, act) && sb.wf(),
        r matches Move::Failed(s) ==> move_failed(
            state,
            cur,
            match drew {
                Some(n) => Some(n@),
                None => None,
            },
            s,
        ) && s.wf(),
{
    let mut state = state;
    let action = bot.choose_discard(&cur, &mut state.rng);
    if !cur.has_room_for(&action) {
        return Move::Full(state, cur, action);
    }
    let ghost a = cur;
    match game::apply_action(cur, action, &mut state.rng) {
        Ok(next) => {
            proof {
                crate::validity::lemma_actions_keep_wf(a, action, next);
            }
            Move::Made(state, next, action)
        },
        Err(e) => {
            let prefix = match &drew {
                Some(n) => named_prefix("Bot discard error", n),
                None => "Bot discard error: ".to_owned(),
            };
            state.push_error(error_line(prefix, &e));
            assert(action_outcome(a, action, Err(e)));
            Move::Failed(state)
        },
    }
}

/// The bot's Impostor or PrimeSabacc choice.
fn choice_move(state: AppState, cur: GameState, bot: &BasicBot) -> (r: Move)
    requires
        state.wf(),
        state.game is None,
        state.log_room(1),
        cur.wf(),
        cur.phase is ImpostorReveal || cur.phase is PrimeSabaccChoice,
        bot_to_act(cur),
        cur.seat_ok(),
    ensures
        r matches Move::Made(sb, b, act) ==> bot_step(state, cur, act, b, sb) && sb.wf() && sb.game is None && b.wf()
            && sb.tui.log_scroll_offset == state.tui.log_scroll_offset,
        r matches Move::Full(sb, b, act) ==> move_full(state, cur, sb, b, act) && sb.wf(),
        r matches Move::Failed(s) ==> move_failed(state, cur, None, s) && s.wf(),
{
    let mut state = state;
    let (impostor, pid) = match &cur.phase {
        GamePhase::ImpostorReveal { pending, .. } => (true, pending[0]),
        GamePhase::PrimeSabaccChoice { player_id, .. } => (false, *player_id),
        _ => (false, 0),
    };
    let name = match find_player_index(&cur.players, pid) {
        Some(k) => cur.players[k].name.clone(),
        None => "?".to_owned(),
    };
    let action = if impostor {
        bot.choose_impostor(&cur, &mut state.rng)
    } else {
        bot.choose_prime_sabacc(&cur, &mut state.rng)
    };
    if !cur.has_room_for(&action) {
        return Move::Full(state, cur, action);
    }
    let ghost a = cur;
    match game::apply_action(cur, action, &mut state.rng) {
        Ok(next) => {
            proof {
                crate::validity::lemma_actions_keep_wf(a, action, next);
            }
            let ghost before = state;
            let text = if impostor {
                line_of(&name, "Imposteur")
            } else {
                line_of(&name, "PrimeSabacc")
            };
            state.animations.push(Animation::LogMessage { text });
            let ghost m = state;
            assert(cues(m.animations@) =~= cues(before.animations@).push(m.animations@.last()@));
            state.check_phase_transitions(&next);
            assert(phase_noted(m, state, next));
            Move::Made(state, next, action)
        },
        Err(e) => {
            let prefix = if impostor {
                "Bot impostor error: ".to_owned()
            } else {
                "Bot prime error: ".to_owned()
            };
            state.push_error(error_line(prefix, &e));
            assert(action_outcome(a, action, Err(e)));
            Move::Failed(state)
        },
    }
}

/// Whether a bot's decision is due.
fn bot_due(g: &GameState) -> (b: bool)
    ensures
        b == bot_to_act(*g),
{
    match &g.phase {
        GamePhase::TurnAction => g.current_player_idx < g.players.len() && g.players[g.current_player_idx].is_bot
            && !g.players[g.current_player_idx].is_eliminated,
        GamePhase::ChoosingDiscard { player_id, .. } => match find_player_index(&g.players, *player_id) {
            Some(k) => g.players[k].is_bot,
            None => false,
        },
        GamePhase::ImpostorReveal { pending, .. } => pending.len() > 0 && match find_player_index(&g.players, pending[0]) {
            Some(k) => g.players[k].is_bot,
            None => false,
        },
        GamePhase::PrimeSabaccChoice { player_id, .. } => match find_player_index(&g.players, *player_id) {
            Some(k) => g.players[k].is_bot,
            None => false,
        },
        _ => false,
    }
}

/// Runs bot turns one at a time, logging each action with animations.
/// Loops until it's the human's turn, a non-bot phase, or an error.
///
/// A run also stops, leaving the game as it is, when the current seat is off the table
/// or the move a bot chose has no room (a counter or a chip count would overflow).
pub fn run_bots(start: AppState) -> (s: AppState)
    requires
        start.wf(),
        start.log_room(1),
    ensures
        s.wf(),
        bots_ran(start, s),
{
    let bot = BasicBot;
    let ghost old_state = start;
    let mut state = start;
    let mut cur = match state.game.take() {
        Some(g) => g,
        None => {
            assert(state == old_state);
            return state;
        },
    };
    let ghost g0 = cur;
    let ghost mut sess: Seq<AppState> = seq![state];
    let ghost mut states: Seq<GameState> = seq![cur];
    let ghost mut acts: Seq<Action> = Seq::empty();
    let mut drew: Option<String> = None;
    assert(sess[0] == (AppState { game: None, ..old_state }));
    loop
        invariant
            state.wf(),
            state.game is None,
            cur.wf(),
            state.tui.log_scroll_offset == old_state.tui.log_scroll_offset,
            old_state.log_room(1),
            old_state.game == Some(g0),
            old_state == start,
            bot_trace(sess, states, acts),
            sess[0] == (AppState { game: None, ..old_state }),
            states[0] == g0,
            sess.last() == state,
            states.last() == cur,
            drew matches Some(n) ==> acts.len() > 0 && states[acts.len() - 1].phase is TurnAction && n@ == seat_name(
                states[acts.len() - 1],
            ),
            (acts.len() > 0 && states[acts.len() - 1].phase is TurnAction && cur.phase is ChoosingDiscard) ==> drew is Some,
        decreases
            progress::stage_rank(cur),
            progress::turns_left(cur),
            progress::seats_left(cur),
            progress::tokens_left(cur),
            progress::step_rank(cur),
            progress::pending_left(cur),
    {
        let kind: u8 = match &cur.phase {
            GamePhase::TurnAction => 0,
            GamePhase::ChoosingDiscard { .. } => 1,
            GamePhase::ImpostorReveal { .. } | GamePhase::PrimeSabaccChoice { .. } => 2,
            _ => 3,
        };
        if kind == 3 {
            let ghost sl = state;
            state.check_phase_transitions(&cur);
            let ghost m = state;
            state.game = Some(cur);
            proof {
                assert(phase_noted(sl, m, cur));
                assert(bot_end(sl, states, acts, state));
                assert(bot_trace(sess, states, acts));
            }
            return state;
        }
        let seat_in = cur.current_player_idx < cur.players.len();
        if (kind <= 1 && !seat_in) || !bot_due(&cur) {
            let ghost sl = state;
            state.game = Some(cur);
            proof {
                assert(bot_end(sl, states, acts, state));
                assert(bot_trace(sess, states, acts));
            }
            return state;
        }
        let name = if kind == 0 {
            cur.players[cur.current_player_idx].name.clone()
        } else {
            String::new()
        };
        let ghost sa = state;
        let ghost a = cur;
        let ghost drew_view: Option<Seq<char>> = match &drew {
            Some(n) => Some(n@),
            None => None,
        };
        let r = if kind == 0 {
            turn_move(state, cur, &bot)
        } else if kind == 1 {
            discard_move(state, cur, &bot, drew)
        } else {
            choice_move(state, cur, &bot)
        };
        match r {
            Move::Full(sb, b, act) => {
                let mut sb = sb;
                sb.game = Some(b);
                proof {
                    assert(answers(a, act) && basic_move(a, act) && !a.fits(act));
                    assert(bot_end(sa, states, acts, sb));
                    assert(bot_trace(sess, states, acts));
                }
                return sb;
            },
            Move::Made(sb, b, act) => {
                proof {
                    progress::lemma_step_moves_on(a, act, b);
                    let ghost old_sess = sess;
                    let ghost old_states = states;
                    let ghost old_acts = acts;
                    sess = sess.push(sb);
                    states = states.push(b);
                    acts = acts.push(act);
                    assert forall|i: int| 0 <= i < acts.len() implies bot_step(
                        sess[i],
                        states[i],
                        #[trigger] acts[i],
                        states[i + 1],
                        sess[i + 1],
                    ) by {
                        if i < old_acts.len() {
                            assert(acts[i] == old_acts[i] && states[i] == old_states[i] && states[i + 1]
                                == old_states[i + 1] && sess[i] == old_sess[i] && sess[i + 1] == old_sess[i + 1]);
                        }
                    }
                    assert(states[acts.len() - 1] == a);
                }
                let is_discard = match &b.phase {
                    GamePhase::ChoosingDiscard { .. } => true,
                    _ => false,
                };
                drew = if kind == 0 && is_discard {
                    Some(name)
                } else {
                    None
                };
                state = sb;
                cur = b;
            },
            Move::Failed(s) => {
                proof {
                    let (act, e) = choose|act: Action, e: GameError|
                        {
                            &&& #[trigger] action_outcome(a, act, Err(e))
                            &&& a.fits(act) && answers(a, act) && basic_move(a, act)
                            &&& s == (AppState { game: None, log: s.log, tui: s.tui, rng: s.rng, ..sa })
                            &&& lines(s.log@) == lines(sa.log@).push(
                                (move_error_prefix(a, act, if kind == 1 { drew_view } else { None }) + e.spec_message(), true),
                            )
                            &&& s.tui == (TuiState { log_scroll_offset: scrolled(sa.tui, 1), ..sa.tui })
                        };
                    assert(move_error_prefix(a, act, if kind == 1 { drew_view } else { None }) == bot_error_prefix(states, acts, act));
                    assert(bot_end(sa, states, acts, s));
                    assert(bot_trace(sess, states, acts));
                }
                return s;
            },
        }
    }
}

} // verus!
