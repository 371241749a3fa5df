//! A session of the terminal front end: the screens, the game in progress, the log and
//! the cues for the animations, and what each key and each tick does to them.

use rand::rngs::SmallRng;
use vstd::prelude::*;

use crate::animation::{cues, Animation, AnimationQueue, Cue};
use crate::error::GameError;
use crate::game::{self, action_outcome, choice_in_scale, Action, GamePhase, GameState};
use crate::labels::{spec_short_rank, short_rank};
use crate::player::{find_player_index, player_index, Player};
use crate::scoring::RoundResult;
use crate::screens::{Focus, LogEntry, Overlay, Screen, SetupState, TuiState};
use crate::PlayerId;

verus! {

/// The lines of a log: each entry's text and whether it reports an error.
pub open spec fn lines(v: Seq<LogEntry>) -> Seq<(Seq<char>, bool)> {
    v.map_values(|e: LogEntry| (e.text@, e.is_error))
}

/// Top-level state of the front end.
pub struct AppState {
    /// The screen shown.
    pub screen: Screen,
    /// The setup form.
    pub setup: SetupState,
    /// The game in progress, if any.
    pub game: Option<GameState>,
    /// The state of the widgets.
    pub tui: TuiState,
    /// Cues waiting for the animation player, in order.
    pub animations: AnimationQueue,
    /// The log.
    pub log: Vec<LogEntry>,
    /// The seeded generator of the session.
    pub rng: SmallRng,
    /// The players whose cards are shown.
    pub revealed_players: Vec<PlayerId>,
}

/// Whether the human (the player at the current seat, not a bot and still in the game)
/// is to act.
pub open spec fn human_turn(g: Option<GameState>) -> bool {
    g matches Some(s) && s.current_player_idx < s.players@.len() && !s.players@[s.current_player_idx as int].is_bot
        && !s.players@[s.current_player_idx as int].is_eliminated
}

/// The name of the player with id `id` in `g`, or `?`.
pub open spec fn name_of(g: GameState, id: PlayerId) -> Seq<char> {
    let k = player_index(g.players@, id);
    if k >= 0 {
        g.players@[k].name@
    } else {
        "?"@
    }
}

/// The ids of the players, in seating order.
pub open spec fn ids_of(s: Seq<Player>) -> Seq<PlayerId> {
    s.map_values(|p: Player| p.id)
}

/// How a result reads in the log: the winner, the penalty paid, or nothing lost.
pub open spec fn status_text(r: RoundResult) -> Seq<char> {
    if r.is_winner {
        "GAGNE"@
    } else if r.penalty > 0 {
        "-"@ + crate::text::decimal(r.penalty as nat)
    } else {
        "OK"@
    }
}

/// The cues for one revealed result.
pub open spec fn result_cues(g: GameState, r: RoundResult) -> Seq<Cue> {
    seq![
        Cue::Highlight(r.player_id, 300),
        Cue::Reveal(r.player_id, 500),
        Cue::Log(name_of(g, r.player_id) + ": "@ + spec_short_rank(r.rank) + " — "@ + status_text(r)),
        Cue::Wait(300),
    ]
}

/// The cues for a list of revealed results, in order.
pub open spec fn results_cues(g: GameState, rs: Seq<RoundResult>) -> Seq<Cue>
    decreases rs.len(),
{
    if rs.len() == 0 {
        Seq::empty()
    } else {
        results_cues(g, rs.drop_last()) + result_cues(g, rs.last())
    }
}

/// The position of the first winning result, or -1.
pub open spec fn first_winner(rs: Seq<RoundResult>) -> int
    decreases rs.len(),
{
    if rs.len() == 0 {
        -1
    } else if first_winner(rs.drop_last()) >= 0 {
        first_winner(rs.drop_last())
    } else if rs.last().is_winner {
        rs.len() - 1
    } else {
        -1
    }
}

/// The cues shown when the results are revealed: those of every result, then the name
/// of the first winner.
pub open spec fn reveal_cues(g: GameState, rs: Seq<RoundResult>) -> Seq<Cue> {
    results_cues(g, rs) + if first_winner(rs) >= 0 {
        seq![Cue::Log("Gagnant: "@ + name_of(g, rs[first_winner(rs)].player_id))]
    } else {
        Seq::empty()
    }
}

/// What the front end notes when a game reaches a new phase: the cues and the shown
/// cards of a revelation, or the game-over overlay.
pub open spec fn noted(old: AppState, new: AppState, g: GameState) -> bool {
    &&& new.animations.elapsed_ms == old.animations.elapsed_ms
    &&& match g.phase {
        GamePhase::Reveal { results } => {
            &&& cues(new.animations@) == cues(old.animations@) + reveal_cues(g, results@)
            &&& new.revealed_players@ == ids_of(g.players@)
            &&& new.tui.overlay == old.tui.overlay
        },
        GamePhase::GameOver { winner } => {
            &&& cues(new.animations@) == cues(old.animations@)
            &&& new.revealed_players@ == old.revealed_players@
            &&& new.tui.overlay matches Some(Overlay::GameOver { winner_name, is_human })
            &&& winner_name@ == name_of(g, winner)
            &&& is_human == (player_index(g.players@, winner) >= 0 && !g.players@[player_index(g.players@, winner)].is_bot)
        },
        _ => {
            &&& cues(new.animations@) == cues(old.animations@)
            &&& new.revealed_players@ == old.revealed_players@
            &&& new.tui.overlay == old.tui.overlay
        },
    }
}

/// What noting a phase changes: the cues, the shown cards and the overlay, as `noted`
/// says, and nothing else.
pub open spec fn phase_noted(old: AppState, new: AppState, g: GameState) -> bool {
    &&& noted(old, new, g)
    &&& new == (AppState { animations: new.animations, revealed_players: new.revealed_players, tui: new.tui, ..old })
    &&& new.tui == (TuiState { overlay: new.tui.overlay, ..old.tui })
}

impl AppState {
    /// The invariant of a session: the game in progress is valid, the form's fields and
    /// the selections point at entries that exist, and the dice offered for an Impostor
    /// are within the scale.
    pub open spec fn wf(self) -> bool {
        &&& self.game matches Some(g) ==> g.wf()
        &&& self.setup.buy_in_index < 4
        &&& self.setup.selected_field < 6
        &&& self.setup.num_bots < u8::MAX
        &&& self.setup.tokens_per_player < u8::MAX
        &&& self.tui.selected_source < 4
        &&& self.tui.selected_discard <= 1
        &&& self.tui.selected_die <= 1
        &&& self.tui.overlay matches Some(Overlay::ImpostorChoice { die1, die2, sand_choice, .. }) ==> die1 <= 7
            && die2 <= 7 && (sand_choice matches Some(v) ==> v <= 7)
    }

    /// The log view can move back `n` more lines.
    pub open spec fn log_room(self, n: int) -> bool {
        self.tui.log_scroll_offset + n <= usize::MAX
    }

    /// A fresh session on the setup screen, with the given generator.
    pub fn new(rng: SmallRng) -> (s: AppState)
        ensures
            s.wf(),
            s.screen == Screen::Setup,
            s.setup.player_name@ == "Player"@ && s.setup.num_bots == 3 && s.setup.buy_in_index == 1,
            s.setup.tokens_enabled && s.setup.tokens_per_player == 4 && s.setup.selected_field == 0,
            s.game is None,
            s.tui == crate::screens::default_tui(),
            s.rng == rng,
            s.animations@.len() == 0 && s.animations.elapsed_ms == 0,
            s.log@.len() == 0,
            s.revealed_players@.len() == 0,
    {
        AppState {
            screen: Screen::Setup,
            setup: SetupState::default(),
            game: None,
            tui: TuiState::default(),
            animations: AnimationQueue::new(),
            log: Vec::new(),
            rng,
            revealed_players: Vec::new(),
        }
    }

    /// Returns true if it's the human player's turn.
    pub fn is_human_turn(&self) -> (b: bool)
        ensures
            b == human_turn(self.game),
    {
        match &self.game {
            Some(g) => g.current_player_idx < g.players.len() && !g.players[g.current_player_idx].is_bot
                && !g.players[g.current_player_idx].is_eliminated,
            None => false,
        }
    }

    /// Returns the human player (always the first seat).
    pub fn human_player(&self) -> (p: Option<&Player>)
        ensures
            p == (match self.game {
                Some(g) => if g.players@.len() > 0 {
                    Some(&g.players@[0])
                } else {
                    None
                },
                None => None,
            }),
    {
        match &self.game {
            Some(g) => if g.players.len() > 0 {
                Some(&g.players[0])
            } else {
                None
            },
            None => None,
        }
    }

    /// The player at the current seat.
    pub fn current_player(&self) -> (p: Option<&Player>)
        ensures
            p == (match self.game {
                Some(g) => if g.current_player_idx < g.players@.len() {
                    Some(&g.players@[g.current_player_idx as int])
                } else {
                    None
                },
                None => None,
            }),
    {
        match &self.game {
            Some(g) => if g.current_player_idx < g.players.len() {
                Some(&g.players[g.current_player_idx])
            } else {
                None
            },
            None => None,
        }
    }

    /// Write a line to the log (the view stays where it is when it does not follow).
    pub fn push_log(&mut self, text: String)
        requires
            old(self).tui.log_scroll_offset < usize::MAX,
        ensures
            lines(final(self).log@) == lines(old(self).log@).push((text@, false)),
            final(self).tui == (TuiState {
                log_scroll_offset: (if old(self).tui.log_auto_scroll {
                    old(self).tui.log_scroll_offset
                } else {
                    (old(self).tui.log_scroll_offset + 1) as usize
                }),
                ..old(self).tui
            }),
            *final(self) == (AppState { log: final(self).log, tui: final(self).tui, ..*old(self) }),
    {
        self.log.push(LogEntry { text, is_error: false });
        assert(lines(self.log@) =~= lines(old(self).log@).push((text@, false)));
        if !self.tui.log_auto_scroll {
            self.tui.log_scroll_offset = self.tui.log_scroll_offset + 1;
        }
    }

    /// Write an error to the log (the view stays where it is when it does not follow).
    pub fn push_error(&mut self, text: String)
        requires
            old(self).tui.log_scroll_offset < usize::MAX,
        ensures
            lines(final(self).log@) == lines(old(self).log@).push((text@, true)),
            final(self).tui == (TuiState {
                log_scroll_offset: (if old(self).tui.log_auto_scroll {
                    old(self).tui.log_scroll_offset
                } else {
                    (old(self).tui.log_scroll_offset + 1) as usize
                }),
                ..old(self).tui
            }),
            *final(self) == (AppState { log: final(self).log, tui: final(self).tui, ..*old(self) }),
    {
        self.log.push(LogEntry { text, is_error: true });
        assert(lines(self.log@) =~= lines(old(self).log@).push((text@, true)));
        if !self.tui.log_auto_scroll {
            self.tui.log_scroll_offset = self.tui.log_scroll_offset + 1;
        }
    }
}

/// The name of the player with id `id`, or `?`.
fn name_text(g: &GameState, id: PlayerId) -> (s: String)
    ensures
        s@ == name_of(*g, id),
{
    match find_player_index(&g.players, id) {
        Some(k) => g.players[k].name.clone(),
        None => "?".to_owned(),
    }
}

fn status_str(r: &RoundResult) -> (s: String)
    ensures
        s@ == status_text(*r),
{
    if r.is_winner {
        "GAGNE".to_owned()
    } else if r.penalty > 0 {
        crate::text::text_with_number("-", r.penalty as usize)
    } else {
        "OK".to_owned()
    }
}

impl AppState {
    /// Note a game that reached a new phase: at a revelation, queue the cues of the
    /// results and show every player's cards; at the end of the game, show who won.
    pub fn check_phase_transitions(&mut self, game: &GameState)
        ensures
            phase_noted(*old(self), *final(self), *game),
    {
        match &game.phase {
            GamePhase::Reveal { results } => {
                let mut i: usize = 0;
                while i < results.len()
                    invariant
                        i <= results@.len(),
                        cues(self.animations@) == cues(old(self).animations@) + results_cues(*game, results@.take(i as int)),
                        *self == (AppState { animations: self.animations, ..*old(self) }),
                        self.animations.elapsed_ms == old(self).animations.elapsed_ms,
                    decreases results@.len() - i,
                {
                    let r = &results[i];
                    let mut text = name_text(game, r.player_id);
                    text.append(": ");
                    text.append(short_rank(&r.rank).as_str());
                    text.append(" — ");
                    text.append(status_str(r).as_str());
                    let ghost before = self.animations@;
                    self.animations.push(Animation::PlayerHighlight { player_id: r.player_id, duration_ms: 300 });
                    self.animations.push(Animation::CardReveal { player_id: r.player_id, delay_ms: 500 });
                    self.animations.push(Animation::LogMessage { text });
                    self.animations.push(Animation::Pause { duration_ms: 300 });
                    proof {
                        assert(results@.take(i + 1).drop_last() =~= results@.take(i as int));
                        assert(cues(self.animations@) =~= cues(before) + result_cues(*game, results@[i as int]));
                    }
                    i = i + 1;
                }
                assert(results@.take(results@.len() as int) =~= results@);
                let mut w: usize = 0;
                while w < results.len() && !results[w].is_winner
                    invariant
                        w <= results@.len(),
                        forall|k: int| 0 <= k < w ==> !(#[trigger] results@[k]).is_winner,
                    decreases results@.len() - w,
                {
                    w = w + 1;
                }
                proof {
                    lemma_first_winner(results@, w as int);
                }
                let ghost mid = self.animations@;
                if w < results.len() {
                    let mut text = "Gagnant: ".to_owned();
                    text.append(name_text(game, results[w].player_id).as_str());
                    self.animations.push(Animation::LogMessage { text });
                    assert(cues(self.animations@) =~= cues(mid).push(
                        Cue::Log("Gagnant: "@ + name_of(*game, results@[w as int].player_id)),
                    ));
                } else {
                    assert(reveal_cues(*game, results@) =~= results_cues(*game, results@));
                }
                assert(cues(self.animations@) =~= cues(old(self).animations@) + reveal_cues(*game, results@));
                let mut ids: Vec<PlayerId> = Vec::new();
                let mut j: usize = 0;
                while j < game.players.len()
                    invariant
                        j <= game.players@.len(),
                        ids@ == ids_of(game.players@.take(j as int)),
                    decreases game.players@.len() - j,
                {
                    ids.push(game.players[j].id);
                    assert(ids_of(game.players@.take(j + 1)) =~= ids_of(game.players@.take(j as int)).push(game.players@[j as int].id));
                    j = j + 1;
                }
                assert(game.players@.take(game.players@.len() as int) =~= game.players@);
                self.revealed_players = ids;
            },
            GamePhase::GameOver { winner } => {
                let (winner_name, is_human) = match find_player_index(&game.players, *winner) {
                    Some(k) => (game.players[k].name.clone(), !game.players[k].is_bot),
                    None => ("?".to_owned(), false),
                };
                self.tui.overlay = Some(Overlay::GameOver { winner_name, is_human });
            },
            _ => {},
        }
    }
}

/// The first winner is found by a scan that stops at the first winning result.
proof fn lemma_first_winner(rs: Seq<RoundResult>, w: int)
    requires
        0 <= w <= rs.len(),
        forall|k: int| 0 <= k < w ==> !(#[trigger] rs[k]).is_winner,
        w < rs.len() ==> rs[w].is_winner,
    ensures
        first_winner(rs) == (if w < rs.len() { w } else { -1 }),
    decreases rs.len(),
{
    if rs.len() > 0 {
        if w < rs.len() - 1 || w == rs.len() {
            if w == rs.len() {
                lemma_first_winner(rs.drop_last(), w - 1);
            } else {
                lemma_first_winner(rs.drop_last(), w);
            }
        } else {
            lemma_first_winner(rs.drop_last(), w);
        }
    }
}

/// The log view's offset after `n` more lines: unchanged while it follows the log,
/// `n` further back otherwise.
pub open spec fn scrolled(t: TuiState, n: int) -> usize {
    if t.log_auto_scroll {
        t.log_scroll_offset
    } else {
        (t.log_scroll_offset + n) as usize
    }
}

/// The text reported when a game state has no room left for the action asked of it.
pub open spec fn limit_text() -> Seq<char> {
    "Erreur: limite de la partie atteinte"@
}

/// What applying `action` to the game in progress does to the session. Without a game
/// nothing happens. A game with no room for the action (a counter or a chip count that
/// would overflow) is kept and the fact logged.
/// Otherwise the action is applied: a new state is kept and its phase noted; a refused
/// action is logged, and the game is lost with it.
pub open spec fn action_applied(old: AppState, action: Action, new: AppState) -> bool {
    match old.game {
        None => new == old,
        Some(g) => if !(g.seat_ok() && g.fits(action)) {
            &&& new == (AppState { log: new.log, tui: new.tui, ..old })
            &&& lines(new.log@) == lines(old.log@).push((limit_text(), true))
            &&& new.tui == (TuiState { log_scroll_offset: scrolled(old.tui, 1), ..old.tui })
        } else {
            exists|res: Result<GameState, GameError>|
                #[trigger] action_outcome(g, action, res) && match res {
                    Ok(ng) => {
                        &&& new == (AppState {
                            game: Some(ng),
                            animations: new.animations,
                            revealed_players: new.revealed_players,
                            tui: new.tui,
                            rng: new.rng,
                            ..old
                        })
                        &&& noted(old, new, ng)
                        &&& new.tui == (TuiState { overlay: new.tui.overlay, ..old.tui })
                    },
                    Err(e) => {
                        &&& new == (AppState { game: None, log: new.log, tui: new.tui, rng: new.rng, ..old })
                        &&& lines(new.log@) == lines(old.log@) + seq![
                            ("Erreur: "@ + e.spec_message(), true),
                            ("État du jeu perdu suite à une erreur."@, true),
                        ]
                        &&& new.tui == (TuiState { log_scroll_offset: scrolled(old.tui, 2), ..old.tui })
                    },
                }
        },
    }
}

impl AppState {
    /// Apply an action to the game in progress.
    pub fn apply_game_action(self, action: Action) -> (s: AppState)
        requires
            self.wf(),
            self.log_room(2),
            action matches Action::SubmitImpostorChoice(c) ==> choice_in_scale(c),
        ensures
            s.wf(),
            action_applied(self, action, s),
    {
        let mut state = self;
        let ghost old_state = state;
        let game_state = match state.game.take() {
            Some(g) => g,
            None => {
                assert(state.game == old_state.game);
                assert(state == old_state);
                return state;
            },
        };
        let seat_in = game_state.current_player_idx < game_state.players.len();
        let needs_seat = match game_state.phase {
            GamePhase::TurnAction | GamePhase::ChoosingDiscard { .. } => true,
            _ => false,
        };
        if (needs_seat && !seat_in) || !game_state.has_room_for(&action) {
            state.game = Some(game_state);
            state.push_error("Erreur: limite de la partie atteinte".to_owned());
            return state;
        }
        let ghost g = game_state;
        match game::apply_action(game_state, action, &mut state.rng) {
            Ok(new_game) => {
                proof {
                    crate::validity::lemma_actions_keep_wf(g, action, new_game);
                }
                let ghost before = state;
                state.check_phase_transitions(&new_game);
                state.game = Some(new_game);
                assert(action_outcome(g, action, Ok::<GameState, GameError>(new_game)));
                state
            },
            Err(e) => {
                let mut text = "Erreur: ".to_owned();
                text.append(e.message().as_str());
                let ghost before = state;
                state.push_error(text);
                state.push_error("État du jeu perdu suite à une erreur.".to_owned());
                assert(lines(state.log@) =~= lines(old_state.log@) + seq![
                    ("Erreur: "@ + e.spec_message(), true),
                    ("État du jeu perdu suite à une erreur."@, true),
                ]);
                assert(action_outcome(g, action, Err::<GameState, GameError>(e)));
                state
            },
        }
    }
}

/// A game as the setup form starts it: valid, dealt, in the first turn of the first
/// round, configured as the form says, with the seats in the configured order, each
/// holding the starting chips and a hand.
pub open spec fn started_from(setup: SetupState, g: GameState) -> bool {
    &&& g.wf()
    &&& g.phase is TurnAction
    &&& g.round == 1 && g.turn == 1
    &&& crate::screens::configured(setup, g.config)
    &&& g.players@.len() == 1 + setup.num_bots
    &&& forall|i: int| 0 <= i < g.players@.len() ==> {
        let p = #[trigger] g.players@[i];
        &&& p.id == i
        &&& p.name@ == g.config.players@[i].0@
        &&& p.is_bot == g.config.players@[i].1
        &&& p.chips == g.config.starting_chips
        &&& p.pot == 0
        &&& !p.is_eliminated
        &&& p.hand is Some
    }
}

/// Starting the game from the form: with two to four players the game is dealt and
/// shown; otherwise the configuration error is logged.
pub open spec fn game_started(old: AppState, new: AppState) -> bool {
    let n = 1 + old.setup.num_bots;
    if n < 2 || n > 4 {
        &&& new == (AppState { log: new.log, tui: new.tui, rng: new.rng, ..old })
        &&& lines(new.log@) == lines(old.log@).push((
            "Erreur de configuration: "@ + ("invalid config: "@ + ("need 2-4 players, got "@ + crate::text::decimal(
                n as nat,
            ))),
            true,
        ))
        &&& new.tui == (TuiState { log_scroll_offset: scrolled(old.tui, 1), ..old.tui })
    } else {
        &&& new == (AppState {
            game: new.game,
            screen: Screen::Playing,
            tui: new.tui,
            log: new.log,
            rng: new.rng,
            ..old
        })
        &&& new.game matches Some(g) && started_from(old.setup, g)
        &&& new.tui == (TuiState { focus: Focus::ActionBar, log_scroll_offset: scrolled(old.tui, 1), ..old.tui })
        &&& lines(new.log@) == lines(old.log@).push(("Partie lancée !"@, false))
    }
}

/// Starting a fresh game of two to four players always deals.
proof fn lemma_start_deals(f: GameState, res: Result<GameState, GameError>)
    requires
        f.phase is Setup,
        f.players@.len() <= 4,
        f.sand_deck.draw_pile@.len() == 22 && f.sand_deck.discard_pile@.len() == 0,
        f.blood_deck.draw_pile@.len() == 22 && f.blood_deck.discard_pile@.len() == 0,
        game::start_outcome(f, res),
    ensures
        res is Ok,
{
    let mid = choose|mid: GameState|
        #[trigger] game::tokens_distributed(f.players@, mid.players@, f.config.token_distribution) && mid == (
        GameState { players: mid.players, ..f }) && if game::can_deal(mid.players@, f.sand_deck, f.blood_deck) {
            res matches Ok(new) && new == (GameState {
                players: new.players,
                sand_deck: new.sand_deck,
                blood_deck: new.blood_deck,
                round: 1,
                turn: 1,
                current_player_idx: game::next_active(new.players@, 0) as usize,
                phase: GamePhase::TurnAction,
                ..f
            }) && game::dealt(mid.players@, new.players@, f.sand_deck, new.sand_deck, f.blood_deck, new.blood_deck)
        } else {
            res == Err::<GameState, GameError>(game::deal_error(f.sand_deck, f.blood_deck))
        };
    lemma_active_at_most_seats(mid.players@);
    assert(f.sand_deck.all_cards() =~= f.sand_deck.draw_pile@);
    assert(f.blood_deck.all_cards() =~= f.blood_deck.draw_pile@);
}

/// The started game keeps every seat as the fresh game had it, with a hand dealt.
proof fn lemma_started_seats(f: GameState, g: GameState)
    requires
        f.phase is Setup,
        forall|i: int| 0 <= i < f.players@.len() ==> !(#[trigger] f.players@[i]).is_eliminated,
        game::start_outcome(f, Ok(g)),
    ensures
        g.config == f.config,
        g.players@.len() == f.players@.len(),
        g.round == 1 && g.turn == 1 && g.phase is TurnAction,
        forall|i: int| 0 <= i < g.players@.len() ==> {
            let p = #[trigger] g.players@[i];
            let q = f.players@[i];
            &&& p.id == q.id && p.name == q.name && p.is_bot == q.is_bot && p.chips == q.chips && p.pot == q.pot
            &&& !p.is_eliminated
            &&& p.hand is Some
        },
{
    let mid = choose|mid: GameState|
        #[trigger] game::tokens_distributed(f.players@, mid.players@, f.config.token_distribution) && mid == (
        GameState { players: mid.players, ..f }) && if game::can_deal(mid.players@, f.sand_deck, f.blood_deck) {
            Ok::<GameState, GameError>(g) matches Ok(new) && new == (GameState {
                players: new.players,
                sand_deck: new.sand_deck,
                blood_deck: new.blood_deck,
                round: 1,
                turn: 1,
                current_player_idx: game::next_active(new.players@, 0) as usize,
                phase: GamePhase::TurnAction,
                ..f
            }) && game::dealt(mid.players@, new.players@, f.sand_deck, new.sand_deck, f.blood_deck, new.blood_deck)
        } else {
            Ok::<GameState, GameError>(g) == Err::<GameState, GameError>(game::deal_error(f.sand_deck, f.blood_deck))
        };
    assert forall|i: int| 0 <= i < g.players@.len() implies {
        let p = #[trigger] g.players@[i];
        let q = f.players@[i];
        &&& p.id == q.id && p.name == q.name && p.is_bot == q.is_bot && p.chips == q.chips && p.pot == q.pot
        &&& !p.is_eliminated
        &&& p.hand is Some
    } by {
        assert(mid.players@[i] == (Player { shift_tokens: mid.players@[i].shift_tokens, ..f.players@[i] }));
        assert(g.players@[i] == (Player { hand: g.players@[i].hand, ..mid.players@[i] }));
    }
}

proof fn lemma_active_at_most_seats(s: Seq<Player>)
    ensures
        crate::round::active_ids(s).len() <= s.len(),
    decreases s.len(),
{
    if s.len() > 0 {
        lemma_active_at_most_seats(s.drop_last());
    }
}

impl AppState {
    /// Start the game the setup form describes.
    pub fn start_game(self) -> (s: AppState)
        requires
            self.setup.buy_in_index < 4,
            self.log_room(1),
        ensures
            game_started(self, s),
    {
        let mut state = self;
        let config = state.setup.game_config();
        let ghost old_state = state;
        match game::new_game(config, &mut state.rng) {
            Ok(fresh) => {
                let ghost f = fresh;
                match game::apply_action(fresh, Action::StartGame, &mut state.rng) {
                    Ok(started) => {
                        proof {
                            crate::validity::lemma_actions_keep_wf(f, Action::StartGame, started);
                            lemma_started_seats(f, started);
                        }
                        state.game = Some(started);
                        state.screen = Screen::Playing;
                        state.tui.focus = Focus::ActionBar;
                        state.push_log("Partie lancée !".to_owned());
                        assert(started_from(old_state.setup, started));
                        state
                    },
                    Err(e) => {
                        proof {
                            lemma_start_deals(f, Err(e));
                        }
                        let mut text = "Erreur au démarrage: ".to_owned();
                        text.append(e.message().as_str());
                        state.push_error(text);
                        state
                    },
                }
            },
            Err(e) => {
                let mut text = "Erreur de configuration: ".to_owned();
                text.append(e.message().as_str());
                state.push_error(text);
                assert(lines(state.log@) =~= lines(old_state.log@).push((
                    "Erreur de configuration: "@ + ("invalid config: "@ + ("need 2-4 players, got "@ + crate::text::decimal(
                        (1 + old_state.setup.num_bots) as nat,
                    ))),
                    true,
                )));
                state
            },
        }
    }
}

/// The position of a buy-in among those offered, or the second position when it is not
/// offered.
pub open spec fn buy_in_position(b: u32) -> usize {
    if b == 50 {
        0
    } else if b == 100 {
        1
    } else if b == 150 {
        2
    } else if b == 200 {
        3
    } else {
        1
    }
}

/// A fresh session on the setup screen with the form `setup`.
pub open spec fn fresh_with(f: AppState, setup: SetupState) -> bool {
    &&& f.screen == Screen::Setup
    &&& f.setup == setup
    &&& f.game is None
    &&& f.tui == crate::screens::default_tui()
    &&& f.log@.len() == 0
    &&& f.animations@.len() == 0 && f.animations.elapsed_ms == 0
    &&& f.revealed_players@.len() == 0
}

impl AppState {
    /// Whether cues are waiting to be played.
    pub fn is_animating(&self) -> (b: bool)
        ensures
            b == (self.animations@.len() > 0),
    {
        self.animations.is_animating()
    }

    /// Shortcut: a session that skips the form and starts the game it describes, with
    /// four tokens per player when tokens are on.
    pub fn quick_start(name: String, num_bots: u8, buy_in: u32, tokens: bool, rng: SmallRng) -> (s: AppState)
        ensures
            exists|f: AppState|
                #[trigger] game_started(f, s) && fresh_with(
                    f,
                    SetupState {
                        player_name: name,
                        num_bots,
                        buy_in_index: buy_in_position(buy_in),
                        tokens_enabled: tokens,
                        tokens_per_player: 4,
                        selected_field: 0,
                    },
                ),
            num_bots < u8::MAX ==> s.wf(),
    {
        let mut state = AppState::new(rng);
        state.setup.player_name = name;
        state.setup.num_bots = num_bots;
        state.setup.buy_in_index = if buy_in == 50 {
            0
        } else if buy_in == 100 {
            1
        } else if buy_in == 150 {
            2
        } else if buy_in == 200 {
            3
        } else {
            1
        };
        state.setup.tokens_enabled = tokens;
        let ghost f = state;
        let s = state.start_game();
        assert(game_started(f, s));
        s
    }
}

} // verus!
