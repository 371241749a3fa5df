//! The game state machine: configuration, phases, actions and their effects.

use rand::rngs::SmallRng;
use vstd::prelude::*;

use crate::bot::{BotDifficulty, BotStrategy};
use crate::progress;
use crate::card::{Card, CardValue, Family};
use crate::hand::Hand;
use crate::deck::FamilyDeck;
use crate::error::GameError;
use crate::player::{find_player_index, lemma_player_index, player_index, same_ids, Player};
use crate::round::{self, active_ids, impostor_ids, spec_entries};
use crate::scoring::{round_invertible, spec_round_result, ActiveModifiers, ImpostorChoice, RoundResult};
use crate::shift_token::ShiftToken;
use crate::stats::{stats_index, GameStats, PlayerStats};
use crate::text::{decimal, text_with_number};
use crate::turn::{DiscardChoice, DrawSource, TurnAction};
use crate::PlayerId;

verus! {

/// How shift tokens are distributed to players at game start.
#[derive(Debug, Clone, PartialEq)]
pub enum TokenDistribution {
    /// Each player gets `tokens_per_player` random tokens from the 16 types.
    Random { tokens_per_player: usize },
    /// Each player gets a fixed set of tokens.
    Fixed(Vec<ShiftToken>),
    /// No tokens distributed.
    NoTokens,
}

/// Pending audit effects to resolve at end of turn.
#[derive(Debug, Clone, Copy, PartialEq, Eq, Structural)]
pub struct PendingAudit {
    /// Whether a GeneralAudit is active.
    pub general: bool,
    /// The player who played GeneralAudit (excluded from effect).
    pub general_source: Option<PlayerId>,
    /// Target player for TargetAudit.
    pub target: Option<PlayerId>,
}

impl PendingAudit {
    /// No audit is pending.
    pub open spec fn none() -> PendingAudit {
        PendingAudit { general: false, general_source: None, target: None }
    }
}

impl Default for PendingAudit {
    fn default() -> (a: Self)
        ensures
            a == PendingAudit::none(),
    {
        PendingAudit { general: false, general_source: None, target: None }
    }
}

/// Configuration for a new game.
#[derive(Debug, Clone, PartialEq)]
pub struct GameConfig {
    /// Player names and bot status. First element is the human player.
    pub players: Vec<(String, bool)>,
    /// Starting chips per player.
    pub starting_chips: u8,
    /// Credits buy-in per player.
    pub buy_in: u32,
    /// Whether shift tokens are enabled.
    pub enable_shift_tokens: bool,
    /// How tokens are distributed.
    pub token_distribution: TokenDistribution,
    /// Bot difficulty level.
    pub bot_difficulty: BotDifficulty,
}

impl Default for GameConfig {
    fn default() -> (c: Self)
        ensures
            c.players@.len() == 2,
            c.players@[0].0@ == "Player"@,
            !c.players@[0].1,
            c.players@[1].0@ == "Bot 1"@,
            c.players@[1].1,
            c.starting_chips == 6,
            c.buy_in == 100,
            !c.enable_shift_tokens,
            c.token_distribution is NoTokens,
            c.bot_difficulty == BotDifficulty::Basic,
    {
        let mut players: Vec<(String, bool)> = Vec::new();
        players.push(("Player".to_owned(), false));
        players.push(("Bot 1".to_owned(), true));
        GameConfig {
            players,
            starting_chips: 6,
            buy_in: 100,
            enable_shift_tokens: false,
            token_distribution: TokenDistribution::NoTokens,
            bot_difficulty: BotDifficulty::Basic,
        }
    }
}

/// The current phase of the game.
#[derive(Debug, Clone, PartialEq)]
pub enum GamePhase {
    /// Game not yet started.
    Setup,
    /// A player must choose Draw or Stand.
    TurnAction,
    /// A player has drawn a card and must choose what to discard.
    ChoosingDiscard {
        /// The player making the choice.
        player_id: PlayerId,
        /// The card that was drawn.
        drawn_card: Card,
    },
    /// One or more players have Impostors and must choose die values.
    ImpostorReveal {
        /// Players who still need to submit their impostor choices.
        pending: Vec<PlayerId>,
        /// Choices already submitted.
        submitted: Vec<ImpostorChoice>,
    },
    /// All hands revealed, showing results.
    Reveal {
        /// The round results.
        results: Vec<RoundResult>,
    },
    /// A player must choose a PrimeSabacc dice value.
    PrimeSabaccChoice {
        /// The player who played PrimeSabacc.
        player_id: PlayerId,
        /// First die value.
        die1: u8,
        /// Second die value.
        die2: u8,
    },
    /// Round ended, waiting to advance.
    RoundEnd,
    /// Game is over.
    GameOver {
        /// The winner's ID.
        winner: PlayerId,
    },
}

/// Per-turn ephemeral state that is reset between turns/rounds.
#[derive(Debug, Clone, PartialEq)]
pub struct TurnEphemeral {
    /// Players who chose Stand this turn (for Audit resolution).
    pub stood_this_turn: Vec<PlayerId>,
    /// Player forced to Stand by Embargo (if any).
    pub embargoed_player: Option<PlayerId>,
    /// Whether a shift token has been played this turn by the current player.
    pub token_played_this_turn: bool,
    /// Whether FreeDraw is active for the current player's draw.
    pub free_draw_active: bool,
    /// Pending audit effects.
    pub pending_audit: PendingAudit,
}

impl TurnEphemeral {
    /// The state at the start of a round: nobody stood, no embargo, no token played,
    /// no free draw, no audit pending.
    pub open spec fn is_clear(self) -> bool {
        &&& self.stood_this_turn@ == Seq::<PlayerId>::empty()
        &&& self.embargoed_player is None
        &&& !self.token_played_this_turn
        &&& !self.free_draw_active
        &&& self.pending_audit == PendingAudit::none()
    }
}

impl Default for TurnEphemeral {
    fn default() -> (t: Self)
        ensures
            t.is_clear(),
    {
        TurnEphemeral {
            stood_this_turn: Vec::new(),
            embargoed_player: None,
            token_played_this_turn: false,
            free_draw_active: false,
            pending_audit: PendingAudit::default(),
        }
    }
}

/// The complete game state.
#[derive(Debug, Clone, PartialEq)]
pub struct GameState {
    /// All players in the game.
    pub players: Vec<Player>,
    /// The Sand deck.
    pub sand_deck: FamilyDeck,
    /// The Blood deck.
    pub blood_deck: FamilyDeck,
    /// Current round number (starts at 1).
    pub round: u8,
    /// Current turn within the round (1, 2, or 3).
    pub turn: u8,
    /// Index of the current player in the players vec.
    pub current_player_idx: usize,
    /// Current game phase.
    pub phase: GamePhase,
    /// Credits in the pot.
    pub credits_in_pot: u32,
    /// Active modifiers from shift tokens.
    pub modifiers: ActiveModifiers,
    /// Game configuration.
    pub config: GameConfig,
    /// Per-turn ephemeral state.
    pub turn_state: TurnEphemeral,
    /// Order in which players were eliminated: (player_id, round_number).
    pub elimination_order: Vec<(PlayerId, u8)>,
    /// Aggregate game statistics.
    pub stats: GameStats,
}

/// An action that can be applied to the game state.
#[derive(Debug, Clone, Copy, PartialEq, Eq, Structural)]
pub enum Action {
    /// Start the game from Setup phase.
    StartGame,
    /// A player performs a turn action (Draw or Stand).
    PlayerAction { player_id: PlayerId, action: TurnAction },
    /// A player chooses what to discard after drawing.
    ChooseDiscard { player_id: PlayerId, choice: DiscardChoice },
    /// A player submits their impostor die choice.
    SubmitImpostorChoice(ImpostorChoice),
    /// Advance to the next round after viewing results.
    AdvanceRound,
    /// Play a shift token.
    PlayShiftToken { player_id: PlayerId, token: ShiftToken },
    /// Submit a PrimeSabacc dice choice.
    SubmitPrimeSabaccChoice { player_id: PlayerId, chosen_value: u8 },
}

/// A numbered card keeps within the scale on which CookTheBooks can invert a pair.
pub open spec fn card_in_scale(c: Card) -> bool {
    c.value matches CardValue::Number(n) ==> n <= 7
}

/// Every card of the sequence is within the scale.
pub open spec fn cards_in_scale(cards: Seq<Card>) -> bool {
    forall|i: int| 0 <= i < cards.len() ==> card_in_scale(#[trigger] cards[i])
}

/// No two players share an id.
pub open spec fn ids_distinct(s: Seq<Player>) -> bool {
    forall|i: int, j: int| 0 <= i < s.len() && 0 <= j < s.len() && i != j ==> (#[trigger] s[i]).id != (#[trigger] s[j]).id
}

/// Every hand held is well-formed and within the scale.
pub open spec fn hands_ok(s: Seq<Player>) -> bool {
    forall|i: int| 0 <= i < s.len() ==> ((#[trigger] s[i]).hand matches Some(h) ==> h.wf() && card_in_scale(h.sand) && card_in_scale(h.blood))
}

/// A chosen die value keeps within the scale.
pub open spec fn choice_in_scale(c: ImpostorChoice) -> bool {
    &&& (c.sand_choice matches Some(v) ==> v <= 7)
    &&& (c.blood_choice matches Some(v) ==> v <= 7)
}

impl GameState {
    /// The invariant every reachable game state keeps: each deck holds only its own
    /// family, players have distinct ids, hands are well-formed, and every card (and
    /// every submitted die choice) stays within the scale.
    pub open spec fn wf(self) -> bool {
        &&& self.sand_deck.wf()
        &&& self.blood_deck.wf()
        &&& self.sand_deck.family == Family::Sand
        &&& self.blood_deck.family == Family::Blood
        &&& ids_distinct(self.players@)
        &&& hands_ok(self.players@)
        &&& cards_in_scale(self.sand_deck.all_cards())
        &&& cards_in_scale(self.blood_deck.all_cards())
        &&& (self.phase matches GamePhase::ChoosingDiscard { drawn_card, .. } ==> card_in_scale(drawn_card))
        &&& (self.phase matches GamePhase::ImpostorReveal { submitted, .. } ==> forall|i: int|
            0 <= i < submitted@.len() ==> choice_in_scale(#[trigger] submitted@[i]))
        &&& (self.phase matches GamePhase::Reveal { results } ==> result_ids_distinct(results@))
    }
}

/// The position of the first active player at or after `i` (or `i` itself when it is
/// past the last seat).
pub open spec fn next_active(s: Seq<Player>, i: int) -> int
    decreases s.len() - i,
{
    if i >= s.len() || i < 0 {
        i
    } else if !s[i].is_eliminated {
        i
    } else {
        next_active(s, i + 1)
    }
}

/// Skip to the first non-eliminated player from current_player_idx.
fn skip_eliminated(state: &mut GameState)
    ensures
        *final(state) == (GameState {
            current_player_idx: next_active(old(state).players@, old(state).current_player_idx as int) as usize,
            ..*old(state)
        }),
        final(state).current_player_idx == next_active(old(state).players@, old(state).current_player_idx as int),
        old(state).current_player_idx <= final(state).current_player_idx,
        final(state).current_player_idx <= old(state).current_player_idx || final(state).current_player_idx
            <= old(state).players@.len(),
{
    while state.current_player_idx < state.players.len() && state.players[state.current_player_idx].is_eliminated
        invariant
            *state == (GameState { current_player_idx: state.current_player_idx, ..*old(state) }),
            old(state).current_player_idx <= state.current_player_idx,
            next_active(state.players@, state.current_player_idx as int) == next_active(
                old(state).players@,
                old(state).current_player_idx as int,
            ),
            state.current_player_idx <= old(state).current_player_idx || state.current_player_idx
                <= state.players@.len(),
        decreases state.players@.len() - state.current_player_idx,
    {
        state.current_player_idx = state.current_player_idx + 1;
    }
}

/// Whether a list of ids holds `id`.
fn list_contains(list: &Vec<PlayerId>, id: PlayerId) -> (b: bool)
    ensures
        b == list@.contains(id),
{
    let mut i: usize = 0;
    while i < list.len()
        invariant
            i <= list@.len(),
            forall|j: int| 0 <= j < i ==> list@[j] != id,
        decreases list.len() - i,
    {
        if list[i] == id {
            assert(list@[i as int] == id);
            return true;
        }
        i = i + 1;
    }
    false
}

/// The players after the first player with id `pid` pays a penalty of `amount`.
pub open spec fn penalize(players: Seq<Player>, pid: PlayerId, amount: u8) -> Seq<Player> {
    let k = player_index(players, pid);
    if k >= 0 {
        players.update(k, players[k].after_penalty(amount))
    } else {
        players
    }
}

/// The statistics after `amount` chips are counted as lost to tariffs by `pid`.
pub open spec fn add_tariff(stats: Seq<PlayerStats>, pid: PlayerId, amount: u16) -> Seq<PlayerStats> {
    let k = stats_index(stats, pid);
    if k >= 0 {
        stats.update(
            k,
            PlayerStats { chips_lost_to_tariffs: (stats[k].chips_lost_to_tariffs + amount) as u16, ..stats[k] },
        )
    } else {
        stats
    }
}

/// A GeneralAudit hits a standing player unless that player played it or is immune.
pub open spec fn general_audit_hits(pid: PlayerId, audit: PendingAudit, immune: Seq<PlayerId>) -> bool {
    audit.general_source != Some(pid) && !immune.contains(pid)
}

/// The GeneralAudit applied to the standing players in order: each one it hits loses
/// 2 chips, counted as lost to tariffs.
pub open spec fn general_audit(
    players: Seq<Player>,
    stats: Seq<PlayerStats>,
    stood: Seq<PlayerId>,
    audit: PendingAudit,
    immune: Seq<PlayerId>,
) -> (Seq<Player>, Seq<PlayerStats>)
    decreases stood.len(),
{
    if stood.len() == 0 {
        (players, stats)
    } else {
        let prev = general_audit(players, stats, stood.drop_last(), audit, immune);
        let pid = stood.last();
        if general_audit_hits(pid, audit, immune) {
            (penalize(prev.0, pid, 2), add_tariff(prev.1, pid, 2))
        } else {
            prev
        }
    }
}

/// The pending audits resolved at the end of a turn: the GeneralAudit (when active),
/// then the TargetAudit, whose target loses 3 chips if it stood and is not immune.
pub open spec fn audits_result(
    players: Seq<Player>,
    stats: Seq<PlayerStats>,
    stood: Seq<PlayerId>,
    audit: PendingAudit,
    immune: Seq<PlayerId>,
) -> (Seq<Player>, Seq<PlayerStats>) {
    let g = if audit.general {
        general_audit(players, stats, stood, audit, immune)
    } else {
        (players, stats)
    };
    match audit.target {
        Some(t) => if stood.contains(t) && !immune.contains(t) {
            (penalize(g.0, t, 3), add_tariff(g.1, t, 3))
        } else {
            g
        },
        None => g,
    }
}

/// Tariff counters leave room for every audit charge of the turn.
pub open spec fn tariffs_fit(stats: Seq<PlayerStats>, extra: nat) -> bool {
    forall|k: int| 0 <= k < stats.len() ==> (#[trigger] stats[k]).chips_lost_to_tariffs + extra <= u16::MAX
}

/// Adding a tariff keeps ids and raises only one counter by `amount`.
proof fn lemma_add_tariff_bound(stats: Seq<PlayerStats>, pid: PlayerId, amount: u16, before: Seq<PlayerStats>, used: int)
    requires
        stats.len() == before.len(),
        forall|k: int| 0 <= k < stats.len() ==> (#[trigger] stats[k]).chips_lost_to_tariffs <= before[k].chips_lost_to_tariffs + used,
        forall|k: int| 0 <= k < stats.len() ==> (#[trigger] stats[k]).chips_lost_to_tariffs + amount <= u16::MAX,
    ensures
        add_tariff(stats, pid, amount).len() == stats.len(),
        forall|k: int| 0 <= k < stats.len() ==> (#[trigger] add_tariff(stats, pid, amount)[k]).chips_lost_to_tariffs
            <= before[k].chips_lost_to_tariffs + used + amount,
        forall|k: int| 0 <= k < stats.len() ==> (#[trigger] add_tariff(stats, pid, amount)[k]).player_id == stats[k].player_id,
{
}

/// Resolve pending audit effects at end of turn.
fn resolve_audits(state: &mut GameState)
    requires
        tariffs_fit(old(state).stats.player_stats@, 2 * old(state).turn_state.stood_this_turn@.len() + 3),
    ensures
        ({
            let r = audits_result(
                old(state).players@,
                old(state).stats.player_stats@,
                old(state).turn_state.stood_this_turn@,
                old(state).turn_state.pending_audit,
                old(state).modifiers.immune_players@,
            );
            &&& final(state).players@ == r.0
            &&& final(state).stats.player_stats@ == r.1
        }),
        *final(state) == (GameState { players: final(state).players, stats: final(state).stats, ..*old(state) }),
{
    let ghost p0 = state.players@;
    let ghost s0 = state.stats.player_stats@;
    let ghost stood = state.turn_state.stood_this_turn@;
    let ghost audit = state.turn_state.pending_audit;
    let ghost immune = state.modifiers.immune_players@;
    if state.turn_state.pending_audit.general {
        let source = state.turn_state.pending_audit.general_source;
        let mut i: usize = 0;
        while i < state.turn_state.stood_this_turn.len()
            invariant
                i <= stood.len(),
                stood == state.turn_state.stood_this_turn@,
                audit == state.turn_state.pending_audit,
                immune == state.modifiers.immune_players@,
                source == audit.general_source,
                s0 == old(state).stats.player_stats@,
                tariffs_fit(s0, 2 * stood.len() + 3),
                (state.players@, state.stats.player_stats@) == general_audit(p0, s0, stood.take(i as int), audit, immune),
                state.stats.player_stats@.len() == s0.len(),
                forall|k: int| 0 <= k < s0.len() ==> (#[trigger] state.stats.player_stats@[k]).chips_lost_to_tariffs
                    <= s0[k].chips_lost_to_tariffs + 2 * i,
                *state == (GameState { players: state.players, stats: state.stats, ..*old(state) }),
            decreases stood.len() - i,
        {
            proof {
                assert(stood.take(i + 1).drop_last() =~= stood.take(i as int));
                assert(stood.take(i + 1).last() == stood[i as int]);
            }
            let pid = state.turn_state.stood_this_turn[i];
            let hit = match source {
                Some(src) => src != pid,
                None => true,
            } && !list_contains(&state.modifiers.immune_players, pid);
            if hit {
                let ghost sb = state.stats.player_stats@;
                proof {
                    lemma_player_index(state.players@, pid);
                    lemma_add_tariff_bound(sb, pid, 2, s0, 2 * i);
                }
                if let Some(k) = find_player_index(&state.players, pid) {
                    state.players[k].apply_penalty(2);
                }
                if let Some(k) = state.stats.find_index(pid) {
                    state.stats.player_stats[k].chips_lost_to_tariffs = state.stats.player_stats[k].chips_lost_to_tariffs + 2;
                }
                assert(state.stats.player_stats@ =~= add_tariff(sb, pid, 2));
            }
            i = i + 1;
        }
        assert(stood.take(stood.len() as int) =~= stood);
    }
    let ghost g = if audit.general { general_audit(p0, s0, stood, audit, immune) } else { (p0, s0) };
    assert(state.players@ == g.0 && state.stats.player_stats@ == g.1);
    assert(state.stats.player_stats@.len() == s0.len());
    assert(forall|k: int| 0 <= k < s0.len() ==> (#[trigger] state.stats.player_stats@[k]).chips_lost_to_tariffs
        <= s0[k].chips_lost_to_tariffs + 2 * stood.len());
    if let Some(target_id) = state.turn_state.pending_audit.target {
        if list_contains(&state.turn_state.stood_this_turn, target_id) && !list_contains(&state.modifiers.immune_players, target_id) {
            let ghost sb = state.stats.player_stats@;
            if let Some(k) = find_player_index(&state.players, target_id) {
                state.players[k].apply_penalty(3);
            }
            if let Some(k) = state.stats.find_index(target_id) {
                state.stats.player_stats[k].chips_lost_to_tariffs = state.stats.player_stats[k].chips_lost_to_tariffs + 3;
            }
            assert(state.stats.player_stats@ =~= add_tariff(sb, target_id, 3));
        }
    }
}

/// The results shown at revelation: the round results of the scoring entries of the
/// active players, given the submitted Impostor choices.
pub open spec fn reveal_results(
    players: Seq<Player>,
    choices: Seq<ImpostorChoice>,
    modifiers: ActiveModifiers,
    results: Seq<RoundResult>,
) -> bool {
    &&& spec_entries(players, choices, modifiers) matches Ok(entries)
    &&& results.len() == entries.len()
    &&& forall|i: int| 0 <= i < entries.len() ==> #[trigger] results[i] == spec_round_result(entries, i, modifiers)
}

/// Every choice of the list is within the scale.
pub open spec fn choices_in_scale(choices: Seq<ImpostorChoice>) -> bool {
    forall|i: int| 0 <= i < choices.len() ==> choice_in_scale(#[trigger] choices[i])
}

/// With hands and choices within the scale, every scored rank can be inverted.
proof fn lemma_entries_invertible(players: Seq<Player>, choices: Seq<ImpostorChoice>, modifiers: ActiveModifiers)
    requires
        hands_ok(players),
        choices_in_scale(choices),
    ensures
        spec_entries(players, choices, modifiers) matches Ok(entries) ==> round_invertible(entries, modifiers),
    decreases players.len(),
{
    if players.len() > 0 {
        let rest = players.drop_last();
        assert(hands_ok(rest)) by {
            assert forall|i: int| 0 <= i < rest.len() implies ((#[trigger] rest[i]).hand matches Some(h) ==> h.wf()
                && card_in_scale(h.sand) && card_in_scale(h.blood)) by {
                assert(rest[i] == players[i]);
            }
        }
        lemma_entries_invertible(rest, choices, modifiers);
        let p = players.last();
        assert(players[players.len() - 1] == p);
        if spec_entries(players, choices, modifiers) is Ok && !p.is_eliminated {
            let c = round::choice_for(choices, p.id);
            if exists|i: int| round::is_first_choice(choices, p.id, i) {
                let i = choose|i: int| round::is_first_choice(choices, p.id, i);
                assert(choice_in_scale(choices[i]));
            }
        }
    }
}

/// Begin the revelation phase after turn 3.
fn begin_revelation(state: &mut GameState) -> (res: Result<(), GameError>)
    requires
        hands_ok(old(state).players@),
    ensures
        impostor_ids(old(state).players@).len() == 0 ==> match spec_entries(
            old(state).players@,
            Seq::empty(),
            old(state).modifiers,
        ) {
            Err(e) => res == Err::<(), GameError>(e),
            Ok(_) => res is Ok && *final(state) == (GameState { phase: final(state).phase, ..*old(state) })
                && (final(state).phase matches GamePhase::Reveal { results } && reveal_results(
                old(state).players@,
                Seq::empty(),
                old(state).modifiers,
                results@,
            )),
        },
        impostor_ids(old(state).players@).len() > 0 ==> res is Ok && *final(state) == (GameState {
            phase: final(state).phase,
            ..*old(state)
        }) && (final(state).phase matches GamePhase::ImpostorReveal { pending, submitted } && pending@
            == impostor_ids(old(state).players@) && submitted@ == Seq::<ImpostorChoice>::empty()),
{
    let impostors = round::players_with_impostors(state.players.as_slice());
    if impostors.len() == 0 {
        let no_choices: Vec<ImpostorChoice> = Vec::new();
        proof {
            lemma_entries_invertible(state.players@, no_choices@, state.modifiers);
        }
        let results = round::resolve(state.players.as_slice(), no_choices.as_slice(), &state.modifiers)?;
        state.phase = GamePhase::Reveal { results };
    } else {
        state.phase = GamePhase::ImpostorReveal { pending: impostors, submitted: Vec::new() };
    }
    Ok(())
}

/// The end of a turn of play: the turn state after every player has acted, before
/// the next turn or the revelation.
pub open spec fn turn_state_cleared(t: TurnEphemeral) -> bool {
    t.is_clear()
}

/// What advancing past the current player does. The next active seat after the current
/// one plays next, with the per-player token state reset. When no seat is left, the turn
/// ends: pending audits are resolved, the per-turn state is cleared, and either the
/// next turn starts with the first active player (turns 1 and 2) or, after turn 3, the
/// revelation begins: straight to the results when no active player holds an Impostor,
/// otherwise to the Impostor choices of those who do.
pub open spec fn turn_advanced(old: GameState, new: GameState, res: Result<(), GameError>) -> bool {
    let next = next_active(old.players@, old.current_player_idx + 1);
    if next < old.players@.len() {
        &&& res is Ok
        &&& new == (GameState {
            current_player_idx: next as usize,
            phase: GamePhase::TurnAction,
            turn_state: new.turn_state,
            ..old
        })
        &&& new.turn_state == (TurnEphemeral {
            token_played_this_turn: false,
            free_draw_active: false,
            ..old.turn_state
        })
    } else {
        let r = audits_result(
            old.players@,
            old.stats.player_stats@,
            old.turn_state.stood_this_turn@,
            old.turn_state.pending_audit,
            old.modifiers.immune_players@,
        );
        let common = new.players@ == r.0 && new.stats.player_stats@ == r.1 && new.turn_state.is_clear();
        if old.turn >= 3 {
            if impostor_ids(r.0).len() == 0 {
                match spec_entries(r.0, Seq::empty(), old.modifiers) {
                    Err(e) => res == Err::<(), GameError>(e),
                    Ok(_) => {
                        &&& res is Ok
                        &&& common
                        &&& new == (GameState {
                            players: new.players,
                            stats: new.stats,
                            turn_state: new.turn_state,
                            current_player_idx: next as usize,
                            phase: new.phase,
                            ..old
                        })
                        &&& new.phase matches GamePhase::Reveal { results }
                        &&& reveal_results(r.0, Seq::empty(), old.modifiers, results@)
                    },
                }
            } else {
                &&& res is Ok
                &&& common
                &&& new == (GameState {
                    players: new.players,
                    stats: new.stats,
                    turn_state: new.turn_state,
                    current_player_idx: next as usize,
                    phase: new.phase,
                    ..old
                })
                &&& new.phase matches GamePhase::ImpostorReveal { pending, submitted }
                &&& pending@ == impostor_ids(r.0)
                &&& submitted@ == Seq::<ImpostorChoice>::empty()
            }
        } else {
            &&& res is Ok
            &&& common
            &&& new == (GameState {
                players: new.players,
                stats: new.stats,
                turn_state: new.turn_state,
                turn: (old.turn + 1) as u8,
                current_player_idx: next_active(r.0, 0) as usize,
                phase: GamePhase::TurnAction,
                ..old
            })
        }
    }
}

/// Audits keep every hand, and a hand penalized or not stays as it was.
pub(crate) proof fn lemma_audits_keep_hands(
    players: Seq<Player>,
    stats: Seq<PlayerStats>,
    stood: Seq<PlayerId>,
    audit: PendingAudit,
    immune: Seq<PlayerId>,
)
    ensures
        same_ids(players, audits_result(players, stats, stood, audit, immune).0),
        forall|k: int| 0 <= k < players.len() ==> (#[trigger] audits_result(players, stats, stood, audit, immune).0[k]).hand
            == players[k].hand,
{
    lemma_general_audit_keeps_hands(players, stats, stood, audit, immune);
    let g = if audit.general { general_audit(players, stats, stood, audit, immune) } else { (players, stats) };
    if let Some(t) = audit.target {
        lemma_player_index(g.0, t);
    }
}

proof fn lemma_general_audit_keeps_hands(
    players: Seq<Player>,
    stats: Seq<PlayerStats>,
    stood: Seq<PlayerId>,
    audit: PendingAudit,
    immune: Seq<PlayerId>,
)
    ensures
        same_ids(players, general_audit(players, stats, stood, audit, immune).0),
        forall|k: int| 0 <= k < players.len() ==> (#[trigger] general_audit(players, stats, stood, audit, immune).0[k]).hand
            == players[k].hand,
    decreases stood.len(),
{
    if stood.len() > 0 {
        lemma_general_audit_keeps_hands(players, stats, stood.drop_last(), audit, immune);
        let prev = general_audit(players, stats, stood.drop_last(), audit, immune);
        lemma_player_index(prev.0, stood.last());
    }
}

/// Advance to the next player/turn, or begin revelation if turn 3 is complete.
fn advance_turn(state: &mut GameState) -> (res: Result<(), GameError>)
    requires
        old(state).current_player_idx < old(state).players@.len(),
        tariffs_fit(old(state).stats.player_stats@, 2 * old(state).turn_state.stood_this_turn@.len() + 3),
        hands_ok(old(state).players@),
    ensures
        turn_advanced(*old(state), *final(state), res),
{
    let n = state.players.len();
    state.turn_state.token_played_this_turn = false;
    state.turn_state.free_draw_active = false;
    state.current_player_idx = state.current_player_idx + 1;
    skip_eliminated(state);
    let ghost next = next_active(old(state).players@, old(state).current_player_idx + 1);
    assert(state.current_player_idx == next);
    assert(state.players == old(state).players);
    if state.current_player_idx >= n {
        resolve_audits(state);
        proof {
            lemma_audits_keep_hands(
                old(state).players@,
                old(state).stats.player_stats@,
                old(state).turn_state.stood_this_turn@,
                old(state).turn_state.pending_audit,
                old(state).modifiers.immune_players@,
            );
            assert forall|i: int| 0 <= i < state.players@.len() implies ((#[trigger] state.players@[i]).hand matches Some(h)
                ==> h.wf() && card_in_scale(h.sand) && card_in_scale(h.blood)) by {
                assert(state.players@[i].hand == old(state).players@[i].hand);
            }
        }
        state.turn_state.stood_this_turn.clear();
        state.turn_state.embargoed_player = None;
        state.turn_state.pending_audit = PendingAudit::default();
        if state.turn >= 3 {
            begin_revelation(state)?;
        } else {
            state.turn = state.turn + 1;
            state.current_player_idx = 0;
            skip_eliminated(state);
            state.phase = GamePhase::TurnAction;
        }
    } else {
        state.phase = GamePhase::TurnAction;
        assert(state.turn_state == (TurnEphemeral {
            token_played_this_turn: false,
            free_draw_active: false,
            ..old(state).turn_state
        }));
        assert(*state == (GameState {
            current_player_idx: next as usize,
            phase: GamePhase::TurnAction,
            turn_state: state.turn_state,
            ..*old(state)
        }));
    }
    Ok(())
}

/// The statistics after the first entry of `pid` is changed by `f` (unchanged when
/// the player has no entry).
pub open spec fn update_stats(stats: Seq<PlayerStats>, pid: PlayerId, f: spec_fn(PlayerStats) -> PlayerStats) -> Seq<
    PlayerStats,
> {
    let k = stats_index(stats, pid);
    if k >= 0 {
        stats.update(k, f(stats[k]))
    } else {
        stats
    }
}

/// One more Stand counted.
pub open spec fn count_stand(s: PlayerStats) -> PlayerStats {
    PlayerStats { stands_count: (s.stands_count + 1) as u16, ..s }
}

/// One more Draw counted.
pub open spec fn count_draw(s: PlayerStats) -> PlayerStats {
    PlayerStats { draws_count: (s.draws_count + 1) as u16, ..s }
}

/// One more shift token counted.
pub open spec fn count_token(s: PlayerStats) -> PlayerStats {
    PlayerStats { tokens_played: (s.tokens_played + 1) as u8, ..s }
}

/// The unit outcome of a step that yields a state.
pub open spec fn unit_of(res: Result<GameState, GameError>) -> Result<(), GameError> {
    match res {
        Ok(_) => Ok(()),
        Err(e) => Err(e),
    }
}

/// The state a step yields (or `fallback` when it fails).
pub open spec fn state_of(res: Result<GameState, GameError>, fallback: GameState) -> GameState {
    match res {
        Ok(s) => s,
        Err(_) => fallback,
    }
}

/// `e` reports an action that does not fit the current phase, with the given reason.
pub open spec fn phase_error(e: GameError, text: Seq<char>) -> bool {
    e matches GameError::InvalidActionForPhase { reason } && reason@ == text
}

/// The checks every turn action passes first: the game is in the TurnAction phase, it is
/// `player_id`'s turn, and that player is still in the game.
pub open spec fn turn_check_ok(state: GameState, player_id: PlayerId) -> bool {
    &&& state.phase is TurnAction
    &&& state.players@[state.current_player_idx as int].id == player_id
    &&& !state.players@[state.current_player_idx as int].is_eliminated
}

/// The error of the first of those checks that fails.
pub open spec fn turn_check_error(state: GameState, player_id: PlayerId, e: GameError) -> bool {
    if !(state.phase is TurnAction) {
        phase_error(e, "not in TurnAction phase"@)
    } else if state.players@[state.current_player_idx as int].id != player_id {
        e == GameError::NotPlayerTurn { player_id }
    } else {
        e == GameError::PlayerEliminated { player_id }
    }
}

/// `mid` is `old` after `pid` stood: the Stand is counted, the player joins those who
/// stood this turn, and an embargo on that player is lifted.
pub open spec fn stood(old: GameState, mid: GameState, pid: PlayerId) -> bool {
    &&& mid == (GameState { stats: mid.stats, turn_state: mid.turn_state, ..old })
    &&& mid.stats.player_stats@ == update_stats(old.stats.player_stats@, pid, |s: PlayerStats| count_stand(s))
    &&& mid.turn_state.stood_this_turn@ == old.turn_state.stood_this_turn@.push(pid)
    &&& mid.turn_state.embargoed_player == (if old.turn_state.embargoed_player == Some(pid) {
        None
    } else {
        old.turn_state.embargoed_player
    })
    &&& mid.turn_state == (TurnEphemeral {
        stood_this_turn: mid.turn_state.stood_this_turn,
        embargoed_player: mid.turn_state.embargoed_player,
        ..old.turn_state
    })
}

/// `new` took `c` from the pile that `source` names; the other deck is untouched.
pub open spec fn drawn_from(old: GameState, new: GameState, source: DrawSource, c: Card) -> bool {
    match source {
        DrawSource::SandDeck => old.sand_deck.drew(new.sand_deck, c) && new.blood_deck == old.blood_deck,
        DrawSource::BloodDeck => old.blood_deck.drew(new.blood_deck, c) && new.sand_deck == old.sand_deck,
        DrawSource::SandDiscard => old.sand_deck.took_discard(new.sand_deck, c) && new.blood_deck == old.blood_deck,
        DrawSource::BloodDiscard => old.blood_deck.took_discard(new.blood_deck, c) && new.sand_deck == old.sand_deck,
    }
}

/// Whether the pile that `source` names has nothing to give.
pub open spec fn source_empty(state: GameState, source: DrawSource) -> bool {
    match source {
        DrawSource::SandDeck => state.sand_deck.all_cards().len() == 0,
        DrawSource::BloodDeck => state.blood_deck.all_cards().len() == 0,
        DrawSource::SandDiscard => state.sand_deck.discard_pile@.len() == 0,
        DrawSource::BloodDiscard => state.blood_deck.discard_pile@.len() == 0,
    }
}

/// The error of drawing from an empty pile.
pub open spec fn empty_source_error(source: DrawSource) -> GameError {
    match source {
        DrawSource::SandDeck => GameError::DeckExhausted { family: Family::Sand },
        DrawSource::BloodDeck => GameError::DeckExhausted { family: Family::Blood },
        DrawSource::SandDiscard => GameError::DiscardEmpty { family: Family::Sand },
        DrawSource::BloodDiscard => GameError::DiscardEmpty { family: Family::Blood },
    }
}

/// The players after the current player pays for a draw: one chip from the reserve
/// to the pot, unless a FreeDraw is active.
pub open spec fn paid_for_draw(old: GameState) -> Seq<Player> {
    let i = old.current_player_idx as int;
    let p = old.players@[i];
    if old.turn_state.free_draw_active {
        old.players@
    } else {
        old.players@.update(i, Player { chips: (p.chips - 1) as u8, pot: (p.pot + 1) as u8, ..p })
    }
}

/// `new` is `old` after `pid` drew the card now waiting for the discard choice: the draw
/// is paid for (or the FreeDraw used up), the card came from the named pile, the draw is
/// counted, and the player must now choose what to discard.
pub open spec fn drew_card(old: GameState, new: GameState, pid: PlayerId, source: DrawSource) -> bool {
    &&& new.phase matches GamePhase::ChoosingDiscard { player_id, drawn_card } && player_id == pid && drawn_from(
        old,
        new,
        source,
        drawn_card,
    )
    &&& new == (GameState {
        players: new.players,
        sand_deck: new.sand_deck,
        blood_deck: new.blood_deck,
        stats: new.stats,
        turn_state: new.turn_state,
        phase: new.phase,
        ..old
    })
    &&& new.players@ == paid_for_draw(old)
    &&& new.turn_state == (TurnEphemeral { free_draw_active: false, ..old.turn_state })
    &&& new.stats.player_stats@ == update_stats(old.stats.player_stats@, pid, |s: PlayerStats| count_draw(s))
}

/// The outcome of a Draw or Stand by `pid`.
pub open spec fn player_action_outcome(
    old: GameState,
    pid: PlayerId,
    action: TurnAction,
    res: Result<GameState, GameError>,
) -> bool {
    let cur = old.players@[old.current_player_idx as int];
    if !turn_check_ok(old, pid) {
        res matches Err(e) && turn_check_error(old, pid, e)
    } else if old.turn_state.embargoed_player == Some(pid) && action != TurnAction::Stand {
        res matches Err(e) && phase_error(e, "player is embargoed and must Stand"@)
    } else {
        match action {
            TurnAction::Stand => exists|mid: GameState|
                #[trigger] stood(old, mid, pid) && turn_advanced(mid, state_of(res, mid), unit_of(res)),
            TurnAction::Draw(source) => if !old.turn_state.free_draw_active && cur.chips == 0 {
                res == Err::<GameState, GameError>(
                    GameError::InsufficientChips { player_id: pid, available: 0, required: 1 },
                )
            } else if source_empty(old, source) {
                res == Err::<GameState, GameError>(empty_source_error(source))
            } else {
                res matches Ok(new) && drew_card(old, new, pid, source)
            },
        }
    }
}

/// Counters in the statistics leave room for one more count of each kind.
pub open spec fn counters_fit(stats: Seq<PlayerStats>) -> bool {
    forall|k: int| 0 <= k < stats.len() ==> {
        let s = #[trigger] stats[k];
        &&& s.stands_count < u16::MAX
        &&& s.draws_count < u16::MAX
        &&& s.tokens_played < u8::MAX
        &&& s.rounds_played < u8::MAX
        &&& s.rounds_won < u8::MAX
        &&& s.chips_lost_to_penalties + u8::MAX <= u16::MAX
    }
}

/// Every player's reserve and pot together fit in a chip count.
pub open spec fn chips_fit(players: Seq<Player>) -> bool {
    forall|k: int| 0 <= k < players.len() ==> (#[trigger] players[k]).chips + players[k].pot <= u8::MAX
}

fn apply_player_action(mut state: GameState, player_id: PlayerId, action: TurnAction, rng: &mut SmallRng) -> (res: Result<
    GameState,
    GameError,
>)
    requires
        state.wf(),
        state.phase is TurnAction ==> state.current_player_idx < state.players@.len(),
        counters_fit(state.stats.player_stats@),
        chips_fit(state.players@),
        tariffs_fit(state.stats.player_stats@, 2 * state.turn_state.stood_this_turn@.len() + 5),
    ensures
        player_action_outcome(state, player_id, action, res),
{
    let ghost old_state = state;
    let in_turn = match state.phase {
        GamePhase::TurnAction => true,
        _ => false,
    };
    if !in_turn {
        return Err(GameError::InvalidActionForPhase { reason: "not in TurnAction phase".to_owned() });
    }
    let idx = state.current_player_idx;
    if state.players[idx].id != player_id {
        return Err(GameError::NotPlayerTurn { player_id });
    }
    if state.players[idx].is_eliminated {
        return Err(GameError::PlayerEliminated { player_id });
    }
    if let Some(embargoed_id) = state.turn_state.embargoed_player {
        if embargoed_id == player_id && action != TurnAction::Stand {
            return Err(GameError::InvalidActionForPhase { reason: "player is embargoed and must Stand".to_owned() });
        }
    }
    match action {
        TurnAction::Stand => {
            if let Some(k) = state.stats.find_index(player_id) {
                state.stats.player_stats[k].stands_count = state.stats.player_stats[k].stands_count + 1;
            }
            state.turn_state.stood_this_turn.push(player_id);
            if state.turn_state.embargoed_player == Some(player_id) {
                state.turn_state.embargoed_player = None;
            }
            let ghost mid = state;
            assert(mid.stats.player_stats@ =~= update_stats(
                old_state.stats.player_stats@,
                player_id,
                |s: PlayerStats| count_stand(s),
            ));
            assert(stood(old_state, mid, player_id));
            proof {
                assert(tariffs_fit(mid.stats.player_stats@, 2 * mid.turn_state.stood_this_turn@.len() + 3)) by {
                    assert forall|k: int| 0 <= k < mid.stats.player_stats@.len() implies (#[trigger] mid.stats.player_stats@[k]).chips_lost_to_tariffs
                        + 2 * mid.turn_state.stood_this_turn@.len() + 3 <= u16::MAX by {
                        assert(mid.stats.player_stats@[k].chips_lost_to_tariffs == old_state.stats.player_stats@[k].chips_lost_to_tariffs);
                    }
                }
            }
            let r = advance_turn(&mut state);
            match r {
                Ok(()) => {
                    assert(turn_advanced(mid, state, Ok(())));
                    Ok(state)
                },
                Err(e) => {
                    assert(turn_advanced(mid, state, Err(e)));
                    Err(e)
                },
            }
        },
        TurnAction::Draw(source) => {
            if state.turn_state.free_draw_active {
                state.turn_state.free_draw_active = false;
            } else {
                state.players[idx].pay_chip()?;
            }
            let drawn = match source {
                DrawSource::SandDeck => state.sand_deck.draw(rng)?,
                DrawSource::BloodDeck => state.blood_deck.draw(rng)?,
                DrawSource::SandDiscard => state.sand_deck.draw_from_discard()?,
                DrawSource::BloodDiscard => state.blood_deck.draw_from_discard()?,
            };
            if let Some(k) = state.stats.find_index(player_id) {
                state.stats.player_stats[k].draws_count = state.stats.player_stats[k].draws_count + 1;
            }
            state.phase = GamePhase::ChoosingDiscard { player_id, drawn_card: drawn };
            assert(state.stats.player_stats@ =~= update_stats(
                old_state.stats.player_stats@,
                player_id,
                |s: PlayerStats| count_draw(s),
            ));
            assert(state.players@ =~= paid_for_draw(old_state));
            Ok(state)
        },
    }
}

/// `mid` is `old` after the current player settled the drawn card: keeping it puts it
/// in the hand on its family's side and discards the card it replaces, otherwise the
/// drawn card is discarded; either way onto the discard pile of its family.
pub open spec fn discard_settled(old: GameState, mid: GameState, drawn: Card, choice: DiscardChoice) -> bool {
    let i = old.current_player_idx as int;
    let p = old.players@[i];
    let h = p.hand->0;
    &&& mid == (GameState { players: mid.players, sand_deck: mid.sand_deck, blood_deck: mid.blood_deck, ..old })
    &&& mid.sand_deck.draw_pile@ == old.sand_deck.draw_pile@ && mid.sand_deck.family == old.sand_deck.family
    &&& mid.blood_deck.draw_pile@ == old.blood_deck.draw_pile@ && mid.blood_deck.family == old.blood_deck.family
    &&& match (drawn.family, choice) {
        (Family::Sand, DiscardChoice::KeepDrawn) => {
            &&& mid.players@ == old.players@.update(i, Player { hand: Some(Hand { sand: drawn, ..h }), ..p })
            &&& mid.sand_deck.discard_pile@ == old.sand_deck.discard_pile@.push(h.sand)
            &&& mid.blood_deck == old.blood_deck
        },
        (Family::Blood, DiscardChoice::KeepDrawn) => {
            &&& mid.players@ == old.players@.update(i, Player { hand: Some(Hand { blood: drawn, ..h }), ..p })
            &&& mid.blood_deck.discard_pile@ == old.blood_deck.discard_pile@.push(h.blood)
            &&& mid.sand_deck == old.sand_deck
        },
        (Family::Sand, DiscardChoice::DiscardDrawn) => {
            &&& mid.players == old.players
            &&& mid.sand_deck.discard_pile@ == old.sand_deck.discard_pile@.push(drawn)
            &&& mid.blood_deck == old.blood_deck
        },
        (Family::Blood, DiscardChoice::DiscardDrawn) => {
            &&& mid.players == old.players
            &&& mid.blood_deck.discard_pile@ == old.blood_deck.discard_pile@.push(drawn)
            &&& mid.sand_deck == old.sand_deck
        },
    }
}

/// The outcome of the discard choice after a draw: only in the ChoosingDiscard phase,
/// only by the player who drew, and only while that player holds a hand; then the turn
/// advances.
pub open spec fn choose_discard_outcome(
    old: GameState,
    pid: PlayerId,
    choice: DiscardChoice,
    res: Result<GameState, GameError>,
) -> bool {
    match old.phase {
        GamePhase::ChoosingDiscard { player_id, drawn_card } => if pid != player_id {
            res == Err::<GameState, GameError>(GameError::NotPlayerTurn { player_id: pid })
        } else if old.players@[old.current_player_idx as int].hand is None {
            res == Err::<GameState, GameError>(GameError::PlayerNotFound { player_id: pid })
        } else {
            exists|mid: GameState|
                #[trigger] discard_settled(old, mid, drawn_card, choice) && turn_advanced(
                    mid,
                    state_of(res, mid),
                    unit_of(res),
                )
        },
        _ => res matches Err(e) && phase_error(e, "not in ChoosingDiscard phase"@),
    }
}

fn apply_choose_discard(mut state: GameState, player_id: PlayerId, choice: DiscardChoice) -> (res: Result<
    GameState,
    GameError,
>)
    requires
        state.wf(),
        state.phase is ChoosingDiscard ==> state.current_player_idx < state.players@.len(),
        tariffs_fit(state.stats.player_stats@, 2 * state.turn_state.stood_this_turn@.len() + 3),
    ensures
        choose_discard_outcome(state, player_id, choice, res),
{
    let ghost old_state = state;
    let (expected_pid, drawn_card) = match state.phase {
        GamePhase::ChoosingDiscard { player_id: pid, drawn_card } => (pid, drawn_card),
        _ => {
            return Err(GameError::InvalidActionForPhase { reason: "not in ChoosingDiscard phase".to_owned() });
        },
    };
    if player_id != expected_pid {
        return Err(GameError::NotPlayerTurn { player_id });
    }
    let idx = state.current_player_idx;
    let hand = match state.players[idx].hand {
        Some(h) => h,
        None => {
            return Err(GameError::PlayerNotFound { player_id });
        },
    };
    match drawn_card.family {
        Family::Sand => match choice {
            DiscardChoice::KeepDrawn => {
                state.players[idx].hand = Some(Hand { sand: drawn_card, ..hand });
                state.sand_deck.discard(hand.sand);
                assert(state.players@ =~= old_state.players@.update(
                    idx as int,
                    Player { hand: Some(Hand { sand: drawn_card, ..hand }), ..old_state.players@[idx as int] },
                ));
            },
            DiscardChoice::DiscardDrawn => {
                state.sand_deck.discard(drawn_card);
            },
        },
        Family::Blood => match choice {
            DiscardChoice::KeepDrawn => {
                state.players[idx].hand = Some(Hand { blood: drawn_card, ..hand });
                state.blood_deck.discard(hand.blood);
                assert(state.players@ =~= old_state.players@.update(
                    idx as int,
                    Player { hand: Some(Hand { blood: drawn_card, ..hand }), ..old_state.players@[idx as int] },
                ));
            },
            DiscardChoice::DiscardDrawn => {
                state.blood_deck.discard(drawn_card);
            },
        },
    }
    let ghost mid = state;
    assert(discard_settled(old_state, mid, drawn_card, choice));
    proof {
        assert forall|i: int| 0 <= i < mid.players@.len() implies ((#[trigger] mid.players@[i]).hand matches Some(h)
            ==> h.wf() && card_in_scale(h.sand) && card_in_scale(h.blood)) by {
            if i != idx {
                assert(mid.players@[i] == old_state.players@[i]);
            }
        }
    }
    let r = advance_turn(&mut state);
    match r {
        Ok(()) => {
            assert(turn_advanced(mid, state, Ok(())));
            Ok(state)
        },
        Err(e) => {
            assert(turn_advanced(mid, state, Err(e)));
            Err(e)
        },
    }
}

/// The sequence without any occurrence of `x`.
pub open spec fn without(s: Seq<PlayerId>, x: PlayerId) -> Seq<PlayerId>
    decreases s.len(),
{
    if s.len() == 0 {
        s
    } else if s.last() == x {
        without(s.drop_last(), x)
    } else {
        without(s.drop_last(), x).push(s.last())
    }
}

/// Remove every occurrence of `x` from a list of ids.
fn remove_id(list: Vec<PlayerId>, x: PlayerId) -> (r: Vec<PlayerId>)
    ensures
        r@ == without(list@, x),
{
    let mut r: Vec<PlayerId> = Vec::new();
    let mut i: usize = 0;
    while i < list.len()
        invariant
            i <= list@.len(),
            r@ == without(list@.take(i as int), x),
        decreases list.len() - i,
    {
        assert(list@.take(i + 1).drop_last() =~= list@.take(i as int));
        if list[i] != x {
            r.push(list[i]);
        }
        i = i + 1;
    }
    assert(list@.take(list@.len() as int) =~= list@);
    r
}

/// The error of a die choice that is not one of the two dice (the Sand side is checked first).
pub open spec fn die_choice_error(c: ImpostorChoice) -> GameError {
    if !c.choice_ok(c.sand_choice) {
        GameError::InvalidDieChoice { chosen: c.sand_choice->0, die1: c.die1, die2: c.die2 }
    } else {
        GameError::InvalidDieChoice { chosen: c.blood_choice->0, die1: c.die1, die2: c.die2 }
    }
}

/// The reason given when a player who is not pending submits an Impostor choice.
pub open spec fn not_pending_reason(pid: PlayerId) -> Seq<char> {
    "player "@ + decimal(pid as nat) + " is not pending impostor choice"@
}

/// The outcome of an Impostor choice. Only a pending player may submit, with dice values
/// taken from the roll; the player is then no longer pending. When nobody is left pending,
/// the hands are scored with all submitted choices and the results are revealed.
pub open spec fn impostor_outcome(old: GameState, choice: ImpostorChoice, res: Result<GameState, GameError>) -> bool {
    match old.phase {
        GamePhase::ImpostorReveal { pending, submitted } => {
            let pid = choice.player_id;
            if !pending@.contains(pid) {
                res matches Err(e) && phase_error(e, not_pending_reason(pid))
            } else if !(choice.choice_ok(choice.sand_choice) && choice.choice_ok(choice.blood_choice)) {
                res == Err::<GameState, GameError>(die_choice_error(choice))
            } else {
                let rest = without(pending@, pid);
                let subs = submitted@.push(choice);
                if rest.len() == 0 {
                    match spec_entries(old.players@, subs, old.modifiers) {
                        Err(e) => res == Err::<GameState, GameError>(e),
                        Ok(_) => res matches Ok(new) && new == (GameState { phase: new.phase, ..old }) && (
                        new.phase matches GamePhase::Reveal { results } && reveal_results(
                            old.players@,
                            subs,
                            old.modifiers,
                            results@,
                        )),
                    }
                } else {
                    res matches Ok(new) && new == (GameState { phase: new.phase, ..old }) && (
                    new.phase matches GamePhase::ImpostorReveal { pending: p2, submitted: s2 } && p2@ == rest
                        && s2@ == subs)
                }
            }
        },
        _ => res matches Err(e) && phase_error(e, "not in ImpostorReveal phase"@),
    }
}

fn apply_impostor_choice(mut state: GameState, choice: ImpostorChoice) -> (res: Result<GameState, GameError>)
    requires
        state.wf(),
        choice_in_scale(choice),
    ensures
        impostor_outcome(state, choice, res),
{
    let ghost old_state = state;
    let mut phase = GamePhase::Setup;
    std::mem::swap(&mut phase, &mut state.phase);
    let (pending, mut submitted) = match phase {
        GamePhase::ImpostorReveal { pending, submitted } => (pending, submitted),
        _ => {
            return Err(GameError::InvalidActionForPhase { reason: "not in ImpostorReveal phase".to_owned() });
        },
    };
    let pid = choice.player_id;
    if !list_contains(&pending, pid) {
        let mut reason = text_with_number("player ", pid as usize);
        reason.append(" is not pending impostor choice");
        proof {
            assert(reason@ =~= not_pending_reason(pid));
        }
        return Err(GameError::InvalidActionForPhase { reason });
    }
    choice.validate()?;
    let pending = remove_id(pending, pid);
    submitted.push(choice);
    if pending.len() == 0 {
        proof {
            assert(choices_in_scale(submitted@)) by {
                assert forall|i: int| 0 <= i < submitted@.len() implies choice_in_scale(#[trigger] submitted@[i]) by {
                    if i < submitted@.len() - 1 {
                        assert(submitted@[i] == old_state.phase->submitted@[i]);
                    }
                }
            }
            lemma_entries_invertible(state.players@, submitted@, state.modifiers);
        }
        let results = round::resolve(state.players.as_slice(), submitted.as_slice(), &state.modifiers)?;
        state.phase = GamePhase::Reveal { results };
    } else {
        state.phase = GamePhase::ImpostorReveal { pending, submitted };
    }
    Ok(state)
}

/// The statistics of a player after one round result: one more round played, one more
/// won for a winner, the penalty counted, and the best hand updated.
pub open spec fn round_stat(s: PlayerStats, r: RoundResult) -> PlayerStats {
    PlayerStats {
        rounds_played: (s.rounds_played + 1) as u8,
        rounds_won: if r.is_winner { (s.rounds_won + 1) as u8 } else { s.rounds_won },
        chips_lost_to_penalties: (s.chips_lost_to_penalties + r.penalty) as u16,
        best_hand: crate::stats::better_hand(s.best_hand, r.rank),
        ..s
    }
}

/// The statistics after every result of the round is counted, in order.
pub open spec fn stats_after_results(stats: Seq<PlayerStats>, rs: Seq<RoundResult>) -> Seq<PlayerStats>
    decreases rs.len(),
{
    if rs.len() == 0 {
        stats
    } else {
        let q = stats_after_results(stats, rs.drop_last());
        let r = rs.last();
        update_stats(q, r.player_id, |s: PlayerStats| round_stat(s, r))
    }
}

/// Whether an elimination list already names `pid`.
pub open spec fn listed_eliminated(order: Seq<(PlayerId, u8)>, pid: PlayerId) -> bool {
    exists|i: int| 0 <= i < order.len() && (#[trigger] order[i]).0 == pid
}

/// The elimination list after the newly eliminated players, in seating order, are
/// added with the round in which they fell.
pub open spec fn track_eliminations(order: Seq<(PlayerId, u8)>, players: Seq<Player>, round: u8) -> Seq<(PlayerId, u8)>
    decreases players.len(),
{
    if players.len() == 0 {
        order
    } else {
        let o = track_eliminations(order, players.drop_last(), round);
        let p = players.last();
        if p.is_eliminated && !listed_eliminated(o, p.id) {
            o.push((p.id, round))
        } else {
            o
        }
    }
}

/// The players at the end of a round: results applied and every hand handed back.
pub open spec fn settled_players(players: Seq<Player>, rs: Seq<RoundResult>) -> Seq<Player> {
    Seq::new(players.len(), |k: int| Player { hand: None, ..round::players_after_results(players, rs)[k] })
}

/// The statistics at the end of a round: every result counted, then every player's
/// reserve recorded in their chip history.
pub open spec fn settled_stats_ok(old: Seq<PlayerStats>, new: Seq<PlayerStats>, rs: Seq<RoundResult>, players: Seq<Player>) -> bool {
    let counted = stats_after_results(old, rs);
    &&& new.len() == counted.len()
    &&& forall|k: int| 0 <= k < counted.len() ==> {
        let before = #[trigger] counted[k];
        let after = new[k];
        &&& after.chips_history@ == before.chips_history@ + crate::stats::recorded_chips(counted, players, k)
        &&& after == (PlayerStats { chips_history: after.chips_history, ..before })
    }
}

/// `new` is `old` after the revealed results were settled: winners take back their
/// invested chips, losers lose them and pay their penalty, all hands return to the
/// discard piles, the statistics count the round, newly eliminated players are listed,
/// and the round ends.
pub open spec fn round_settled(old: GameState, new: GameState, rs: Seq<RoundResult>) -> bool {
    &&& new == (GameState {
        players: new.players,
        sand_deck: new.sand_deck,
        blood_deck: new.blood_deck,
        stats: new.stats,
        elimination_order: new.elimination_order,
        phase: GamePhase::RoundEnd,
        ..old
    })
    &&& new.players@ == settled_players(old.players@, rs)
    &&& new.sand_deck.family == old.sand_deck.family && new.blood_deck.family == old.blood_deck.family
    &&& new.sand_deck.draw_pile@ == old.sand_deck.draw_pile@
    &&& new.blood_deck.draw_pile@ == old.blood_deck.draw_pile@
    &&& new.sand_deck.discard_pile@ == old.sand_deck.discard_pile@ + round::hand_sand_cards(old.players@)
    &&& new.blood_deck.discard_pile@ == old.blood_deck.discard_pile@ + round::hand_blood_cards(old.players@)
    &&& settled_stats_ok(old.stats.player_stats@, new.stats.player_stats@, rs, new.players@)
    &&& new.elimination_order@ == track_eliminations(old.elimination_order@, new.players@, old.round)
}

/// Fresh hands were dealt: only active players' hands changed, each active player holds a
/// well-formed hand, the dealt cards are exactly the cards that left the decks, and each
/// deck shows a face-up discard.
pub open spec fn dealt(
    old_players: Seq<Player>,
    new_players: Seq<Player>,
    old_sand: FamilyDeck,
    new_sand: FamilyDeck,
    old_blood: FamilyDeck,
    new_blood: FamilyDeck,
) -> bool {
    &&& round::same_but_active_hands(old_players, new_players)
    &&& forall|k: int| 0 <= k < new_players.len() && !new_players[k].is_eliminated
        ==> ((#[trigger] new_players[k]).hand matches Some(h) && h.wf())
    &&& old_sand.all_cards().to_multiset() == new_sand.all_cards().to_multiset().add(
        round::active_hand_cards(new_players).0.to_multiset(),
    )
    &&& old_blood.all_cards().to_multiset() == new_blood.all_cards().to_multiset().add(
        round::active_hand_cards(new_players).1.to_multiset(),
    )
    &&& new_sand.wf() && new_blood.wf()
    &&& new_sand.family == Family::Sand && new_blood.family == Family::Blood
    &&& new_sand.discard_pile@.len() > 0 && new_blood.discard_pile@.len() > 0
}

/// Dealing succeeds exactly when each deck can give one card per active player plus
/// the face-up discard.
pub open spec fn can_deal(players: Seq<Player>, sand: FamilyDeck, blood: FamilyDeck) -> bool {
    sand.all_cards().len() > active_ids(players).len() && blood.all_cards().len() > active_ids(players).len()
}

/// The error of dealing from decks that run out.
pub open spec fn deal_error(sand: FamilyDeck, blood: FamilyDeck) -> GameError {
    GameError::DeckExhausted {
        family: round::first_exhausted(sand.all_cards().len() as int, blood.all_cards().len() as int),
    }
}

/// `new` is `old` at the start of the next round: round counter up, first turn, first
/// active seat, modifiers and per-turn state cleared, fresh hands dealt.
pub open spec fn next_round_started(old: GameState, new: GameState) -> bool {
    &&& new == (GameState {
        players: new.players,
        sand_deck: new.sand_deck,
        blood_deck: new.blood_deck,
        round: (old.round + 1) as u8,
        turn: 1,
        current_player_idx: next_active(new.players@, 0) as usize,
        phase: GamePhase::TurnAction,
        modifiers: new.modifiers,
        turn_state: new.turn_state,
        ..old
    })
    &&& new.modifiers.is_default()
    &&& new.turn_state.is_clear()
    &&& dealt(old.players@, new.players@, old.sand_deck, new.sand_deck, old.blood_deck, new.blood_deck)
}

/// The outcome of advancing after a revelation. From Reveal the round is settled. From
/// RoundEnd, a game with exactly one active player is over with that player as winner;
/// otherwise the next round is dealt, which fails when a deck runs out.
pub open spec fn advance_round_outcome(old: GameState, res: Result<GameState, GameError>) -> bool {
    match old.phase {
        GamePhase::Reveal { results } => res matches Ok(new) && round_settled(old, new, results@),
        GamePhase::RoundEnd => {
            let active = active_ids(old.players@);
            if active.len() == 1 {
                res matches Ok(new) && new == (GameState { phase: GamePhase::GameOver { winner: active[0] }, ..old })
            } else if can_deal(old.players@, old.sand_deck, old.blood_deck) {
                res matches Ok(new) && next_round_started(old, new)
            } else {
                res == Err::<GameState, GameError>(deal_error(old.sand_deck, old.blood_deck))
            }
        },
        _ => res matches Err(e) && phase_error(e, "not in Reveal or RoundEnd phase"@),
    }
}

/// Applying round results never raises a player's reserve plus pot.
pub(crate) proof fn lemma_results_keep_chips_fit(players: Seq<Player>, rs: Seq<RoundResult>)
    requires
        chips_fit(players),
    ensures
        round::results_fit(players, rs),
        chips_fit(round::players_after_results(players, rs)),
        round::players_after_results(players, rs).len() == players.len(),
    decreases rs.len(),
{
    if rs.len() > 0 {
        lemma_results_keep_chips_fit(players, rs.drop_last());
        let q = round::players_after_results(players, rs.drop_last());
        lemma_player_index(q, rs.last().player_id);
    }
}

/// The results of a Reveal name distinct players.
pub open spec fn result_ids_distinct(rs: Seq<RoundResult>) -> bool {
    forall|i: int, j: int| 0 <= i < rs.len() && 0 <= j < rs.len() && i != j ==> (#[trigger] rs[i]).player_id
        != (#[trigger] rs[j]).player_id
}

/// Whether the elimination list already names `pid`.
fn already_listed(order: &Vec<(PlayerId, u8)>, pid: PlayerId) -> (b: bool)
    ensures
        b == listed_eliminated(order@, pid),
{
    let mut i: usize = 0;
    while i < order.len()
        invariant
            i <= order@.len(),
            forall|j: int| 0 <= j < i ==> (#[trigger] order@[j]).0 != pid,
        decreases order.len() - i,
    {
        if order[i].0 == pid {
            assert(order@[i as int].0 == pid);
            return true;
        }
        i = i + 1;
    }
    false
}

fn apply_advance_round(mut state: GameState, rng: &mut SmallRng) -> (res: Result<GameState, GameError>)
    requires
        state.wf(),
        counters_fit(state.stats.player_stats@),
        chips_fit(state.players@),
        state.phase matches GamePhase::Reveal { results } ==> result_ids_distinct(results@),
        state.phase is RoundEnd && active_ids(state.players@).len() != 1 ==> state.round < u8::MAX,
    ensures
        advance_round_outcome(state, res),
{
    let ghost old_state = state;
    let mut phase = GamePhase::Setup;
    std::mem::swap(&mut phase, &mut state.phase);
    match phase {
        GamePhase::Reveal { results } => {
            proof {
                lemma_results_keep_chips_fit(state.players@, results@);
            }
            round::apply_results(&mut state.players, results.as_slice(), &mut state.sand_deck, &mut state.blood_deck);
            assert(state.players@ =~= settled_players(old_state.players@, results@));
            let ghost s0 = state.stats.player_stats@;
            let ghost snap = state;
            let mut i: usize = 0;
            while i < results.len()
                invariant
                    i <= results@.len(),
                    result_ids_distinct(results@),
                    counters_fit(s0),
                    s0 == old_state.stats.player_stats@,
                    state == (GameState { stats: state.stats, ..snap }),
                    state.stats.player_stats@ == stats_after_results(s0, results@.take(i as int)),
                    state.stats.player_stats@.len() == s0.len(),
                    forall|k: int| 0 <= k < s0.len() ==> (#[trigger] state.stats.player_stats@[k]).player_id == s0[k].player_id,
                    forall|k: int| 0 <= k < s0.len() && (forall|j: int| 0 <= j < i ==> (#[trigger] results@[j]).player_id != s0[k].player_id)
                        ==> {
                        let c = #[trigger] state.stats.player_stats@[k];
                        &&& c.rounds_played == s0[k].rounds_played
                        &&& c.rounds_won == s0[k].rounds_won
                        &&& c.chips_lost_to_penalties == s0[k].chips_lost_to_penalties
                    },
                decreases results.len() - i,
            {
                let r = results[i];
                let ghost cur = state.stats.player_stats@;
                proof {
                    assert(results@.take(i + 1).drop_last() =~= results@.take(i as int));
                    assert(results@.take(i + 1).last() == r);
                    crate::stats::lemma_stats_index_same_ids(s0, cur, r.player_id);
                }
                if let Some(k) = state.stats.find_index(r.player_id) {
                    proof {
                        assert(cur[k as int].player_id == r.player_id);
                        assert(forall|j: int| 0 <= j < i ==> (#[trigger] results@[j]).player_id != s0[k as int].player_id) by {
                            assert forall|j: int| 0 <= j < i implies (#[trigger] results@[j]).player_id != s0[k as int].player_id by {
                                assert(results@[j].player_id != results@[i as int].player_id);
                            }
                        }
                    }
                    state.stats.player_stats[k].rounds_played = state.stats.player_stats[k].rounds_played + 1;
                    if r.is_winner {
                        state.stats.player_stats[k].rounds_won = state.stats.player_stats[k].rounds_won + 1;
                    }
                    if r.penalty > 0 {
                        state.stats.player_stats[k].chips_lost_to_penalties = state.stats.player_stats[k].chips_lost_to_penalties
                            + r.penalty as u16;
                    }
                    state.stats.player_stats[k].update_best_hand(&r.rank);
                }
                assert(state.stats.player_stats@ =~= update_stats(cur, r.player_id, |s: PlayerStats| round_stat(s, r)));
                i = i + 1;
            }
            assert(results@.take(results@.len() as int) =~= results@);
            let ghost counted = state.stats.player_stats@;
            state.stats.record_round_chips(state.players.as_slice());
            let round_no = state.round;
            let ghost order0 = state.elimination_order@;
            let ghost snap2 = state;
            let mut j: usize = 0;
            while j < state.players.len()
                invariant
                    j <= state.players@.len(),
                    state == (GameState { elimination_order: state.elimination_order, ..snap2 }),
                    state.players@ == settled_players(old_state.players@, results@),
                    state.elimination_order@ == track_eliminations(order0, state.players@.take(j as int), round_no),
                decreases state.players@.len() - j,
            {
                proof {
                    assert(state.players@.take(j + 1).drop_last() =~= state.players@.take(j as int));
                    assert(state.players@.take(j + 1).last() == state.players@[j as int]);
                }
                let pid = state.players[j].id;
                if state.players[j].is_eliminated && !already_listed(&state.elimination_order, pid) {
                    state.elimination_order.push((pid, round_no));
                }
                j = j + 1;
            }
            assert(state.players@.take(state.players@.len() as int) =~= state.players@);
            state.phase = GamePhase::RoundEnd;
            assert(settled_stats_ok(old_state.stats.player_stats@, state.stats.player_stats@, results@, state.players@));
            Ok(state)
        },
        GamePhase::RoundEnd => {
            if let Some(winner) = round::check_game_over(state.players.as_slice()) {
                state.phase = GamePhase::GameOver { winner };
                return Ok(state);
            }
            state.round = state.round + 1;
            state.turn = 1;
            state.current_player_idx = 0;
            state.modifiers = ActiveModifiers::default();
            state.turn_state = TurnEphemeral::default();
            round::deal_hands(&mut state.players, &mut state.sand_deck, &mut state.blood_deck, rng)?;
            state.phase = GamePhase::TurnAction;
            skip_eliminated(&mut state);
            Ok(state)
        },
        _ => Err(GameError::InvalidActionForPhase { reason: "not in Reveal or RoundEnd phase".to_owned() }),
    }
}

/// `e` reports an invalid token target with the given player and reason.
pub open spec fn target_error(e: GameError, pid: PlayerId, text: Seq<char>) -> bool {
    e matches GameError::InvalidTokenTarget { player_id, reason } && player_id == pid && reason@ == text
}

/// Whether `pid` may play `token` now: the turn checks pass, no token was played this
/// turn, the player owns a token of that kind, and a targeted token names another
/// player who is in the game.
pub open spec fn token_check_ok(state: GameState, pid: PlayerId, token: ShiftToken) -> bool {
    let cur = state.players@[state.current_player_idx as int];
    &&& turn_check_ok(state, pid)
    &&& !state.turn_state.token_played_this_turn
    &&& crate::player::holds_kind(cur.shift_tokens@, token)
    &&& token.spec_requires_target() ==> {
        let t = token.spec_target()->0;
        let k = player_index(state.players@, t);
        t != pid && k >= 0 && !state.players@[k].is_eliminated
    }
}

/// The error of the first token check that fails.
pub open spec fn token_check_error(state: GameState, pid: PlayerId, token: ShiftToken, e: GameError) -> bool {
    let cur = state.players@[state.current_player_idx as int];
    let t = token.spec_target()->0;
    let k = player_index(state.players@, t);
    if !turn_check_ok(state, pid) {
        turn_check_error(state, pid, e)
    } else if state.turn_state.token_played_this_turn {
        e == GameError::ShiftTokenAlreadyPlayed
    } else if !crate::player::holds_kind(cur.shift_tokens@, token) {
        e == GameError::ShiftTokenNotOwned { player_id: pid }
    } else if t == pid {
        target_error(e, pid, "cannot target yourself"@)
    } else if k < 0 {
        e == GameError::PlayerNotFound { player_id: t }
    } else {
        target_error(e, t, "target is eliminated"@)
    }
}

/// Validate that a shift token can be played.
fn validate_shift_token(state: &GameState, player_id: PlayerId, token: &ShiftToken) -> (res: Result<(), GameError>)
    requires
        state.phase is TurnAction ==> state.current_player_idx < state.players@.len(),
    ensures
        res is Ok <==> token_check_ok(*state, player_id, *token),
        res matches Err(e) ==> token_check_error(*state, player_id, *token, e),
{
    let in_turn = match state.phase {
        GamePhase::TurnAction => true,
        _ => false,
    };
    if !in_turn {
        return Err(GameError::InvalidActionForPhase { reason: "not in TurnAction phase".to_owned() });
    }
    let idx = state.current_player_idx;
    if state.players[idx].id != player_id {
        return Err(GameError::NotPlayerTurn { player_id });
    }
    if state.players[idx].is_eliminated {
        return Err(GameError::PlayerEliminated { player_id });
    }
    if state.turn_state.token_played_this_turn {
        return Err(GameError::ShiftTokenAlreadyPlayed);
    }
    if !state.players[idx].has_token(token) {
        return Err(GameError::ShiftTokenNotOwned { player_id });
    }
    if token.requires_target() {
        let target_id = match token {
            ShiftToken::TargetTariff(t) => *t,
            ShiftToken::TargetAudit(t) => *t,
            ShiftToken::Exhaustion(t) => *t,
            ShiftToken::DirectTransaction(t) => *t,
            _ => 0,
        };
        if target_id == player_id {
            return Err(GameError::InvalidTokenTarget { player_id, reason: "cannot target yourself".to_owned() });
        }
        let k = match find_player_index(&state.players, target_id) {
            Some(k) => k,
            None => {
                return Err(GameError::PlayerNotFound { player_id: target_id });
            },
        };
        if state.players[k].is_eliminated {
            return Err(GameError::InvalidTokenTarget { player_id: target_id, reason: "target is eliminated".to_owned() });
        }
    }
    Ok(())
}

/// The statistics after `amount` tariff chips are counted for every player of `s` hit
/// by `hit`, in seating order.
pub open spec fn charge_tariffs(
    stats: Seq<PlayerStats>,
    s: Seq<Player>,
    hit: spec_fn(Player) -> bool,
    amount: u16,
) -> Seq<PlayerStats>
    decreases s.len(),
{
    if s.len() == 0 {
        stats
    } else {
        let q = charge_tariffs(stats, s.drop_last(), hit, amount);
        if hit(s.last()) {
            add_tariff(q, s.last().id, amount)
        } else {
            q
        }
    }
}

/// A player Embezzlement takes a chip from: another active, non-immune player with chips.
pub open spec fn embezzle_victim(p: Player, pid: PlayerId, immune: Seq<PlayerId>) -> bool {
    p.id != pid && !p.is_eliminated && !immune.contains(p.id) && p.chips > 0
}

/// The number of players of `s` hit by `hit`.
pub open spec fn count_hit(s: Seq<Player>, hit: spec_fn(Player) -> bool) -> nat
    decreases s.len(),
{
    if s.len() == 0 {
        0
    } else {
        count_hit(s.drop_last(), hit) + if hit(s.last()) { 1nat } else { 0nat }
    }
}

/// The players after Embezzlement by the player at `idx`: each victim loses one chip and
/// the player gains them all.
pub open spec fn embezzled_players(s: Seq<Player>, pid: PlayerId, immune: Seq<PlayerId>, idx: int) -> Seq<Player> {
    Seq::new(
        s.len(),
        |k: int|
            if embezzle_victim(s[k], pid, immune) {
                Player { chips: (s[k].chips - 1) as u8, ..s[k] }
            } else if k == idx {
                Player {
                    chips: (s[k].chips + count_hit(s, |p: Player| embezzle_victim(p, pid, immune))) as u8,
                    ..s[k]
                }
            } else {
                s[k]
            },
    )
}

/// A player after recovering up to `amount` invested chips.
pub open spec fn refunded(p: Player, amount: u8) -> Player {
    let r = if amount < p.pot { amount } else { p.pot };
    Player { chips: (p.chips + r) as u8, pot: (p.pot - r) as u8, ..p }
}

/// The effect of an economic token played by the player at the current seat.
pub open spec fn economic_effect(old: GameState, new: GameState, pid: PlayerId, token: ShiftToken, res: Result<(), GameError>) -> bool {
    let i = old.current_player_idx as int;
    let immune = old.modifiers.immune_players@;
    match token {
        ShiftToken::FreeDraw => res is Ok && new == (GameState { turn_state: new.turn_state, ..old })
            && new.turn_state == (TurnEphemeral { free_draw_active: true, ..old.turn_state }),
        ShiftToken::Refund => if old.players@[i].pot == 0 {
            res == Err::<(), GameError>(GameError::NoInvestedChips { player_id: pid }) && new == old
        } else {
            res is Ok && new == (GameState { players: new.players, ..old }) && new.players@ == old.players@.update(
                i,
                refunded(old.players@[i], 2),
            )
        },
        ShiftToken::ExtraRefund => if old.players@[i].pot == 0 {
            res == Err::<(), GameError>(GameError::NoInvestedChips { player_id: pid }) && new == old
        } else {
            res is Ok && new == (GameState { players: new.players, ..old }) && new.players@ == old.players@.update(
                i,
                refunded(old.players@[i], 3),
            )
        },
        ShiftToken::Embezzlement => res is Ok && new == (GameState { players: new.players, stats: new.stats, ..old })
            && new.players@ == embezzled_players(old.players@, pid, immune, i) && new.stats.player_stats@
            == charge_tariffs(old.stats.player_stats@, old.players@, |p: Player| embezzle_victim(p, pid, immune), 1),
        _ => true,
    }
}

/// Charging a tariff to each player of a prefix raises each counter by at most the
/// amount times the length of the prefix, and keeps the ids.
proof fn lemma_charge_tariffs_bound(stats: Seq<PlayerStats>, s: Seq<Player>, hit: spec_fn(Player) -> bool, amount: u16)
    requires
        tariffs_fit(stats, (amount * s.len()) as nat),
    ensures
        charge_tariffs(stats, s, hit, amount).len() == stats.len(),
        forall|k: int| 0 <= k < stats.len() ==> (#[trigger] charge_tariffs(stats, s, hit, amount)[k]) == (PlayerStats {
            chips_lost_to_tariffs: charge_tariffs(stats, s, hit, amount)[k].chips_lost_to_tariffs,
            ..stats[k]
        }),
        forall|k: int| 0 <= k < stats.len() ==> (#[trigger] charge_tariffs(stats, s, hit, amount)[k]).chips_lost_to_tariffs
            <= stats[k].chips_lost_to_tariffs + amount * s.len(),
    decreases s.len(),
{
    if s.len() > 0 {
        assert(amount * (s.len() - 1) <= amount * s.len()) by (nonlinear_arith);
        assert(amount * s.len() == amount * (s.len() - 1) + amount) by (nonlinear_arith);
        lemma_charge_tariffs_bound(stats, s.drop_last(), hit, amount);
    }
}

fn apply_economic_token(state: &mut GameState, player_id: PlayerId, token: &ShiftToken) -> (res: Result<(), GameError>)
    requires
        old(state).current_player_idx < old(state).players@.len(),
        old(state).players@[old(state).current_player_idx as int].id == player_id,
        chips_fit(old(state).players@),
        old(state).players@[old(state).current_player_idx as int].chips + old(state).players@.len() <= u8::MAX,
        tariffs_fit(old(state).stats.player_stats@, old(state).players@.len()),
    ensures
        economic_effect(*old(state), *final(state), player_id, *token, res),
{
    let idx = state.current_player_idx;
    match token {
        ShiftToken::FreeDraw => {
            state.turn_state.free_draw_active = true;
        },
        ShiftToken::Refund => {
            if state.players[idx].pot == 0 {
                return Err(GameError::NoInvestedChips { player_id });
            }
            state.players[idx].refund_chips(2);
            assert(state.players@ =~= old(state).players@.update(idx as int, refunded(old(state).players@[idx as int], 2)));
        },
        ShiftToken::ExtraRefund => {
            if state.players[idx].pot == 0 {
                return Err(GameError::NoInvestedChips { player_id });
            }
            state.players[idx].refund_chips(3);
            assert(state.players@ =~= old(state).players@.update(idx as int, refunded(old(state).players@[idx as int], 3)));
        },
        ShiftToken::Embezzlement => {
            let ghost s0 = state.players@;
            let ghost st0 = state.stats.player_stats@;
            let ghost immune = state.modifiers.immune_players@;
            let ghost hit = |p: Player| embezzle_victim(p, player_id, immune);
            proof {
                lemma_charge_tariffs_bound(st0, s0, hit, 1);
            }
            let mut stolen: u8 = 0;
            let mut i: usize = 0;
            while i < state.players.len()
                invariant
                    i <= s0.len(),
                    idx < s0.len(),
                    s0[idx as int].id == player_id,
                    s0 == old(state).players@,
                    st0 == old(state).stats.player_stats@,
                    immune == state.modifiers.immune_players@,
                    hit == (|p: Player| embezzle_victim(p, player_id, immune)),
                    s0[idx as int].chips + s0.len() <= u8::MAX,
                    tariffs_fit(st0, s0.len()),
                    *state == (GameState { players: state.players, stats: state.stats, ..*old(state) }),
                    state.players@.len() == s0.len(),
                    forall|k: int| 0 <= k < i ==> #[trigger] state.players@[k] == (if embezzle_victim(s0[k], player_id, immune) {
                        Player { chips: (s0[k].chips - 1) as u8, ..s0[k] }
                    } else {
                        s0[k]
                    }),
                    forall|k: int| i <= k < s0.len() ==> #[trigger] state.players@[k] == s0[k],
                    stolen == count_hit(s0.take(i as int), hit),
                    stolen <= i,
                    state.stats.player_stats@ == charge_tariffs(st0, s0.take(i as int), hit, 1),
                decreases s0.len() - i,
            {
                proof {
                    assert(s0.take(i + 1).drop_last() =~= s0.take(i as int));
                    assert(s0.take(i + 1).last() == s0[i as int]);
                    lemma_charge_tariffs_bound(st0, s0.take(i as int), hit, 1);
                }
                let pid = state.players[i].id;
                let victim = pid != player_id && !state.players[i].is_eliminated
                    && !list_contains(&state.modifiers.immune_players, pid) && state.players[i].chips > 0;
                if victim {
                    state.players[i].chips = state.players[i].chips - 1;
                    stolen = stolen + 1;
                    if let Some(k) = state.stats.find_index(pid) {
                        state.stats.player_stats[k].chips_lost_to_tariffs = state.stats.player_stats[k].chips_lost_to_tariffs + 1;
                    }
                    assert(state.stats.player_stats@ =~= add_tariff(charge_tariffs(st0, s0.take(i as int), hit, 1), pid, 1));
                }
                i = i + 1;
            }
            proof {
                assert(s0.take(s0.len() as int) =~= s0);
                assert(!embezzle_victim(s0[idx as int], player_id, immune));
            }
            state.players[idx].chips = state.players[idx].chips + stolen;
            assert(state.players@ =~= embezzled_players(s0, player_id, immune, idx as int));
        },
        _ => {},
    }
    Ok(())
}

/// A player GeneralTariff charges: another active, non-immune player.
pub open spec fn tariff_victim(p: Player, pid: PlayerId, immune: Seq<PlayerId>) -> bool {
    p.id != pid && !p.is_eliminated && !immune.contains(p.id)
}

/// The effect of a tariff token: GeneralTariff makes every other active, non-immune
/// player pay 1 chip; TargetTariff makes its target pay 2 unless the target is immune.
/// The chips paid count as lost to tariffs.
pub open spec fn tariff_effect(old: GameState, new: GameState, pid: PlayerId, token: ShiftToken) -> bool {
    let immune = old.modifiers.immune_players@;
    match token {
        ShiftToken::GeneralTariff => {
            &&& new == (GameState { players: new.players, stats: new.stats, ..old })
            &&& new.players@ == Seq::new(
                old.players@.len(),
                |k: int|
                    if tariff_victim(old.players@[k], pid, immune) {
                        old.players@[k].after_penalty(1)
                    } else {
                        old.players@[k]
                    },
            )
            &&& new.stats.player_stats@ == charge_tariffs(
                old.stats.player_stats@,
                old.players@,
                |p: Player| tariff_victim(p, pid, immune),
                1,
            )
        },
        ShiftToken::TargetTariff(t) => if immune.contains(t) {
            new == old
        } else {
            &&& new == (GameState { players: new.players, stats: new.stats, ..old })
            &&& new.players@ == penalize(old.players@, t, 2)
            &&& new.stats.player_stats@ == add_tariff(old.stats.player_stats@, t, 2)
        },
        _ => new == old,
    }
}

fn apply_tariff_token(state: &mut GameState, player_id: PlayerId, token: &ShiftToken)
    requires
        tariffs_fit(old(state).stats.player_stats@, old(state).players@.len() + 2),
    ensures
        tariff_effect(*old(state), *final(state), player_id, *token),
{
    match token {
        ShiftToken::GeneralTariff => {
            let ghost s0 = state.players@;
            let ghost st0 = state.stats.player_stats@;
            let ghost immune = state.modifiers.immune_players@;
            let ghost hit = |p: Player| tariff_victim(p, player_id, immune);
            let mut i: usize = 0;
            while i < state.players.len()
                invariant
                    i <= s0.len(),
                    s0 == old(state).players@,
                    st0 == old(state).stats.player_stats@,
                    immune == state.modifiers.immune_players@,
                    hit == (|p: Player| tariff_victim(p, player_id, immune)),
                    tariffs_fit(st0, s0.len() + 2),
                    *state == (GameState { players: state.players, stats: state.stats, ..*old(state) }),
                    state.players@.len() == s0.len(),
                    forall|k: int| 0 <= k < i ==> #[trigger] state.players@[k] == (if tariff_victim(s0[k], player_id, immune) {
                        s0[k].after_penalty(1)
                    } else {
                        s0[k]
                    }),
                    forall|k: int| i <= k < s0.len() ==> #[trigger] state.players@[k] == s0[k],
                    state.stats.player_stats@ == charge_tariffs(st0, s0.take(i as int), hit, 1),
                decreases s0.len() - i,
            {
                proof {
                    assert(s0.take(i + 1).drop_last() =~= s0.take(i as int));
                    assert(s0.take(i + 1).last() == s0[i as int]);
                    lemma_charge_tariffs_bound(st0, s0.take(i as int), hit, 1);
                }
                let pid = state.players[i].id;
                let victim = pid != player_id && !state.players[i].is_eliminated
                    && !list_contains(&state.modifiers.immune_players, pid);
                if victim {
                    state.players[i].apply_penalty(1);
                    if let Some(k) = state.stats.find_index(pid) {
                        state.stats.player_stats[k].chips_lost_to_tariffs = state.stats.player_stats[k].chips_lost_to_tariffs + 1;
                    }
                    assert(state.stats.player_stats@ =~= add_tariff(charge_tariffs(st0, s0.take(i as int), hit, 1), pid, 1));
                }
                i = i + 1;
            }
            proof {
                assert(s0.take(s0.len() as int) =~= s0);
            }
            assert(state.players@ =~= Seq::new(
                s0.len(),
                |k: int|
                    if tariff_victim(s0[k], player_id, immune) {
                        s0[k].after_penalty(1)
                    } else {
                        s0[k]
                    },
            ));
        },
        ShiftToken::TargetTariff(target_id) => {
            let tid = *target_id;
            if !list_contains(&state.modifiers.immune_players, tid) {
                let ghost st = state.stats.player_stats@;
                proof {
                    lemma_player_index(state.players@, tid);
                }
                if let Some(k) = find_player_index(&state.players, tid) {
                    state.players[k].apply_penalty(2);
                }
                if let Some(k) = state.stats.find_index(tid) {
                    state.stats.player_stats[k].chips_lost_to_tariffs = state.stats.player_stats[k].chips_lost_to_tariffs + 2;
                }
                assert(state.stats.player_stats@ =~= add_tariff(st, tid, 2));
            }
        },
        _ => {},
    }
}

/// The effect of an audit token: GeneralAudit charges the players who stand this turn
/// (other than the one who played it) at the end of the turn; TargetAudit does so for
/// its target.
pub open spec fn audit_effect(old: GameState, new: GameState, pid: PlayerId, token: ShiftToken) -> bool {
    match token {
        ShiftToken::GeneralAudit => new == (GameState { turn_state: new.turn_state, ..old }) && new.turn_state == (
        TurnEphemeral {
            pending_audit: PendingAudit { general: true, general_source: Some(pid), ..old.turn_state.pending_audit },
            ..old.turn_state
        }),
        ShiftToken::TargetAudit(t) => new == (GameState { turn_state: new.turn_state, ..old }) && new.turn_state == (
        TurnEphemeral {
            pending_audit: PendingAudit { target: Some(t), ..old.turn_state.pending_audit },
            ..old.turn_state
        }),
        _ => new == old,
    }
}

fn apply_audit_token(state: &mut GameState, player_id: PlayerId, token: &ShiftToken)
    ensures
        audit_effect(*old(state), *final(state), player_id, *token),
{
    match token {
        ShiftToken::GeneralAudit => {
            state.turn_state.pending_audit.general = true;
            state.turn_state.pending_audit.general_source = Some(player_id);
        },
        ShiftToken::TargetAudit(target_id) => {
            state.turn_state.pending_audit.target = Some(*target_id);
        },
        _ => {},
    }
}

/// The effect of a modifier token: Markdown, CookTheBooks and MajorFraud switch their
/// modifier on until the revelation; Immunity adds the player to the immune list.
pub open spec fn modifier_effect(old: GameState, new: GameState, pid: PlayerId, token: ShiftToken) -> bool {
    &&& new == (GameState { modifiers: new.modifiers, ..old })
    &&& match token {
        ShiftToken::Markdown => new.modifiers == (ActiveModifiers { markdown_active: true, ..old.modifiers }),
        ShiftToken::CookTheBooks => new.modifiers == (ActiveModifiers { cook_the_books_active: true, ..old.modifiers }),
        ShiftToken::MajorFraud => new.modifiers == (ActiveModifiers { major_fraud_active: true, ..old.modifiers }),
        ShiftToken::Immunity => new.modifiers == (ActiveModifiers { immune_players: new.modifiers.immune_players, ..old.modifiers })
            && new.modifiers.immune_players@ == old.modifiers.immune_players@.push(pid),
        _ => new.modifiers == old.modifiers,
    }
}

fn apply_modifier_token(state: &mut GameState, player_id: PlayerId, token: &ShiftToken)
    ensures
        modifier_effect(*old(state), *final(state), player_id, *token),
{
    match token {
        ShiftToken::Markdown => state.modifiers.markdown_active = true,
        ShiftToken::CookTheBooks => state.modifiers.cook_the_books_active = true,
        ShiftToken::MajorFraud => state.modifiers.major_fraud_active = true,
        ShiftToken::Immunity => state.modifiers.immune_players.push(player_id),
        _ => {},
    }
}

/// `new` is `old` with `extra` (when present) put on the discard pile, then `c` drawn.
pub open spec fn drew_after_discard(old: FamilyDeck, new: FamilyDeck, extra: Option<Card>, c: Card) -> bool {
    let discards = match extra {
        Some(x) => old.discard_pile@.push(x),
        None => old.discard_pile@,
    };
    &&& new.family == old.family
    &&& old.draw_pile@.len() > 0 ==> c == old.draw_pile@.last() && new.draw_pile@ == old.draw_pile@.drop_last()
        && new.discard_pile@ == discards
    &&& old.draw_pile@.len() == 0 ==> new.discard_pile@ == Seq::<Card>::empty()
        && new.draw_pile@.to_multiset().insert(c) == discards.to_multiset()
}

/// The effect of an interaction token played from the current seat.
///
/// Embargo makes the next active player stand, unless that player is immune. Exhaustion
/// makes its target return the hand to the discard piles and draw a new Sand and Blood
/// card, failing when a deck has nothing left. DirectTransaction swaps hands with the
/// target. Immune targets are left alone.
pub open spec fn interaction_effect(old: GameState, new: GameState, token: ShiftToken, res: Result<(), GameError>) -> bool {
    let immune = old.modifiers.immune_players@;
    let i = old.current_player_idx as int;
    match token {
        ShiftToken::Embargo => {
            let j = next_active(old.players@, i + 1);
            &&& res is Ok
            &&& if j < old.players@.len() && !immune.contains(old.players@[j].id) {
                new == (GameState { turn_state: new.turn_state, ..old }) && new.turn_state == (TurnEphemeral {
                    embargoed_player: Some(old.players@[j].id),
                    ..old.turn_state
                })
            } else {
                new == old
            }
        },
        ShiftToken::Exhaustion(t) => if immune.contains(t) {
            res is Ok && new == old
        } else {
            let k = player_index(old.players@, t);
            let h = old.players@[k].hand;
            let extra_sand = match h {
                Some(x) => Some(x.sand),
                None => None,
            };
            let extra_blood = match h {
                Some(x) => Some(x.blood),
                None => None,
            };
            if old.sand_deck.all_cards().len() == 0 && h is None {
                res == Err::<(), GameError>(GameError::DeckExhausted { family: Family::Sand })
            } else if old.blood_deck.all_cards().len() == 0 && h is None {
                res == Err::<(), GameError>(GameError::DeckExhausted { family: Family::Blood })
            } else {
                &&& res is Ok
                &&& new == (GameState { players: new.players, sand_deck: new.sand_deck, blood_deck: new.blood_deck, ..old })
                &&& new.players@[k].hand matches Some(nh) && nh.wf()
                    && drew_after_discard(old.sand_deck, new.sand_deck, extra_sand, nh.sand)
                    && drew_after_discard(old.blood_deck, new.blood_deck, extra_blood, nh.blood)
                    && new.players@ == old.players@.update(k, Player { hand: Some(nh), ..old.players@[k] })
            }
        },
        ShiftToken::DirectTransaction(t) => if immune.contains(t) {
            res is Ok && new == old
        } else {
            let k = player_index(old.players@, t);
            &&& res is Ok
            &&& new == (GameState { players: new.players, ..old })
            &&& new.players@ == old.players@.update(i, Player { hand: old.players@[k].hand, ..old.players@[i] }).update(
                k,
                Player { hand: old.players@[i].hand, ..old.players@[k] },
            )
        },
        _ => res is Ok && new == old,
    }
}

fn apply_interaction_token(state: &mut GameState, token: &ShiftToken, rng: &mut SmallRng) -> (res: Result<(), GameError>)
    requires
        old(state).wf(),
        old(state).current_player_idx < old(state).players@.len(),
        token.spec_requires_target() ==> player_index(old(state).players@, token.spec_target()->0) >= 0
            && player_index(old(state).players@, token.spec_target()->0) != old(state).current_player_idx,
    ensures
        interaction_effect(*old(state), *final(state), *token, res),
{
    let idx = state.current_player_idx;
    match token {
        ShiftToken::Embargo => {
            let num = state.players.len();
            let mut next_idx = idx + 1;
            while next_idx < num && state.players[next_idx].is_eliminated
                invariant
                    idx < num,
                    num == state.players@.len(),
                    idx + 1 <= next_idx <= num,
                    *state == *old(state),
                    next_active(state.players@, next_idx as int) == next_active(state.players@, idx + 1),
                decreases num - next_idx,
            {
                next_idx = next_idx + 1;
            }
            if next_idx < num {
                let pid = state.players[next_idx].id;
                if !list_contains(&state.modifiers.immune_players, pid) {
                    state.turn_state.embargoed_player = Some(pid);
                }
            }
            Ok(())
        },
        ShiftToken::Exhaustion(target_id) => {
            let tid = *target_id;
            if list_contains(&state.modifiers.immune_players, tid) {
                return Ok(());
            }
            let k = match find_player_index(&state.players, tid) {
                Some(k) => k,
                None => {
                    return Ok(());
                },
            };
            let old_hand = state.players[k].hand;
            if let Some(hand) = old_hand {
                state.players[k].hand = None;
                state.sand_deck.discard(hand.sand);
                state.blood_deck.discard(hand.blood);
            }
            let ghost sand_mid = state.sand_deck;
            let ghost blood_mid = state.blood_deck;
            let new_sand = state.sand_deck.draw(rng)?;
            let new_blood = state.blood_deck.draw(rng)?;
            let new_hand = Hand::new(new_sand, new_blood)?;
            state.players[k].hand = Some(new_hand);
            assert(state.players@ =~= old(state).players@.update(
                k as int,
                Player { hand: Some(new_hand), ..old(state).players@[k as int] },
            ));
            Ok(())
        },
        ShiftToken::DirectTransaction(target_id) => {
            let tid = *target_id;
            if list_contains(&state.modifiers.immune_players, tid) {
                return Ok(());
            }
            let k = match find_player_index(&state.players, tid) {
                Some(k) => k,
                None => {
                    return Err(GameError::PlayerNotFound { player_id: tid });
                },
            };
            let player_hand = state.players[idx].hand;
            let target_hand = state.players[k].hand;
            state.players[idx].hand = target_hand;
            state.players[k].hand = player_hand;
            assert(state.players@ =~= old(state).players@.update(
                idx as int,
                Player { hand: old(state).players@[k as int].hand, ..old(state).players@[idx as int] },
            ).update(k as int, Player { hand: old(state).players@[idx as int].hand, ..old(state).players@[k as int] }));
            Ok(())
        },
        _ => Ok(()),
    }
}

/// The effect of a token by its category (every token but PrimeSabacc).
pub open spec fn category_effect(old: GameState, new: GameState, pid: PlayerId, token: ShiftToken, r: Result<(), GameError>) -> bool {
    match token {
        ShiftToken::FreeDraw | ShiftToken::Refund | ShiftToken::ExtraRefund | ShiftToken::Embezzlement => economic_effect(
            old,
            new,
            pid,
            token,
            r,
        ),
        ShiftToken::GeneralTariff | ShiftToken::TargetTariff(_) => r is Ok && tariff_effect(old, new, pid, token),
        ShiftToken::GeneralAudit | ShiftToken::TargetAudit(_) => r is Ok && audit_effect(old, new, pid, token),
        ShiftToken::Markdown | ShiftToken::CookTheBooks | ShiftToken::MajorFraud | ShiftToken::Immunity => r is Ok
            && modifier_effect(old, new, pid, token),
        ShiftToken::Embargo | ShiftToken::Exhaustion(_) | ShiftToken::DirectTransaction(_) => interaction_effect(
            old,
            new,
            token,
            r,
        ),
        ShiftToken::PrimeSabacc => false,
    }
}

/// `new` is `old` after the player at the current seat spent a token of the kind of
/// `token`: the first such token leaves their inventory, a token counts as played this
/// turn, and the play is counted in the statistics.
pub open spec fn token_spent(old: GameState, new: GameState, pid: PlayerId, token: ShiftToken) -> bool {
    let i = old.current_player_idx as int;
    let p = old.players@[i];
    let q = new.players@[i];
    &&& new == (GameState { players: new.players, turn_state: new.turn_state, stats: new.stats, phase: new.phase, ..old })
    &&& new.players@.len() == old.players@.len()
    &&& forall|k: int| 0 <= k < old.players@.len() && k != i ==> #[trigger] new.players@[k] == old.players@[k]
    &&& q == (Player { shift_tokens: q.shift_tokens, ..p })
    &&& exists|j: int| crate::player::is_first_of_kind(p.shift_tokens@, token, j) && q.shift_tokens@ == p.shift_tokens@.remove(j)
    &&& new.turn_state == (TurnEphemeral { token_played_this_turn: true, ..old.turn_state })
    &&& new.stats.player_stats@ == update_stats(old.stats.player_stats@, pid, |s: PlayerStats| count_token(s))
}

/// The outcome of playing a shift token. A token that fails its checks is refused. A
/// PrimeSabacc rolls two dice and asks the player to pick one. Any other token takes
/// effect first (which may fail) and is then spent.
pub open spec fn shift_token_outcome(old: GameState, pid: PlayerId, token: ShiftToken, res: Result<GameState, GameError>) -> bool {
    if !token_check_ok(old, pid, token) {
        res matches Err(e) && token_check_error(old, pid, token, e)
    } else if token is PrimeSabacc {
        &&& res matches Ok(new)
        &&& new.phase matches GamePhase::PrimeSabaccChoice { player_id, die1, die2 }
        &&& player_id == pid && 1 <= die1 <= 6 && 1 <= die2 <= 6
        &&& token_spent(old, new, pid, token)
    } else {
        exists|mid: GameState|
            #[trigger] category_effect(old, mid, pid, token, unit_of(res)) && (res matches Ok(new) ==> token_spent(
                mid,
                new,
                pid,
                token,
            ) && new.phase == old.phase)
    }
}

/// Spend the current player's token: remove it, mark a token as played, count it.
fn spend_token(state: &mut GameState, player_id: PlayerId, token: &ShiftToken)
    requires
        old(state).current_player_idx < old(state).players@.len(),
        crate::player::holds_kind(old(state).players@[old(state).current_player_idx as int].shift_tokens@, *token),
        forall|k: int| 0 <= k < old(state).stats.player_stats@.len() ==> (#[trigger] old(state).stats.player_stats@[k]).tokens_played < u8::MAX,
    ensures
        token_spent(*old(state), *final(state), player_id, *token),
        final(state).phase == old(state).phase,
{
    let idx = state.current_player_idx;
    let ghost p = state.players@[idx as int];
    let r = state.players[idx].remove_token(token);
    assert(r is Ok);
    let ghost q = state.players@[idx as int];
    assert(q == (Player { shift_tokens: q.shift_tokens, ..p }));
    state.turn_state.token_played_this_turn = true;
    let ghost st = state.stats.player_stats@;
    if let Some(k) = state.stats.find_index(player_id) {
        state.stats.player_stats[k].tokens_played = state.stats.player_stats[k].tokens_played + 1;
    }
    assert(state.stats.player_stats@ =~= update_stats(st, player_id, |s: PlayerStats| count_token(s)));
}

fn apply_shift_token(mut state: GameState, player_id: PlayerId, token: ShiftToken, rng: &mut SmallRng) -> (res: Result<
    GameState,
    GameError,
>)
    requires
        state.wf(),
        state.phase is TurnAction ==> state.current_player_idx < state.players@.len(),
        counters_fit(state.stats.player_stats@),
        chips_fit(state.players@),
        state.phase is TurnAction ==> state.players@[state.current_player_idx as int].chips + state.players@.len() <= u8::MAX,
        tariffs_fit(state.stats.player_stats@, state.players@.len() + 2),
    ensures
        shift_token_outcome(state, player_id, token, res),
{
    let ghost old_state = state;
    validate_shift_token(&state, player_id, &token)?;
    let idx = state.current_player_idx;
    proof {
        lemma_player_index(state.players@, token.spec_target()->0);
    }
    if let ShiftToken::PrimeSabacc = token {
        let die1 = crate::rng::gen_u8_inclusive(rng, 1, 6);
        let die2 = crate::rng::gen_u8_inclusive(rng, 1, 6);
        spend_token(&mut state, player_id, &token);
        state.phase = GamePhase::PrimeSabaccChoice { player_id, die1, die2 };
        return Ok(state);
    }
    let r: Result<(), GameError> = match token {
        ShiftToken::FreeDraw | ShiftToken::Refund | ShiftToken::ExtraRefund | ShiftToken::Embezzlement => {
            apply_economic_token(&mut state, player_id, &token)
        },
        ShiftToken::GeneralTariff | ShiftToken::TargetTariff(_) => {
            apply_tariff_token(&mut state, player_id, &token);
            Ok(())
        },
        ShiftToken::GeneralAudit | ShiftToken::TargetAudit(_) => {
            apply_audit_token(&mut state, player_id, &token);
            Ok(())
        },
        ShiftToken::Markdown | ShiftToken::CookTheBooks | ShiftToken::MajorFraud | ShiftToken::Immunity => {
            apply_modifier_token(&mut state, player_id, &token);
            Ok(())
        },
        _ => apply_interaction_token(&mut state, &token, rng),
    };
    let ghost mid = state;
    assert(category_effect(old_state, mid, player_id, token, r));
    match r {
        Err(e) => {
            return Err(e);
        },
        Ok(()) => {},
    }
    assert(mid.players@[idx as int].shift_tokens@ == old_state.players@[idx as int].shift_tokens@);
    proof {
        lemma_charge_tariffs_bound(old_state.stats.player_stats@, old_state.players@, |p: Player| embezzle_victim(p, player_id, old_state.modifiers.immune_players@), 1);
        lemma_charge_tariffs_bound(old_state.stats.player_stats@, old_state.players@, |p: Player| tariff_victim(p, player_id, old_state.modifiers.immune_players@), 1);
    }
    spend_token(&mut state, player_id, &token);
    assert(category_effect(old_state, mid, player_id, token, unit_of(Ok::<GameState, GameError>(state))));
    assert(token_spent(mid, state, player_id, token));
    Ok(state)
}

/// The outcome of a PrimeSabacc die choice: only in the PrimeSabaccChoice phase, only by
/// the player who rolled, and only one of the two dice; the chosen value then overrides
/// that player's rank at the revelation and play returns to the turn.
pub open spec fn prime_choice_outcome(old: GameState, pid: PlayerId, chosen: u8, res: Result<GameState, GameError>) -> bool {
    match old.phase {
        GamePhase::PrimeSabaccChoice { player_id, die1, die2 } => if pid != player_id {
            res == Err::<GameState, GameError>(GameError::NotPlayerTurn { player_id: pid })
        } else if chosen != die1 && chosen != die2 {
            res == Err::<GameState, GameError>(GameError::InvalidPrimeSabaccChoice { chosen, die1, die2 })
        } else {
            res matches Ok(new) && new == (GameState {
                phase: GamePhase::TurnAction,
                modifiers: ActiveModifiers {
                    prime_sabacc: Some(crate::scoring::PrimeSabaccModifier { player_id: pid, chosen_value: chosen }),
                    ..old.modifiers
                },
                ..old
            })
        },
        _ => res matches Err(e) && phase_error(e, "not in PrimeSabaccChoice phase"@),
    }
}

fn apply_prime_sabacc_choice(mut state: GameState, player_id: PlayerId, chosen_value: u8) -> (res: Result<
    GameState,
    GameError,
>)
    ensures
        prime_choice_outcome(state, player_id, chosen_value, res),
{
    let (expected_pid, die1, die2) = match state.phase {
        GamePhase::PrimeSabaccChoice { player_id, die1, die2 } => (player_id, die1, die2),
        _ => {
            return Err(GameError::InvalidActionForPhase { reason: "not in PrimeSabaccChoice phase".to_owned() });
        },
    };
    if player_id != expected_pid {
        return Err(GameError::NotPlayerTurn { player_id });
    }
    if chosen_value != die1 && chosen_value != die2 {
        return Err(GameError::InvalidPrimeSabaccChoice { chosen: chosen_value, die1, die2 });
    }
    state.modifiers.prime_sabacc = Some(crate::scoring::PrimeSabaccModifier { player_id, chosen_value });
    state.phase = GamePhase::TurnAction;
    Ok(state)
}

/// The players after tokens are handed out at the start of the game: eliminated players
/// keep theirs; every other player gets the fixed set, or a random selection of
/// distinct token types (as many as asked, at most sixteen), or keeps what they have
/// when no tokens are distributed.
pub open spec fn tokens_distributed(old: Seq<Player>, new: Seq<Player>, dist: TokenDistribution) -> bool {
    &&& new.len() == old.len()
    &&& forall|k: int| 0 <= k < old.len() ==> #[trigger] new[k] == (Player { shift_tokens: new[k].shift_tokens, ..old[k] })
    &&& forall|k: int| 0 <= k < old.len() ==> {
        let t = (#[trigger] new[k]).shift_tokens@;
        if old[k].is_eliminated {
            t == old[k].shift_tokens@
        } else {
            match dist {
                TokenDistribution::NoTokens => t == old[k].shift_tokens@,
                TokenDistribution::Fixed(v) => t == v@,
                TokenDistribution::Random { tokens_per_player } => exists|perm: Seq<ShiftToken>|
                    perm.len() == 16 && #[trigger] perm.to_multiset() == ShiftToken::spec_all_types().to_multiset()
                        && t == perm.take(if tokens_per_player < 16 { tokens_per_player as int } else { 16 }),
            }
        }
    }
}

/// A copy of a list of tokens.
fn copy_tokens(v: &Vec<ShiftToken>) -> (r: Vec<ShiftToken>)
    ensures
        r@ == v@,
{
    let mut r: Vec<ShiftToken> = Vec::new();
    let mut i: usize = 0;
    while i < v.len()
        invariant
            i <= v@.len(),
            r@ == v@.take(i as int),
        decreases v.len() - i,
    {
        r.push(v[i]);
        assert(v@.take(i + 1) =~= v@.take(i as int).push(v@[i as int]));
        i = i + 1;
    }
    assert(v@.take(v@.len() as int) =~= v@);
    r
}

/// Distribute shift tokens to players based on config.
fn distribute_tokens(state: &mut GameState, rng: &mut SmallRng)
    ensures
        *final(state) == (GameState { players: final(state).players, ..*old(state) }),
        tokens_distributed(old(state).players@, final(state).players@, old(state).config.token_distribution),
{
    let ghost s0 = state.players@;
    match &state.config.token_distribution {
        TokenDistribution::NoTokens => {},
        TokenDistribution::Fixed(tokens) => {
            let tokens = copy_tokens(tokens);
            let mut i: usize = 0;
            while i < state.players.len()
                invariant
                    i <= s0.len(),
                    state.players@.len() == s0.len(),
                    *state == (GameState { players: state.players, ..*old(state) }),
                    s0 == old(state).players@,
                    state.config.token_distribution matches TokenDistribution::Fixed(v) && v@ == tokens@,
                    forall|k: int| 0 <= k < s0.len() ==> #[trigger] state.players@[k] == (Player {
                        shift_tokens: state.players@[k].shift_tokens,
                        ..s0[k]
                    }),
                    forall|k: int| 0 <= k < i ==> (#[trigger] state.players@[k]).shift_tokens@ == (if s0[k].is_eliminated {
                        s0[k].shift_tokens@
                    } else {
                        tokens@
                    }),
                    forall|k: int| i <= k < s0.len() ==> #[trigger] state.players@[k] == s0[k],
                decreases s0.len() - i,
            {
                if !state.players[i].is_eliminated {
                    state.players[i].shift_tokens = copy_tokens(&tokens);
                }
                i = i + 1;
            }
        },
        TokenDistribution::Random { tokens_per_player } => {
            let n = *tokens_per_player;
            let all_types = ShiftToken::all_types();
            let mut i: usize = 0;
            while i < state.players.len()
                invariant
                    i <= s0.len(),
                    state.players@.len() == s0.len(),
                    *state == (GameState { players: state.players, ..*old(state) }),
                    s0 == old(state).players@,
                    all_types@ == ShiftToken::spec_all_types(),
                    state.config.token_distribution == (TokenDistribution::Random { tokens_per_player: n }),
                    forall|k: int| 0 <= k < s0.len() ==> #[trigger] state.players@[k] == (Player {
                        shift_tokens: state.players@[k].shift_tokens,
                        ..s0[k]
                    }),
                    forall|k: int| 0 <= k < i ==> {
                        let t = (#[trigger] state.players@[k]).shift_tokens@;
                        if s0[k].is_eliminated {
                            t == s0[k].shift_tokens@
                        } else {
                            exists|perm: Seq<ShiftToken>|
                                perm.len() == 16 && #[trigger] perm.to_multiset() == ShiftToken::spec_all_types().to_multiset()
                                    && t == perm.take(if n < 16 { n as int } else { 16 })
                        }
                    },
                    forall|k: int| i <= k < s0.len() ==> #[trigger] state.players@[k] == s0[k],
                decreases s0.len() - i,
            {
                if !state.players[i].is_eliminated {
                    let mut available = copy_tokens(&all_types);
                    crate::deck::shuffle(&mut available, rng);
                    let mut chosen: Vec<ShiftToken> = Vec::new();
                    let mut j: usize = 0;
                    while j < n && j < available.len()
                        invariant
                            available@.len() == 16,
                            j <= 16,
                            j <= n,
                            chosen@ == available@.take(j as int),
                        decreases 16 - j,
                    {
                        chosen.push(available[j]);
                        assert(available@.take(j + 1) =~= available@.take(j as int).push(available@[j as int]));
                        j = j + 1;
                    }
                    assert(j == (if n < 16 { n as int } else { 16 }));
                    let ghost perm = available@;
                    state.players[i].shift_tokens = chosen;
                    assert(perm.len() == 16 && perm.to_multiset() == ShiftToken::spec_all_types().to_multiset()
                        && state.players@[i as int].shift_tokens@ == perm.take(if n < 16 { n as int } else { 16 }));
                }
                i = i + 1;
            }
        },
    }
}

/// The outcome of starting the game: only from Setup; tokens are handed out, round 1
/// and turn 1 begin with the first active seat, and hands are dealt (which fails when
/// a deck runs out).
pub open spec fn start_outcome(old: GameState, res: Result<GameState, GameError>) -> bool {
    if !(old.phase is Setup) {
        res matches Err(e) && phase_error(e, "game already started"@)
    } else {
        exists|mid: GameState|
            #[trigger] tokens_distributed(old.players@, mid.players@, old.config.token_distribution) && mid == (
            GameState { players: mid.players, ..old }) && if can_deal(mid.players@, old.sand_deck, old.blood_deck) {
                res matches Ok(new) && new == (GameState {
                    players: new.players,
                    sand_deck: new.sand_deck,
                    blood_deck: new.blood_deck,
                    round: 1,
                    turn: 1,
                    current_player_idx: next_active(new.players@, 0) as usize,
                    phase: GamePhase::TurnAction,
                    ..old
                }) && dealt(mid.players@, new.players@, old.sand_deck, new.sand_deck, old.blood_deck, new.blood_deck)
            } else {
                res == Err::<GameState, GameError>(deal_error(old.sand_deck, old.blood_deck))
            }
    }
}

fn apply_start_game(mut state: GameState, rng: &mut SmallRng) -> (res: Result<GameState, GameError>)
    requires
        state.wf(),
    ensures
        start_outcome(state, res),
{
    let ghost old_state = state;
    let in_setup = match state.phase {
        GamePhase::Setup => true,
        _ => false,
    };
    if !in_setup {
        return Err(GameError::InvalidActionForPhase { reason: "game already started".to_owned() });
    }
    state.round = 1;
    state.turn = 1;
    state.current_player_idx = 0;
    distribute_tokens(&mut state, rng);
    let ghost mid = GameState { round: old_state.round, turn: old_state.turn, current_player_idx: old_state.current_player_idx, ..state };
    assert(tokens_distributed(old_state.players@, mid.players@, old_state.config.token_distribution));
    round::deal_hands(&mut state.players, &mut state.sand_deck, &mut state.blood_deck, rng)?;
    state.phase = GamePhase::TurnAction;
    skip_eliminated(&mut state);
    Ok(state)
}


/// A seat as created from configuration entry `entry` at position `i`: numbered by its
/// position, named and flagged as configured, holding the starting chips and nothing else.
pub open spec fn seated(p: Player, i: int, entry: (String, bool), starting_chips: u8) -> bool {
    &&& p.id as int == i
    &&& p.name@ == entry.0@
    &&& p.chips == starting_chips
    &&& p.pot == 0
    &&& p.hand is None
    &&& p.shift_tokens@ == Seq::<ShiftToken>::empty()
    &&& !p.is_eliminated
    &&& p.is_bot == entry.1
}

/// A freshly shuffled deck of one family: the standard cards, nothing discarded.
pub open spec fn fresh_deck(d: FamilyDeck, family: Family) -> bool {
    &&& d.family == family
    &&& d.wf()
    &&& d.draw_pile@.len() == 22
    &&& d.draw_pile@.to_multiset() == crate::deck::standard_cards(family).to_multiset()
    &&& d.discard_pile@ == Seq::<Card>::empty()
}

/// A fresh deck holds only cards within the scale.
proof fn lemma_fresh_deck_in_scale(d: FamilyDeck, family: Family)
    requires
        fresh_deck(d, family),
    ensures
        cards_in_scale(d.all_cards()),
{
    crate::deck::lemma_standard_pile_cards(d.draw_pile@, family);
    assert(d.all_cards() =~= d.draw_pile@);
}

/// The error for a table that does not seat two to four players.
pub open spec fn player_count_error(e: GameError, n: nat) -> bool {
    e matches GameError::InvalidConfig { reason } && reason@ == "need 2-4 players, got "@ + decimal(n)
}

/// Create a new game state from configuration.
pub fn new_game(config: GameConfig, rng: &mut SmallRng) -> (res: Result<GameState, GameError>)
    requires
        config.players@.len() < 2 || config.players@.len() > 4 || config.buy_in * config.players@.len()
            <= u32::MAX,
    ensures
        config.players@.len() < 2 || config.players@.len() > 4 <==> res is Err,
        res matches Err(e) ==> player_count_error(e, config.players@.len()),
        res matches Ok(g) ==> {
            &&& g.wf()
            &&& g.players@.len() == config.players@.len()
            &&& forall|i: int| 0 <= i < g.players@.len() ==> seated(#[trigger] g.players@[i], i, config.players@[i], config.starting_chips)
            &&& fresh_deck(g.sand_deck, Family::Sand)
            &&& fresh_deck(g.blood_deck, Family::Blood)
            &&& g.round == 0 && g.turn == 0 && g.current_player_idx == 0
            &&& g.phase is Setup
            &&& g.credits_in_pot == config.buy_in * config.players@.len()
            &&& g.modifiers.is_default()
            &&& g.config == config
            &&& g.turn_state.is_clear()
            &&& g.elimination_order@ == Seq::<(PlayerId, u8)>::empty()
            &&& g.stats.player_stats@.len() == config.players@.len()
            &&& forall|i: int| 0 <= i < g.stats.player_stats@.len() ==> (#[trigger] g.stats.player_stats@[i]).is_fresh(
                i as PlayerId,
                config.starting_chips,
            )
        },
{
    let n = config.players.len();
    if n < 2 || n > 4 {
        proof {
            reveal_strlit("need 2-4 players, got ");
        }
        return Err(GameError::InvalidConfig { reason: text_with_number("need 2-4 players, got ", n) });
    }
    let mut players: Vec<Player> = Vec::new();
    let mut ids: Vec<PlayerId> = Vec::new();
    let mut i: usize = 0;
    while i < n
        invariant
            n == config.players@.len(),
            2 <= n <= 4,
            i <= n,
            players@.len() == i,
            ids@.len() == i,
            forall|k: int| 0 <= k < i ==> seated(#[trigger] players@[k], k, config.players@[k], config.starting_chips),
            forall|k: int| 0 <= k < i ==> #[trigger] ids@[k] == k,
        decreases n - i,
    {
        let name = config.players[i].0.clone();
        let is_bot = config.players[i].1;
        players.push(Player::new(i as PlayerId, name, config.starting_chips, is_bot));
        ids.push(i as PlayerId);
        i = i + 1;
    }
    let credits_in_pot = config.buy_in * (n as u32);
    let stats = GameStats::new(&ids, config.starting_chips);
    let sand_deck = FamilyDeck::new(Family::Sand, rng);
    let blood_deck = FamilyDeck::new(Family::Blood, rng);
    let state = GameState {
        players,
        sand_deck,
        blood_deck,
        round: 0,
        turn: 0,
        current_player_idx: 0,
        phase: GamePhase::Setup,
        credits_in_pot,
        modifiers: ActiveModifiers::default(),
        config,
        turn_state: TurnEphemeral::default(),
        elimination_order: Vec::new(),
        stats,
    };
    proof {
        assert forall|k: int| 0 <= k < state.stats.player_stats@.len() implies (#[trigger] state.stats.player_stats@[k]).is_fresh(
            k as PlayerId,
            state.config.starting_chips,
        ) by {
            assert(ids@[k] == k);
        }
        lemma_fresh_deck_in_scale(state.sand_deck, Family::Sand);
        lemma_fresh_deck_in_scale(state.blood_deck, Family::Blood);
    }
    Ok(state)
}


impl GameState {
    /// While a player is to act, the current seat is a seat of the table.
    pub open spec fn seat_ok(self) -> bool {
        (self.phase is TurnAction || self.phase is ChoosingDiscard) ==> self.current_player_idx < self.players@.len()
    }

}

impl GameState {
    /// Room for what `action` can add: a turn action or a token raises the statistics
    /// counters and moves chips between reserve and pot, audits and tariffs raise the
    /// tariff tallies, Embezzlement brings the current player one chip per opponent, and
    /// the next round raises the round number and the round counters. Starting the game
    /// and submitting a die choice add to none of them.
    pub open spec fn fits(self, action: Action) -> bool {
        let stats = self.stats.player_stats@;
        let n = self.players@.len();
        let stood = self.turn_state.stood_this_turn@.len();
        match action {
            Action::StartGame | Action::SubmitImpostorChoice(_) | Action::SubmitPrimeSabaccChoice { .. } => true,
            Action::PlayerAction { .. } => counters_fit(stats) && chips_fit(self.players@) && tariffs_fit(
                stats,
                2 * stood + 5,
            ),
            Action::ChooseDiscard { .. } => tariffs_fit(stats, 2 * stood + 3),
            Action::AdvanceRound => counters_fit(stats) && chips_fit(self.players@) && (self.phase is RoundEnd
                && active_ids(self.players@).len() != 1 ==> self.round < u8::MAX),
            Action::PlayShiftToken { .. } => {
                &&& counters_fit(stats)
                &&& chips_fit(self.players@)
                &&& self.phase is TurnAction && self.current_player_idx < n ==> self.players@[self.current_player_idx as int].chips
                    + n <= u8::MAX
                &&& tariffs_fit(stats, n + 2)
            },
        }
    }
}

/// Any two tallies too large for a counter leave room for the same statistics: none
/// unless there are none.
proof fn lemma_tariffs_past_limit(stats: Seq<PlayerStats>, x: nat, y: nat)
    requires
        x > u16::MAX,
        y > u16::MAX,
    ensures
        tariffs_fit(stats, x) == tariffs_fit(stats, y),
{
    if stats.len() > 0 {
        assert(stats[0].chips_lost_to_tariffs + x > u16::MAX);
    }
}

fn counters_ok(stats: &Vec<PlayerStats>) -> (b: bool)
    ensures
        b == counters_fit(stats@),
{
    let mut i: usize = 0;
    while i < stats.len()
        invariant
            i <= stats@.len(),
            forall|k: int| 0 <= k < i ==> {
                let s = #[trigger] stats@[k];
                &&& s.stands_count < u16::MAX
                &&& s.draws_count < u16::MAX
                &&& s.tokens_played < u8::MAX
                &&& s.rounds_played < u8::MAX
                &&& s.rounds_won < u8::MAX
                &&& s.chips_lost_to_penalties + u8::MAX <= u16::MAX
            },
        decreases stats.len() - i,
    {
        let s = &stats[i];
        if !(s.stands_count < 65535 && s.draws_count < 65535 && s.tokens_played < 255 && s.rounds_played < 255
            && s.rounds_won < 255 && s.chips_lost_to_penalties <= 65280) {
            return false;
        }
        i = i + 1;
    }
    true
}

fn chips_ok(players: &Vec<Player>) -> (b: bool)
    ensures
        b == chips_fit(players@),
{
    let mut j: usize = 0;
    while j < players.len()
        invariant
            j <= players@.len(),
            forall|k: int| 0 <= k < j ==> (#[trigger] players@[k]).chips + players@[k].pot <= u8::MAX,
        decreases players.len() - j,
    {
        if players[j].chips as u16 + players[j].pot as u16 > 255 {
            return false;
        }
        j = j + 1;
    }
    true
}

/// Whether every tariff tally has room for `extra` more chips (`extra` capped past the
/// largest tally).
fn tariffs_ok(stats: &Vec<PlayerStats>, extra: u64) -> (b: bool)
    ensures
        b == tariffs_fit(stats@, extra as nat),
{
    let mut i: usize = 0;
    while i < stats.len()
        invariant
            i <= stats@.len(),
            forall|k: int| 0 <= k < i ==> (#[trigger] stats@[k]).chips_lost_to_tariffs + extra <= u16::MAX,
        decreases stats.len() - i,
    {
        if extra > 65535 || stats[i].chips_lost_to_tariffs as u64 + extra > 65535 {
            return false;
        }
        i = i + 1;
    }
    true
}

impl GameState {
    /// Whether the counters and chips have room for what `action` can add.
    pub fn has_room_for(&self, action: &Action) -> (b: bool)
        ensures
            b == self.fits(*action),
    {
        let stats = &self.stats.player_stats;
        let n = self.players.len();
        let stood = self.turn_state.stood_this_turn.len();
        let big: u64 = 100000;
        match action {
            Action::StartGame | Action::SubmitImpostorChoice(_) | Action::SubmitPrimeSabaccChoice { .. } => true,
            Action::PlayerAction { .. } => {
                let extra: u64 = if stood > 50000 {
                    big
                } else {
                    2 * stood as u64 + 5
                };
                proof {
                    if stood > 50000 {
                        lemma_tariffs_past_limit(stats@, extra as nat, (2 * stood + 5) as nat);
                    }
                }
                counters_ok(stats) && chips_ok(&self.players) && tariffs_ok(stats, extra)
            },
            Action::ChooseDiscard { .. } => {
                let extra: u64 = if stood > 50000 {
                    big
                } else {
                    2 * stood as u64 + 3
                };
                proof {
                    if stood > 50000 {
                        lemma_tariffs_past_limit(stats@, extra as nat, (2 * stood + 3) as nat);
                    }
                }
                tariffs_ok(stats, extra)
            },
            Action::AdvanceRound => {
                let ending = match self.phase {
                    GamePhase::RoundEnd => true,
                    _ => false,
                };
                let round_ok = !ending || round::check_game_over(&self.players).is_some() || self.round < 255;
                counters_ok(stats) && chips_ok(&self.players) && round_ok
            },
            Action::PlayShiftToken { .. } => {
                let extra: u64 = if n > 70000 {
                    big
                } else {
                    n as u64 + 2
                };
                proof {
                    if n > 70000 {
                        lemma_tariffs_past_limit(stats@, extra as nat, (n + 2) as nat);
                    }
                }
                let in_turn = match self.phase {
                    GamePhase::TurnAction => true,
                    _ => false,
                };
                let gain_ok = !(in_turn && self.current_player_idx < n) || (n <= 255
                    && self.players[self.current_player_idx].chips as u64 + n as u64 <= 255);
                counters_ok(stats) && chips_ok(&self.players) && gain_ok && tariffs_ok(stats, extra)
            },
        }
    }
}

/// What applying `action` to `old` gives: the outcome of the step the action names.
pub open spec fn action_outcome(old: GameState, action: Action, res: Result<GameState, GameError>) -> bool {
    match action {
        Action::StartGame => start_outcome(old, res),
        Action::PlayerAction { player_id, action } => player_action_outcome(old, player_id, action, res),
        Action::ChooseDiscard { player_id, choice } => choose_discard_outcome(old, player_id, choice, res),
        Action::SubmitImpostorChoice(choice) => impostor_outcome(old, choice, res),
        Action::AdvanceRound => advance_round_outcome(old, res),
        Action::PlayShiftToken { player_id, token } => if !old.config.enable_shift_tokens {
            res == Err::<GameState, GameError>(GameError::ShiftTokensDisabled)
        } else {
            shift_token_outcome(old, player_id, token, res)
        },
        Action::SubmitPrimeSabaccChoice { player_id, chosen_value } => prime_choice_outcome(
            old,
            player_id,
            chosen_value,
            res,
        ),
    }
}

/// Apply an action to the game state, returning the new state or an error.
pub fn apply_action(state: GameState, action: Action, rng: &mut SmallRng) -> (res: Result<GameState, GameError>)
    requires
        state.wf(),
        state.seat_ok(),
        state.fits(action),
        action matches Action::SubmitImpostorChoice(c) ==> choice_in_scale(c),
    ensures
        action_outcome(state, action, res),
{
    match action {
        Action::StartGame => apply_start_game(state, rng),
        Action::PlayerAction { player_id, action } => apply_player_action(state, player_id, action, rng),
        Action::ChooseDiscard { player_id, choice } => apply_choose_discard(state, player_id, choice),
        Action::SubmitImpostorChoice(choice) => apply_impostor_choice(state, choice),
        Action::AdvanceRound => apply_advance_round(state, rng),
        Action::PlayShiftToken { player_id, token } => {
            if !state.config.enable_shift_tokens {
                Err(GameError::ShiftTokensDisabled)
            } else {
                apply_shift_token(state, player_id, token, rng)
            }
        },
        Action::SubmitPrimeSabaccChoice { player_id, chosen_value } => apply_prime_sabacc_choice(
            state,
            player_id,
            chosen_value,
        ),
    }
}

/// One PlayShiftToken action per token held, in order.
pub open spec fn token_actions(pid: PlayerId, tokens: Seq<ShiftToken>) -> Seq<Action> {
    tokens.map_values(|t: ShiftToken| Action::PlayShiftToken { player_id: pid, token: t })
}

/// The draws on offer: both decks always, and each discard pile while it shows a card.
pub open spec fn draw_actions(state: GameState, pid: PlayerId) -> Seq<Action> {
    let draw = |s: DrawSource| Action::PlayerAction { player_id: pid, action: TurnAction::Draw(s) };
    seq![draw(DrawSource::SandDeck), draw(DrawSource::BloodDeck)] + (if state.sand_deck.discard_pile@.len() > 0 {
        seq![draw(DrawSource::SandDiscard)]
    } else {
        Seq::empty()
    }) + (if state.blood_deck.discard_pile@.len() > 0 {
        seq![draw(DrawSource::BloodDiscard)]
    } else {
        Seq::empty()
    })
}

/// The actions on offer in the TurnAction phase to the player at the current seat: a
/// token play per token held (when tokens are enabled and none was played this turn),
/// then Stand, then the draws (only while the player has chips or a FreeDraw is active,
/// and never for an embargoed player).
pub open spec fn turn_actions(state: GameState) -> Seq<Action> {
    let p = state.players@[state.current_player_idx as int];
    let pid = p.id;
    let tokens = if state.config.enable_shift_tokens && !state.turn_state.token_played_this_turn {
        token_actions(pid, p.shift_tokens@)
    } else {
        Seq::empty()
    };
    let stand = seq![Action::PlayerAction { player_id: pid, action: TurnAction::Stand }];
    if p.is_eliminated {
        Seq::empty()
    } else if state.turn_state.embargoed_player == Some(pid) {
        tokens + stand
    } else if p.chips > 0 || state.turn_state.free_draw_active {
        tokens + stand + draw_actions(state, pid)
    } else {
        tokens + stand
    }
}

/// The actions on offer in each phase.
pub open spec fn offered_actions(state: GameState) -> Seq<Action> {
    match state.phase {
        GamePhase::Setup => seq![Action::StartGame],
        GamePhase::TurnAction => turn_actions(state),
        GamePhase::PrimeSabaccChoice { player_id, die1, die2 } => seq![
            Action::SubmitPrimeSabaccChoice { player_id, chosen_value: die1 },
        ] + if die1 != die2 {
            seq![Action::SubmitPrimeSabaccChoice { player_id, chosen_value: die2 }]
        } else {
            Seq::empty()
        },
        GamePhase::ChoosingDiscard { player_id, .. } => seq![
            Action::ChooseDiscard { player_id, choice: DiscardChoice::KeepDrawn },
            Action::ChooseDiscard { player_id, choice: DiscardChoice::DiscardDrawn },
        ],
        GamePhase::ImpostorReveal { .. } => Seq::empty(),
        GamePhase::Reveal { .. } | GamePhase::RoundEnd => seq![Action::AdvanceRound],
        GamePhase::GameOver { .. } => Seq::empty(),
    }
}

/// Get the list of available actions for the current state.
///
/// Impostor choices are not listed: they need dice rolls, so the caller builds them.
pub fn available_actions(state: &GameState) -> (actions: Vec<Action>)
    requires
        state.phase is TurnAction ==> state.current_player_idx < state.players@.len(),
    ensures
        actions@ == offered_actions(*state),
{
    match &state.phase {
        GamePhase::Setup => {
            let mut v: Vec<Action> = Vec::new();
            v.push(Action::StartGame);
            v
        },
        GamePhase::TurnAction => {
            let player = &state.players[state.current_player_idx];
            if player.is_eliminated {
                return Vec::new();
            }
            let pid = player.id;
            let mut actions: Vec<Action> = Vec::new();
            if state.config.enable_shift_tokens && !state.turn_state.token_played_this_turn {
                let mut i: usize = 0;
                while i < player.shift_tokens.len()
                    invariant
                        i <= player.shift_tokens@.len(),
                        actions@ == token_actions(pid, player.shift_tokens@.take(i as int)),
                    decreases player.shift_tokens@.len() - i,
                {
                    actions.push(Action::PlayShiftToken { player_id: pid, token: player.shift_tokens[i] });
                    assert(token_actions(pid, player.shift_tokens@.take(i + 1)) =~= token_actions(
                        pid,
                        player.shift_tokens@.take(i as int),
                    ).push(Action::PlayShiftToken { player_id: pid, token: player.shift_tokens@[i as int] }));
                    i = i + 1;
                }
                assert(player.shift_tokens@.take(player.shift_tokens@.len() as int) =~= player.shift_tokens@);
            }
            let ghost tokens = actions@;
            actions.push(Action::PlayerAction { player_id: pid, action: TurnAction::Stand });
            if state.turn_state.embargoed_player == Some(pid) {
                assert(actions@ =~= turn_actions(*state));
                return actions;
            }
            if player.chips > 0 || state.turn_state.free_draw_active {
                actions.push(Action::PlayerAction { player_id: pid, action: TurnAction::Draw(DrawSource::SandDeck) });
                actions.push(Action::PlayerAction { player_id: pid, action: TurnAction::Draw(DrawSource::BloodDeck) });
                if state.sand_deck.peek_discard().is_some() {
                    actions.push(
                        Action::PlayerAction { player_id: pid, action: TurnAction::Draw(DrawSource::SandDiscard) },
                    );
                }
                if state.blood_deck.peek_discard().is_some() {
                    actions.push(
                        Action::PlayerAction { player_id: pid, action: TurnAction::Draw(DrawSource::BloodDiscard) },
                    );
                }
            }
            assert(actions@ =~= turn_actions(*state));
            actions
        },
        GamePhase::PrimeSabaccChoice { player_id, die1, die2 } => {
            let mut choices: Vec<Action> = Vec::new();
            choices.push(Action::SubmitPrimeSabaccChoice { player_id: *player_id, chosen_value: *die1 });
            if die1 != die2 {
                choices.push(Action::SubmitPrimeSabaccChoice { player_id: *player_id, chosen_value: *die2 });
            }
            assert(choices@ =~= offered_actions(*state));
            choices
        },
        GamePhase::ChoosingDiscard { player_id, .. } => {
            let mut v: Vec<Action> = Vec::new();
            v.push(Action::ChooseDiscard { player_id: *player_id, choice: DiscardChoice::KeepDrawn });
            v.push(Action::ChooseDiscard { player_id: *player_id, choice: DiscardChoice::DiscardDrawn });
            assert(v@ =~= offered_actions(*state));
            v
        },
        GamePhase::ImpostorReveal { .. } => Vec::new(),
        GamePhase::Reveal { .. } | GamePhase::RoundEnd => {
            let mut v: Vec<Action> = Vec::new();
            v.push(Action::AdvanceRound);
            assert(v@ =~= offered_actions(*state));
            v
        },
        GamePhase::GameOver { .. } => Vec::new(),
    }
}

/// Whether a bot's decision is due: the current player in a turn, the player who drew,
/// the first pending Impostor player, or the player choosing a PrimeSabacc value, when
/// that player is a bot (and, in a turn, still in the game).
pub open spec fn bot_to_act(s: GameState) -> bool {
    match s.phase {
        GamePhase::TurnAction => s.current_player_idx < s.players@.len() && s.players@[s.current_player_idx as int].is_bot
            && !s.players@[s.current_player_idx as int].is_eliminated,
        GamePhase::ChoosingDiscard { player_id, .. } => player_index(s.players@, player_id) >= 0
            && s.players@[player_index(s.players@, player_id)].is_bot,
        GamePhase::ImpostorReveal { pending, .. } => pending@.len() > 0 && player_index(s.players@, pending@[0]) >= 0
            && s.players@[player_index(s.players@, pending@[0])].is_bot,
        GamePhase::PrimeSabaccChoice { player_id, .. } => player_index(s.players@, player_id) >= 0
            && s.players@[player_index(s.players@, player_id)].is_bot,
        _ => false,
    }
}

/// Applying `act` to `a` succeeds and gives `b`.
pub open spec fn step_ok(a: GameState, act: Action, b: GameState) -> bool {
    action_outcome(a, act, Ok(b))
}

/// `states` are the states of a run of the successful actions `acts`, in order.
pub open spec fn run(states: Seq<GameState>, acts: Seq<Action>) -> bool {
    &&& states.len() == acts.len() + 1
    &&& forall|i: int| 0 <= i < acts.len() ==> step_ok(states[i], #[trigger] acts[i], states[i + 1])
}

/// `b` is reached from `a` by a run of successful actions.
pub open spec fn reached(a: GameState, b: GameState, states: Seq<GameState>, acts: Seq<Action>) -> bool {
    run(states, acts) && states[0] == a && states.last() == b
}

/// Whether `act` answers the decision due in `s`, for the player it is due from: a
/// draw, a stand or (when tokens can be played this turn) a token of the current
/// player; the discard of the player who drew; the Impostor choice of the first pending
/// player; the PrimeSabacc value of the player who played the token.
pub open spec fn answers(s: GameState, act: Action) -> bool {
    match s.phase {
        GamePhase::TurnAction => s.current_player_idx < s.players@.len() && match act {
            Action::PlayerAction { player_id, .. } => player_id == s.players@[s.current_player_idx as int].id,
            Action::PlayShiftToken { player_id, .. } => player_id == s.players@[s.current_player_idx as int].id
                && s.config.enable_shift_tokens && !s.turn_state.token_played_this_turn,
            _ => false,
        },
        GamePhase::ChoosingDiscard { player_id, .. } => act matches Action::ChooseDiscard { player_id: p, .. } && p
            == player_id,
        GamePhase::ImpostorReveal { pending, .. } => pending@.len() > 0 && (act matches Action::SubmitImpostorChoice(c)
            && c.player_id == pending@[0]),
        GamePhase::PrimeSabaccChoice { player_id, .. } => act matches Action::SubmitPrimeSabaccChoice { player_id: p, .. }
            && p == player_id,
        _ => false,
    }
}

/// Every move of the run `states`/`acts` was made where a bot's decision was due, with
/// room for that move, and answers that decision.
pub open spec fn bots_moved(states: Seq<GameState>, acts: Seq<Action>) -> bool {
    forall|i: int|
        0 <= i < acts.len() ==> bot_to_act(#[trigger] states[i]) && states[i].fits(acts[i]) && states[i].seat_ok()
            && answers(states[i], acts[i])
}

/// A run of successful actions extended by one more successful action is still a run.
proof fn lemma_extend_reached(start: GameState, states: Seq<GameState>, acts: Seq<Action>, cur: GameState, action: Action, next: GameState)
    requires
        reached(start, cur, states, acts),
        step_ok(cur, action, next),
    ensures
        reached(start, next, states.push(next), acts.push(action)),
{
    let ns = states.push(next);
    let na = acts.push(action);
    assert forall|i: int| 0 <= i < na.len() implies step_ok(ns[i], #[trigger] na[i], ns[i + 1]) by {
        if i < acts.len() {
            assert(na[i] == acts[i] && ns[i] == states[i] && ns[i + 1] == states[i + 1]);
        }
    }
}

/// Bot moves extended by one more bot move are still bot moves.
proof fn lemma_extend_bots_moved(states: Seq<GameState>, acts: Seq<Action>, cur: GameState, action: Action, next: GameState)
    requires
        states.len() == acts.len() + 1,
        states.last() == cur,
        bots_moved(states, acts),
        bot_to_act(cur) && cur.fits(action) && cur.seat_ok() && answers(cur, action),
    ensures
        bots_moved(states.push(next), acts.push(action)),
{
    let ns = states.push(next);
    let na = acts.push(action);
    assert forall|i: int| 0 <= i < na.len() implies bot_to_act(#[trigger] ns[i]) && ns[i].fits(na[i]) && ns[i].seat_ok()
        && answers(ns[i], na[i]) by {
        if i < acts.len() {
            assert(na[i] == acts[i] && ns[i] == states[i]);
        } else {
            assert(ns[i] == cur && na[i] == action);
        }
    }
}

/// Advance bot players automatically. Returns state after all bot actions.
///
/// The bots act for as long as a decision of a bot is due; the first action that fails
/// ends the run with its error. A run also stops, leaving the state as it is, when the
/// current seat is off the table or the move a bot chose has no room (a counter or a
/// chip count would overflow). With no bot decision due, the state comes back as it was
/// and the bot is not asked anything.
#[verifier::rlimit(30)]
pub fn advance_bots<B: BotStrategy>(state: GameState, bot: &B, rng: &mut SmallRng) -> (res: Result<GameState, GameError>)
    requires
        state.wf(),
    ensures
        !bot_to_act(state) || !state.seat_ok() ==> res == Ok::<GameState, GameError>(state) && *final(rng) == *old(rng),
        res matches Ok(s) ==> {
            &&& s.wf()
            &&& exists|states: Seq<GameState>, acts: Seq<Action>|
                #[trigger] reached(state, s, states, acts) && bots_moved(states, acts)
            &&& !bot_to_act(s) || !s.seat_ok() || exists|act: Action| #[trigger] answers(s, act) && !s.fits(act)
        },
        res matches Err(e) ==> exists|states: Seq<GameState>, acts: Seq<Action>, act: Action|
            {
                &&& #[trigger] reached(state, states.last(), states, acts)
                &&& bots_moved(states, acts)
                &&& states.last().wf()
                &&& bot_to_act(states.last()) && states.last().fits(act) && states.last().seat_ok()
                &&& answers(states.last(), act)
                &&& #[trigger] action_outcome(states.last(), act, Err(e))
            },
{
    let ghost start = state;
    let ghost mut states: Seq<GameState> = seq![state];
    let ghost mut acts: Seq<Action> = Seq::empty();
    let mut cur = state;
    loop
        invariant
            start == state,
            cur.wf(),
            reached(start, cur, states, acts),
            bots_moved(states, acts),
            acts.len() == 0 ==> cur == start && *rng == *old(rng),
        decreases
            progress::stage_rank(cur),
            progress::turns_left(cur),
            progress::seats_left(cur),
            progress::tokens_left(cur),
            progress::step_rank(cur),
            progress::pending_left(cur),
    {
        let seat_in = cur.current_player_idx < cur.players.len();
        let needs_seat = match cur.phase {
            GamePhase::TurnAction | GamePhase::ChoosingDiscard { .. } => true,
            _ => false,
        };
        if needs_seat && !seat_in {
            return Ok(cur);
        }
        let action: Action = match &cur.phase {
            GamePhase::TurnAction => {
                let player = &cur.players[cur.current_player_idx];
                if !player.is_bot || player.is_eliminated {
                    return Ok(cur);
                }
                if cur.config.enable_shift_tokens && !cur.turn_state.token_played_this_turn {
                    match bot.choose_token(&cur, rng) {
                        Some(token_action) => token_action,
                        None => bot.choose_action(&cur, rng),
                    }
                } else {
                    bot.choose_action(&cur, rng)
                }
            },
            GamePhase::ChoosingDiscard { player_id, .. } => {
                match find_player_index(&cur.players, *player_id) {
                    Some(k) => {
                        if cur.players[k].is_bot {
                            bot.choose_discard(&cur, rng)
                        } else {
                            return Ok(cur);
                        }
                    },
                    None => {
                        return Ok(cur);
                    },
                }
            },
            GamePhase::ImpostorReveal { pending, .. } => {
                if pending.len() == 0 {
                    return Ok(cur);
                }
                match find_player_index(&cur.players, pending[0]) {
                    Some(k) => {
                        if cur.players[k].is_bot {
                            bot.choose_impostor(&cur, rng)
                        } else {
                            return Ok(cur);
                        }
                    },
                    None => {
                        return Ok(cur);
                    },
                }
            },
            GamePhase::PrimeSabaccChoice { player_id, .. } => {
                match find_player_index(&cur.players, *player_id) {
                    Some(k) => {
                        if cur.players[k].is_bot {
                            bot.choose_prime_sabacc(&cur, rng)
                        } else {
                            return Ok(cur);
                        }
                    },
                    None => {
                        return Ok(cur);
                    },
                }
            },
            _ => {
                return Ok(cur);
            },
        };
        let ghost prev = cur;
        assert(bot_to_act(prev) && prev.seat_ok() && answers(prev, action));
        if !cur.has_room_for(&action) {
            assert(answers(cur, action) && !cur.fits(action));
            return Ok(cur);
        }
        assert(bot_to_act(prev) && prev.fits(action) && prev.seat_ok() && answers(prev, action));
        match apply_action(cur, action, rng) {
            Ok(next) => {
                proof {
                    crate::validity::lemma_actions_keep_wf(prev, action, next);
                    progress::lemma_step_moves_on(prev, action, next);
                    lemma_extend_reached(start, states, acts, prev, action, next);
                    lemma_extend_bots_moved(states, acts, prev, action, next);
                    states = states.push(next);
                    acts = acts.push(action);
                }
                cur = next;
            },
            Err(e) => {
                assert(reached(start, states.last(), states, acts) && action_outcome(states.last(), action, Err(e)));
                return Err(e);
            },
        }
    }
}

/// A GeneralAudit played by `pid` never charges `pid`: whoever stood, the players it
/// hits keep their ids and the place of `pid` is left as it was.
proof fn lemma_general_audit_spares_source(
    players: Seq<Player>,
    stats: Seq<PlayerStats>,
    stood: Seq<PlayerId>,
    audit: PendingAudit,
    immune: Seq<PlayerId>,
    pid: PlayerId,
)
    requires
        audit.general_source == Some(pid),
        player_index(players, pid) >= 0,
    ensures
        same_ids(players, general_audit(players, stats, stood, audit, immune).0),
        general_audit(players, stats, stood, audit, immune).0[player_index(players, pid)] == players[player_index(
            players,
            pid,
        )],
    decreases stood.len(),
{
    lemma_player_index(players, pid);
    if stood.len() > 0 {
        lemma_general_audit_spares_source(players, stats, stood.drop_last(), audit, immune, pid);
        let prev = general_audit(players, stats, stood.drop_last(), audit, immune);
        lemma_player_index(prev.0, stood.last());
    }
}

/// The player who plays a GeneralAudit is never charged by it. After the token is
/// played, the audits resolved at the end of the turn leave that player's seat exactly
/// as it was, whoever stood, whichever players are immune, and even when that player
/// stood too (unless a TargetAudit names that player).
pub proof fn lemma_general_audit_spares_its_player(
    old: GameState,
    new: GameState,
    pid: PlayerId,
    players: Seq<Player>,
    stats: Seq<PlayerStats>,
    stood: Seq<PlayerId>,
    immune: Seq<PlayerId>,
)
    requires
        audit_effect(old, new, pid, ShiftToken::GeneralAudit),
        player_index(players, pid) >= 0,
        new.turn_state.pending_audit.target != Some(pid),
    ensures
        new.turn_state.pending_audit.general,
        audits_result(players, stats, stood, new.turn_state.pending_audit, immune).0[player_index(players, pid)]
            == players[player_index(players, pid)],
{
    let audit = new.turn_state.pending_audit;
    lemma_general_audit_spares_source(players, stats, stood, audit, immune, pid);
    let g = general_audit(players, stats, stood, audit, immune);
    lemma_player_index(players, pid);
    if let Some(t) = audit.target {
        lemma_player_index(g.0, t);
    }
}

/// Every draw on offer in a turn goes through when applied: it is offered only to the
/// player at the seat, never to an embargoed player, and only while that player can pay
/// for it (a chip in the reserve, or a FreeDraw active). The one way it can still fail is
/// a deck with no card left to draw.
pub proof fn lemma_offered_draws_go_through(state: GameState, i: int, res: Result<GameState, GameError>)
    requires
        state.phase is TurnAction,
        state.current_player_idx < state.players@.len(),
        0 <= i < offered_actions(state).len(),
        offered_actions(state)[i] matches Action::PlayerAction { action: TurnAction::Draw(_), .. },
        action_outcome(state, offered_actions(state)[i], res),
    ensures
        ({
            let p = state.players@[state.current_player_idx as int];
            let a = offered_actions(state)[i];
            &&& p.chips > 0 || state.turn_state.free_draw_active
            &&& !p.is_eliminated
            &&& state.turn_state.embargoed_player != Some(p.id)
            &&& a->PlayerAction_player_id == p.id
            &&& a matches Action::PlayerAction { action: TurnAction::Draw(src), .. } && (res is Ok || ((src is SandDeck
                || src is BloodDeck) && source_empty(state, src) && res == Err::<GameState, GameError>(
                empty_source_error(src),
            )))
            &&& res is Ok || res != Err::<GameState, GameError>(
                GameError::InsufficientChips { player_id: p.id, available: 0, required: 1 },
            )
        }),
{
    let p = state.players@[state.current_player_idx as int];
    let pid = p.id;
    let tokens = if state.config.enable_shift_tokens && !state.turn_state.token_played_this_turn {
        token_actions(pid, p.shift_tokens@)
    } else {
        Seq::<Action>::empty()
    };
    let stand = seq![Action::PlayerAction { player_id: pid, action: TurnAction::Stand }];
    let t = turn_actions(state);
    assert(offered_actions(state) == t);
    assert(forall|j: int| 0 <= j < tokens.len() ==> (#[trigger] tokens[j]) is PlayShiftToken);
    let draws = draw_actions(state, pid);
    assert(forall|j: int| 0 <= j < draws.len() ==> ((#[trigger] draws[j]) matches Action::PlayerAction {
        player_id,
        action: TurnAction::Draw(src),
    } && player_id == pid && (src is SandDiscard ==> state.sand_deck.discard_pile@.len() > 0) && (src is BloodDiscard
        ==> state.blood_deck.discard_pile@.len() > 0)));
    if p.is_eliminated {
        assert(t.len() == 0);
    } else if state.turn_state.embargoed_player == Some(pid) || !(p.chips > 0 || state.turn_state.free_draw_active) {
        assert(t == tokens + stand);
        if i < tokens.len() {
            assert(t[i] == tokens[i]);
        } else {
            assert(t[i] == stand[i - tokens.len()]);
        }
    } else {
        assert(t == tokens + stand + draws);
        if i < tokens.len() {
            assert(t[i] == tokens[i]);
        } else if i == tokens.len() {
            assert(t[i] == stand[0]);
        } else {
            assert(t[i] == draws[i - tokens.len() - 1]);
        }
    }
}

/// What a turn offers the player at the seat: a player still in the game can always
/// Stand, and can draw from either deck whenever not embargoed and able to pay (a chip in
/// the reserve or a FreeDraw active).
pub proof fn lemma_turn_offers_stand_and_draws(state: GameState)
    requires
        state.phase is TurnAction,
        state.current_player_idx < state.players@.len(),
        !state.players@[state.current_player_idx as int].is_eliminated,
    ensures
        ({
            let p = state.players@[state.current_player_idx as int];
            &&& offered_actions(state).contains(
                Action::PlayerAction { player_id: p.id, action: TurnAction::Stand },
            )
            &&& state.turn_state.embargoed_player != Some(p.id) && (p.chips > 0 || state.turn_state.free_draw_active)
                ==> offered_actions(state).contains(
                Action::PlayerAction { player_id: p.id, action: TurnAction::Draw(DrawSource::SandDeck) },
            ) && offered_actions(state).contains(
                Action::PlayerAction { player_id: p.id, action: TurnAction::Draw(DrawSource::BloodDeck) },
            )
        }),
{
    let p = state.players@[state.current_player_idx as int];
    let pid = p.id;
    let tokens = if state.config.enable_shift_tokens && !state.turn_state.token_played_this_turn {
        token_actions(pid, p.shift_tokens@)
    } else {
        Seq::<Action>::empty()
    };
    let stand = seq![Action::PlayerAction { player_id: pid, action: TurnAction::Stand }];
    let t = turn_actions(state);
    let n = tokens.len() as int;
    if state.turn_state.embargoed_player != Some(pid) && (p.chips > 0 || state.turn_state.free_draw_active) {
        let draws = draw_actions(state, pid);
        assert(t == tokens + stand + draws);
        assert(t[n] == stand[0]);
        assert(t[n + 1] == draws[0]);
        assert(t[n + 2] == draws[1]);
    } else {
        assert(t == tokens + stand);
        assert(t[n] == stand[0]);
    }
}

/// A GeneralAudit charges each other standing player that is not immune exactly 2 chips
/// from the reserve (all of it, and out of the game, when 2 cannot be covered); the pot
/// and everything else about that player stay as they were.
pub proof fn lemma_general_audit_charges_others(
    players: Seq<Player>,
    stats: Seq<PlayerStats>,
    stood: Seq<PlayerId>,
    audit: PendingAudit,
    immune: Seq<PlayerId>,
    i: int,
)
    requires
        0 <= i < stood.len(),
        forall|j: int| 0 <= j < stood.len() && j != i ==> #[trigger] stood[j] != stood[i],
        audit.general_source != Some(stood[i]),
        !immune.contains(stood[i]),
        player_index(players, stood[i]) >= 0,
    ensures
        ({
            let k = player_index(players, stood[i]);
            let p = players[k];
            let after = general_audit(players, stats, stood, audit, immune).0[k];
            &&& after.chips == (if p.chips <= 2 { 0 } else { p.chips - 2 })
            &&& after.is_eliminated == (p.is_eliminated || p.chips <= 2)
            &&& after == (Player { chips: after.chips, is_eliminated: after.is_eliminated, ..p })
        }),
    decreases stood.len(),
{
    let x = stood[i];
    let n = stood.len() - 1;
    let prev = general_audit(players, stats, stood.drop_last(), audit, immune);
    lemma_general_audit_keeps_ids(players, stats, stood.drop_last(), audit, immune);
    lemma_player_index(players, x);
    crate::player::lemma_player_index_same_ids(players, prev.0, x);
    assert(stood[n] == stood.last());
    if i == n {
        assert forall|j: int| 0 <= j < stood.drop_last().len() implies #[trigger] stood.drop_last()[j] != x by {
            assert(stood.drop_last()[j] == stood[j]);
        }
        lemma_general_audit_leaves_others(players, stats, stood.drop_last(), audit, immune, x);
    } else {
        assert forall|j: int| 0 <= j < stood.drop_last().len() && j != i implies #[trigger] stood.drop_last()[j]
            != stood.drop_last()[i] by {
            assert(stood.drop_last()[j] == stood[j]);
        }
        assert(stood.drop_last()[i] == x);
        lemma_general_audit_charges_others(players, stats, stood.drop_last(), audit, immune, i);
        lemma_player_index(prev.0, stood.last());
    }
}

/// A GeneralAudit changes no player's id.
proof fn lemma_general_audit_keeps_ids(
    players: Seq<Player>,
    stats: Seq<PlayerStats>,
    stood: Seq<PlayerId>,
    audit: PendingAudit,
    immune: Seq<PlayerId>,
)
    ensures
        same_ids(players, general_audit(players, stats, stood, audit, immune).0),
    decreases stood.len(),
{
    if stood.len() > 0 {
        lemma_general_audit_keeps_ids(players, stats, stood.drop_last(), audit, immune);
        let prev = general_audit(players, stats, stood.drop_last(), audit, immune);
        lemma_player_index(prev.0, stood.last());
    }
}

/// A GeneralAudit leaves alone a player who did not stand.
proof fn lemma_general_audit_leaves_others(
    players: Seq<Player>,
    stats: Seq<PlayerStats>,
    stood: Seq<PlayerId>,
    audit: PendingAudit,
    immune: Seq<PlayerId>,
    x: PlayerId,
)
    requires
        player_index(players, x) >= 0,
        forall|j: int| 0 <= j < stood.len() ==> #[trigger] stood[j] != x,
    ensures
        general_audit(players, stats, stood, audit, immune).0[player_index(players, x)] == players[player_index(
            players,
            x,
        )],
    decreases stood.len(),
{
    lemma_player_index(players, x);
    if stood.len() > 0 {
        assert forall|j: int| 0 <= j < stood.drop_last().len() implies #[trigger] stood.drop_last()[j] != x by {
            assert(stood.drop_last()[j] == stood[j]);
        }
        assert(stood[stood.len() - 1] == stood.last());
        lemma_general_audit_leaves_others(players, stats, stood.drop_last(), audit, immune, x);
        lemma_general_audit_keeps_ids(players, stats, stood.drop_last(), audit, immune);
        let prev = general_audit(players, stats, stood.drop_last(), audit, immune);
        lemma_player_index(prev.0, stood.last());
    }
}

} // verus!
