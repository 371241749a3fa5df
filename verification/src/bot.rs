//! Bot players: a forgiving weighted-random bot and an EV-optimised expert bot.

use rand::rngs::SmallRng;
use vstd::prelude::*;

use crate::card::{CardValue, Family};
use crate::game::{choice_in_scale, Action, GamePhase, GameState};
use crate::player::{find_player_index, lemma_player_index, player_index, Player};
use crate::rng::{gen_i32_below, gen_ratio, gen_u32_below, gen_u8_inclusive};
use crate::scoring::ImpostorChoice;
use crate::shift_token::ShiftToken;
use crate::turn::{DiscardChoice, DrawSource, TurnAction};
use crate::PlayerId;

verus! {

/// Bot difficulty level. Implements `BotStrategy` by delegation.
#[derive(Debug, Clone, Copy, PartialEq, Eq, Structural)]
pub enum BotDifficulty {
    /// Weighted-random decisions, forgiving for new players.
    Basic,
    /// EV-optimised strategy: deterministic thresholds, smart source selection, targeted tokens.
    Expert,
}

// ── Card arithmetic ──────────────────────────────────────────────────

/// A numeric value for comparison: a number is itself, Sylop is 0 and Impostor 7.
pub open spec fn numeric_value(v: CardValue) -> u8 {
    match v {
        CardValue::Number(n) => n,
        CardValue::Sylop => 0,
        CardValue::Impostor => 7,
    }
}

/// The distance between two values.
pub open spec fn abs_diff(a: u8, b: u8) -> u8 {
    if a >= b {
        (a - b) as u8
    } else {
        (b - a) as u8
    }
}

/// Of two dice, the one closest to `target` (the first on a tie).
pub open spec fn closest(die1: u8, die2: u8, target: u8) -> u8 {
    if abs_diff(die1, target) <= abs_diff(die2, target) {
        die1
    } else {
        die2
    }
}

/// Get a numeric value for comparison. Sylop=0, Impostor=7 (placeholder), Number=n.
pub fn card_numeric_value(value: &CardValue) -> (v: u8)
    ensures
        v == numeric_value(*value),
{
    match value {
        CardValue::Number(n) => *n,
        CardValue::Sylop => 0,
        CardValue::Impostor => 7,
    }
}

fn diff_of(a: u8, b: u8) -> (d: u8)
    ensures
        d == abs_diff(a, b),
{
    if a >= b {
        a - b
    } else {
        b - a
    }
}

/// Pick the die value closest to a target.
pub fn pick_closest(die1: u8, die2: u8, target: u8) -> (v: u8)
    ensures
        v == closest(die1, die2, target),
{
    let d1 = diff_of(die1, target);
    let d2 = diff_of(die2, target);
    if d1 <= d2 {
        die1
    } else {
        die2
    }
}

/// Build a Stand action for the given player.
pub open spec fn stand(pid: PlayerId) -> Action {
    Action::PlayerAction { player_id: pid, action: TurnAction::Stand }
}

fn stand_action(pid: PlayerId) -> (a: Action)
    ensures
        a == stand(pid),
{
    Action::PlayerAction { player_id: pid, action: TurnAction::Stand }
}

/// A draw from `source` by `pid`.
pub open spec fn draw(pid: PlayerId, source: DrawSource) -> Action {
    Action::PlayerAction { player_id: pid, action: TurnAction::Draw(source) }
}

/// The distance between the two cards of a player's hand (3 without a hand).
pub open spec fn hand_gap(p: Player) -> u8 {
    match p.hand {
        Some(h) => abs_diff(numeric_value(h.sand.value), numeric_value(h.blood.value)),
        None => 3,
    }
}

fn hand_gap_of(p: &Player) -> (d: u8)
    ensures
        d == hand_gap(*p),
{
    match &p.hand {
        Some(h) => diff_of(card_numeric_value(&h.sand.value), card_numeric_value(&h.blood.value)),
        None => 3,
    }
}

// ── Looking at the opponents ─────────────────────────────────────────

/// An opponent of `self_id` who is still in the game.
pub open spec fn rival(p: Player, self_id: PlayerId) -> bool {
    !p.is_eliminated && p.id != self_id
}

/// Reserve plus pot, as a mathematical integer.
pub open spec fn holdings(p: Player) -> int {
    p.chips + p.pot
}

/// The position of the richest rival (the last of the richest on a tie), or -1.
pub open spec fn threat_index(s: Seq<Player>, self_id: PlayerId) -> int
    decreases s.len(),
{
    if s.len() == 0 {
        -1
    } else {
        let prev = threat_index(s.drop_last(), self_id);
        if rival(s.last(), self_id) && (prev < 0 || holdings(s[prev]) <= holdings(s.last())) {
            s.len() - 1
        } else {
            prev
        }
    }
}

/// The id of the richest rival, if any.
pub open spec fn threat_id(s: Seq<Player>, self_id: PlayerId) -> Option<PlayerId> {
    let k = threat_index(s, self_id);
    if k >= 0 {
        Some(s[k].id)
    } else {
        None
    }
}

proof fn lemma_threat_index_range(s: Seq<Player>, self_id: PlayerId)
    ensures
        -1 <= threat_index(s, self_id) < s.len(),
        threat_index(s, self_id) >= 0 ==> rival(s[threat_index(s, self_id)], self_id),
    decreases s.len(),
{
    if s.len() > 0 {
        lemma_threat_index_range(s.drop_last(), self_id);
    }
}

/// Find the most threatening opponent (non-eliminated, most chips).
pub fn most_threatening(state: &GameState, self_id: PlayerId) -> (r: Option<PlayerId>)
    ensures
        r == threat_id(state.players@, self_id),
{
    let players = &state.players;
    let mut best: usize = 0;
    let mut found = false;
    let mut best_total: u16 = 0;
    let mut i: usize = 0;
    while i < players.len()
        invariant
            i <= players@.len(),
            found ==> best < i && threat_index(players@.take(i as int), self_id) == best && best_total == holdings(
                players@[best as int],
            ),
            !found ==> threat_index(players@.take(i as int), self_id) == -1,
        decreases players.len() - i,
    {
        let p = &players[i];
        let ghost pre = players@.take(i as int);
        let ghost cur = players@.take(i + 1);
        proof {
            assert(cur.drop_last() =~= pre);
            assert(cur.last() == players@[i as int]);
            if found {
                assert(cur[best as int] == players@[best as int]);
            }
        }
        let total = p.chips as u16 + p.pot as u16;
        if !p.is_eliminated && p.id != self_id && (!found || best_total <= total) {
            best = i;
            best_total = total;
            found = true;
        }
        i = i + 1;
    }
    proof {
        assert(players@.take(players@.len() as int) =~= players@);
    }
    if found {
        Some(players[best].id)
    } else {
        None
    }
}

/// The number of rivals of `self_id` still in the game.
pub open spec fn rivals_alive(s: Seq<Player>, self_id: PlayerId) -> nat
    decreases s.len(),
{
    if s.len() == 0 {
        0
    } else {
        rivals_alive(s.drop_last(), self_id) + if rival(s.last(), self_id) { 1nat } else { 0nat }
    }
}

fn count_rivals(players: &Vec<Player>, self_id: PlayerId) -> (n: usize)
    ensures
        n == rivals_alive(players@, self_id),
{
    let mut n: usize = 0;
    let mut i: usize = 0;
    while i < players.len()
        invariant
            i <= players@.len(),
            n == rivals_alive(players@.take(i as int), self_id),
            n <= i,
        decreases players.len() - i,
    {
        proof {
            assert(players@.take(i + 1).drop_last() =~= players@.take(i as int));
        }
        if !players[i].is_eliminated && players[i].id != self_id {
            n = n + 1;
        }
        i = i + 1;
    }
    proof {
        assert(players@.take(players@.len() as int) =~= players@);
    }
    n
}

/// The chips of the first rival seated after `start`, looking from `offset` seats on
/// around the table (offsets below the table size only).
pub open spec fn next_chips_from(s: Seq<Player>, start: int, self_id: PlayerId, offset: int) -> Option<u8>
    decreases s.len() - offset,
{
    if offset >= s.len() {
        None
    } else {
        let p = s[(start + offset) % (s.len() as int)];
        if rival(p, self_id) {
            Some(p.chips)
        } else {
            next_chips_from(s, start, self_id, offset + 1)
        }
    }
}

/// The seat of `self_id` (the first seat when it is not seated).
pub open spec fn seat_of(s: Seq<Player>, self_id: PlayerId) -> int {
    if player_index(s, self_id) >= 0 {
        player_index(s, self_id)
    } else {
        0
    }
}

/// Get the chip count of the next non-eliminated player after the current one.
pub fn next_player_chips(state: &GameState, self_id: PlayerId) -> (r: Option<u8>)
    ensures
        r == next_chips_from(state.players@, seat_of(state.players@, self_id), self_id, 1),
{
    let players = &state.players;
    let num = players.len();
    proof {
        lemma_player_index(players@, self_id);
    }
    let self_idx = match find_player_index(players, self_id) {
        Some(i) => i,
        None => 0,
    };
    let mut offset: usize = 1;
    while offset < num
        invariant
            players@ == state.players@,
            num == players@.len(),
            offset >= 1,
            self_idx == seat_of(players@, self_id),
            self_idx < num || num == 0,
            next_chips_from(players@, self_idx as int, self_id, offset as int) == next_chips_from(
                players@,
                self_idx as int,
                self_id,
                1,
            ),
        decreases num - offset,
    {
        let idx = if offset < num - self_idx {
            self_idx + offset
        } else {
            offset - (num - self_idx)
        };
        proof {
            let t = self_idx + offset;
            if offset < num - self_idx {
                vstd::arithmetic::div_mod::lemma_small_mod(t as nat, num as nat);
            } else {
                vstd::arithmetic::div_mod::lemma_mod_sub_multiples_vanish(t as int, num as int);
                vstd::arithmetic::div_mod::lemma_small_mod((t - num) as nat, num as nat);
            }
            assert(idx == (self_idx + offset) % (num as int));
        }
        let p = &players[idx];
        proof {
            assert(players@[(self_idx as int + offset as int) % (players@.len() as int)] == players@[idx as int]);
        }
        if !p.is_eliminated && p.id != self_id {
            assert(next_chips_from(players@, self_idx as int, self_id, offset as int) == Some(p.chips));
            return Some(p.chips);
        }
        offset = offset + 1;
    }
    None
}

/// A basic bot that makes weighted random decisions.
///
/// - Prefers to draw when hand difference is high
/// - Prefers to stand when hand is already good
/// - For impostors, picks the die value closest to the other card
#[derive(Debug, Clone, Copy)]
pub struct BasicBot;

/// An expert bot that uses EV-optimised, deterministic strategy.
///
/// - Threshold-based draw/stand decisions depending on turn, chips, and hand difference
/// - Smart draw source: checks visible discards for guaranteed or likely improvements
/// - Deterministic token triggers (no random gate)
#[derive(Debug, Clone, Copy)]
pub struct ExpertBot;

// ── The basic bot ──────────────────────────────────────────────────

/// The chance, in percent, that the basic bot draws: 10% on a matched hand, rising by
/// 16 per point of distance between the two cards (50% without a hand).
pub open spec fn basic_draw_threshold(p: Player) -> u32 {
    match p.hand {
        Some(h) => (10 + abs_diff(numeric_value(h.sand.value), numeric_value(h.blood.value)) * 16) as u32,
        None => 50,
    }
}

/// The pile the basic bot draws from, given its roll of 0-3 and a coin: a deck, or a
/// discard pile when it shows a card (falling back to a deck picked by the coin).
pub open spec fn basic_source(state: GameState, source_roll: i32, coin: bool) -> DrawSource {
    if source_roll == 0 {
        DrawSource::SandDeck
    } else if source_roll == 1 {
        DrawSource::BloodDeck
    } else if source_roll == 2 && state.sand_deck.discard_pile@.len() > 0 {
        DrawSource::SandDiscard
    } else if source_roll == 3 && state.blood_deck.discard_pile@.len() > 0 {
        DrawSource::BloodDiscard
    } else if coin {
        DrawSource::SandDeck
    } else {
        DrawSource::BloodDeck
    }
}

/// The basic bot's turn action for the rolls it makes: it stands when it cannot pay
/// (and has no FreeDraw) or when its percent roll reaches the draw threshold; otherwise
/// it draws from the pile its source roll names.
pub open spec fn basic_action(state: GameState, draw_roll: u32, source_roll: i32, coin: bool) -> Action {
    let p = state.players@[state.current_player_idx as int];
    if !state.turn_state.free_draw_active && (p.chips == 0 || draw_roll >= basic_draw_threshold(p)) {
        stand(p.id)
    } else {
        draw(p.id, basic_source(state, source_roll, coin))
    }
}

fn basic_choose_source(state: &GameState, rng: &mut SmallRng) -> (source: DrawSource)
    ensures
        exists|r: i32, c: bool| 0 <= r < 4 && source == basic_source(*state, r, c),
{
    let roll = gen_i32_below(rng, 4);
    if roll == 0 {
        assert(DrawSource::SandDeck == basic_source(*state, roll, true));
        DrawSource::SandDeck
    } else if roll == 1 {
        assert(DrawSource::BloodDeck == basic_source(*state, roll, true));
        DrawSource::BloodDeck
    } else if roll == 2 && state.sand_deck.peek_discard().is_some() {
        assert(DrawSource::SandDiscard == basic_source(*state, roll, true));
        DrawSource::SandDiscard
    } else if roll == 3 && state.blood_deck.peek_discard().is_some() {
        assert(DrawSource::BloodDiscard == basic_source(*state, roll, true));
        DrawSource::BloodDiscard
    } else if gen_ratio(rng, 1, 2) {
        assert(DrawSource::SandDeck == basic_source(*state, roll, true));
        DrawSource::SandDeck
    } else {
        assert(DrawSource::BloodDeck == basic_source(*state, roll, false));
        DrawSource::BloodDeck
    }
}

/// The card the basic bot keeps after a draw: the one closer to the other card of its
/// hand, the coin deciding a tie; without a hand it discards the drawn card.
pub open spec fn basic_discard_choice(state: GameState, coin: bool) -> DiscardChoice {
    match state.phase {
        GamePhase::ChoosingDiscard { player_id, drawn_card } => {
            let k = player_index(state.players@, player_id);
            if k >= 0 && state.players@[k].hand is Some {
                let h = state.players@[k].hand->0;
                let drawn_val = numeric_value(drawn_card.value);
                let current_val = match drawn_card.family {
                    Family::Sand => numeric_value(h.sand.value),
                    Family::Blood => numeric_value(h.blood.value),
                };
                let other_val = match drawn_card.family {
                    Family::Sand => numeric_value(h.blood.value),
                    Family::Blood => numeric_value(h.sand.value),
                };
                let with_drawn = abs_diff(drawn_val, other_val);
                let with_current = abs_diff(current_val, other_val);
                if with_drawn < with_current {
                    DiscardChoice::KeepDrawn
                } else if with_drawn > with_current {
                    DiscardChoice::DiscardDrawn
                } else if coin {
                    DiscardChoice::KeepDrawn
                } else {
                    DiscardChoice::DiscardDrawn
                }
            } else {
                DiscardChoice::DiscardDrawn
            }
        },
        _ => DiscardChoice::DiscardDrawn,
    }
}

/// The discard action of the player who drew.
pub open spec fn basic_discard(state: GameState, coin: bool) -> Action {
    Action::ChooseDiscard { player_id: state.phase->ChoosingDiscard_player_id, choice: basic_discard_choice(state, coin) }
}

fn basic_choose_discard(state: &GameState, rng: &mut SmallRng) -> (a: Action)
    requires
        state.phase is ChoosingDiscard,
    ensures
        exists|c: bool| a == basic_discard(*state, c),
{
    let (player_id, drawn_card) = match &state.phase {
        GamePhase::ChoosingDiscard { player_id, drawn_card } => (*player_id, *drawn_card),
        _ => (0, crate::card::Card::sylop(Family::Sand)),
    };
    let ghost mut coin = true;
    let choice = match find_player_index(&state.players, player_id) {
        Some(k) => match &state.players[k].hand {
            Some(hand) => {
                let drawn_val = card_numeric_value(&drawn_card.value);
                let current_val = match drawn_card.family {
                    Family::Sand => card_numeric_value(&hand.sand.value),
                    Family::Blood => card_numeric_value(&hand.blood.value),
                };
                let other_val = match drawn_card.family {
                    Family::Sand => card_numeric_value(&hand.blood.value),
                    Family::Blood => card_numeric_value(&hand.sand.value),
                };
                let with_drawn = diff_of(drawn_val, other_val);
                let with_current = diff_of(current_val, other_val);
                if with_drawn < with_current {
                    assert(DiscardChoice::KeepDrawn == basic_discard_choice(*state, true));
                    DiscardChoice::KeepDrawn
                } else if with_drawn > with_current {
                    assert(DiscardChoice::DiscardDrawn == basic_discard_choice(*state, true));
                    DiscardChoice::DiscardDrawn
                } else if gen_ratio(rng, 1, 2) {
                    assert(DiscardChoice::KeepDrawn == basic_discard_choice(*state, true));
                    DiscardChoice::KeepDrawn
                } else {
                    proof {
                        coin = false;
                    }
                    assert(DiscardChoice::DiscardDrawn == basic_discard_choice(*state, false));
                    DiscardChoice::DiscardDrawn
                }
            },
            None => {
                assert(DiscardChoice::DiscardDrawn == basic_discard_choice(*state, true));
                DiscardChoice::DiscardDrawn
            },
        },
        None => {
            assert(DiscardChoice::DiscardDrawn == basic_discard_choice(*state, true));
            DiscardChoice::DiscardDrawn
        },
    };
    let a = Action::ChooseDiscard { player_id, choice };
    assert(a == basic_discard(*state, coin));
    a
}

/// The token the basic bot would play, looking at one token it holds.
pub open spec fn basic_wish(state: GameState, token: ShiftToken) -> Option<ShiftToken> {
    let p = state.players@[state.current_player_idx as int];
    let gap = hand_gap(p);
    let turn = state.turn;
    let threat = threat_id(state.players@, p.id);
    match token {
        ShiftToken::Immunity => if gap <= 1 { Some(ShiftToken::Immunity) } else { None },
        ShiftToken::FreeDraw => if gap >= 3 { Some(ShiftToken::FreeDraw) } else { None },
        ShiftToken::GeneralTariff => if turn == 3 { Some(ShiftToken::GeneralTariff) } else { None },
        ShiftToken::TargetTariff(_) => if turn >= 2 {
            match threat {
                Some(t) => Some(ShiftToken::TargetTariff(t)),
                None => None,
            }
        } else {
            None
        },
        ShiftToken::Refund => if p.pot >= 2 { Some(ShiftToken::Refund) } else { None },
        ShiftToken::ExtraRefund => if p.pot >= 2 { Some(ShiftToken::ExtraRefund) } else { None },
        ShiftToken::Embezzlement => if rivals_alive(state.players@, p.id) >= 2 {
            Some(ShiftToken::Embezzlement)
        } else {
            None
        },
        ShiftToken::CookTheBooks => if turn >= 2 && gap == 0 && p.hand is Some && numeric_value(
            p.hand->0.sand.value,
        ) >= 4 {
            Some(ShiftToken::CookTheBooks)
        } else {
            None
        },
        ShiftToken::Markdown => if turn >= 2 { Some(ShiftToken::Markdown) } else { None },
        ShiftToken::MajorFraud => if turn >= 2 { Some(ShiftToken::MajorFraud) } else { None },
        ShiftToken::Embargo => if turn >= 2 { Some(ShiftToken::Embargo) } else { None },
        ShiftToken::Exhaustion(_) => if turn >= 2 {
            match threat {
                Some(t) => Some(ShiftToken::Exhaustion(t)),
                None => None,
            }
        } else {
            None
        },
        ShiftToken::DirectTransaction(_) => if gap >= 4 {
            match threat {
                Some(t) => Some(ShiftToken::DirectTransaction(t)),
                None => None,
            }
        } else {
            None
        },
        ShiftToken::GeneralAudit => if turn == 3 { Some(ShiftToken::GeneralAudit) } else { None },
        ShiftToken::TargetAudit(_) => if turn >= 2 {
            match threat {
                Some(t) => Some(ShiftToken::TargetAudit(t)),
                None => None,
            }
        } else {
            None
        },
        ShiftToken::PrimeSabacc => if turn == 3 && gap >= 2 { Some(ShiftToken::PrimeSabacc) } else { None },
    }
}

/// The first token of `tokens` that the basic bot wishes to play.
pub open spec fn basic_pick(state: GameState, tokens: Seq<ShiftToken>) -> Option<ShiftToken>
    decreases tokens.len(),
{
    if tokens.len() == 0 {
        None
    } else {
        match basic_pick(state, tokens.drop_last()) {
            Some(t) => Some(t),
            None => basic_wish(state, tokens.last()),
        }
    }
}

/// The basic bot's token play for its percent roll: none without tokens or on a roll of
/// 30 or more; otherwise the first token it wishes to play, if any.
pub open spec fn basic_token(state: GameState, roll: i32) -> Option<Action> {
    let p = state.players@[state.current_player_idx as int];
    if p.shift_tokens@.len() == 0 || roll >= 30 {
        None
    } else {
        match basic_pick(state, p.shift_tokens@) {
            Some(t) => Some(Action::PlayShiftToken { player_id: p.id, token: t }),
            None => None,
        }
    }
}

fn basic_wish_exec(state: &GameState, token: &ShiftToken, gap: u8, threat: Option<PlayerId>, rivals: usize) -> (w: Option<ShiftToken>)
    requires
        state.current_player_idx < state.players@.len(),
        gap == hand_gap(state.players@[state.current_player_idx as int]),
        threat == threat_id(state.players@, state.players@[state.current_player_idx as int].id),
        rivals == rivals_alive(state.players@, state.players@[state.current_player_idx as int].id),
    ensures
        w == basic_wish(*state, *token),
{
    let player = &state.players[state.current_player_idx];
    let turn = state.turn;
    match token {
        ShiftToken::Immunity => if gap <= 1 { Some(ShiftToken::Immunity) } else { None },
        ShiftToken::FreeDraw => if gap >= 3 { Some(ShiftToken::FreeDraw) } else { None },
        ShiftToken::GeneralTariff => if turn == 3 { Some(ShiftToken::GeneralTariff) } else { None },
        ShiftToken::TargetTariff(_) => if turn >= 2 {
            match threat {
                Some(t) => Some(ShiftToken::TargetTariff(t)),
                None => None,
            }
        } else {
            None
        },
        ShiftToken::Refund => if player.pot >= 2 { Some(ShiftToken::Refund) } else { None },
        ShiftToken::ExtraRefund => if player.pot >= 2 { Some(ShiftToken::ExtraRefund) } else { None },
        ShiftToken::Embezzlement => if rivals >= 2 { Some(ShiftToken::Embezzlement) } else { None },
        ShiftToken::CookTheBooks => {
            if turn >= 2 && gap == 0 {
                match &player.hand {
                    Some(hand) => if card_numeric_value(&hand.sand.value) >= 4 {
                        Some(ShiftToken::CookTheBooks)
                    } else {
                        None
                    },
                    None => None,
                }
            } else {
                None
            }
        },
        ShiftToken::Markdown => if turn >= 2 { Some(ShiftToken::Markdown) } else { None },
        ShiftToken::MajorFraud => if turn >= 2 { Some(ShiftToken::MajorFraud) } else { None },
        ShiftToken::Embargo => if turn >= 2 { Some(ShiftToken::Embargo) } else { None },
        ShiftToken::Exhaustion(_) => if turn >= 2 {
            match threat {
                Some(t) => Some(ShiftToken::Exhaustion(t)),
                None => None,
            }
        } else {
            None
        },
        ShiftToken::DirectTransaction(_) => if gap >= 4 {
            match threat {
                Some(t) => Some(ShiftToken::DirectTransaction(t)),
                None => None,
            }
        } else {
            None
        },
        ShiftToken::GeneralAudit => if turn == 3 { Some(ShiftToken::GeneralAudit) } else { None },
        ShiftToken::TargetAudit(_) => if turn >= 2 {
            match threat {
                Some(t) => Some(ShiftToken::TargetAudit(t)),
                None => None,
            }
        } else {
            None
        },
        ShiftToken::PrimeSabacc => if turn == 3 && gap >= 2 { Some(ShiftToken::PrimeSabacc) } else { None },
    }
}

fn basic_choose_token(state: &GameState, rng: &mut SmallRng) -> (a: Option<Action>)
    requires
        state.current_player_idx < state.players@.len(),
    ensures
        exists|r: i32| 0 <= r < 100 && a == basic_token(*state, r),
{
    let player = &state.players[state.current_player_idx];
    let pid = player.id;
    if player.shift_tokens.len() == 0 {
        assert(basic_token(*state, 0) is None);
        return None;
    }
    let roll = gen_i32_below(rng, 100);
    if roll >= 30 {
        assert(basic_token(*state, roll) is None);
        return None;
    }
    let gap = hand_gap_of(player);
    let threat = most_threatening(state, pid);
    let rivals = count_rivals(&state.players, pid);
    let mut i: usize = 0;
    while i < player.shift_tokens.len()
        invariant
            state.current_player_idx < state.players@.len(),
            player == state.players@[state.current_player_idx as int],
            pid == player.id,
            gap == hand_gap(*player),
            threat == threat_id(state.players@, pid),
            rivals == rivals_alive(state.players@, pid),
            i <= player.shift_tokens@.len(),
            player.shift_tokens@.len() > 0,
            0 <= roll < 30,
            basic_pick(*state, player.shift_tokens@.take(i as int)) is None,
        decreases player.shift_tokens@.len() - i,
    {
        let ghost pre = player.shift_tokens@.take(i as int);
        assert(player.shift_tokens@.take(i + 1).drop_last() =~= pre);
        let w = basic_wish_exec(state, &player.shift_tokens[i], gap, threat, rivals);
        if let Some(chosen) = w {
            assert(basic_pick(*state, player.shift_tokens@.take(i + 1)) == Some(chosen));
            proof {
                lemma_pick_extends(*state, player.shift_tokens@, i as int + 1);
            }
            assert(basic_token(*state, roll) == Some(Action::PlayShiftToken { player_id: pid, token: chosen }));
            return Some(Action::PlayShiftToken { player_id: pid, token: chosen });
        }
        i = i + 1;
    }
    assert(player.shift_tokens@.take(player.shift_tokens@.len() as int) =~= player.shift_tokens@);
    None
}

/// Once a prefix yields a pick, the whole sequence yields the same pick.
proof fn lemma_pick_extends(state: GameState, tokens: Seq<ShiftToken>, n: int)
    requires
        0 <= n <= tokens.len(),
        basic_pick(state, tokens.take(n)) is Some,
    ensures
        basic_pick(state, tokens) == basic_pick(state, tokens.take(n)),
    decreases tokens.len() - n,
{
    if n < tokens.len() {
        assert(tokens.take(n + 1).drop_last() =~= tokens.take(n));
        lemma_pick_extends(state, tokens, n + 1);
    } else {
        assert(tokens.take(n) =~= tokens);
    }
}

fn basic_choose_action(state: &GameState, rng: &mut SmallRng) -> (a: Action)
    requires
        state.current_player_idx < state.players@.len(),
    ensures
        exists|r: u32, s: i32, c: bool| r < 100 && 0 <= s < 4 && a == basic_action(*state, r, s, c),
{
    let player = &state.players[state.current_player_idx];
    let pid = player.id;
    let draw_threshold: u32 = match &player.hand {
        Some(hand) => {
            let diff = diff_of(card_numeric_value(&hand.sand.value), card_numeric_value(&hand.blood.value));
            10 + diff as u32 * 16
        },
        None => 50,
    };
    assert(draw_threshold == basic_draw_threshold(*player));
    let can_draw_free = state.turn_state.free_draw_active;
    if !can_draw_free && player.chips == 0 {
        assert(basic_action(*state, 0, 0, true) == stand(pid));
        return stand_action(pid);
    }
    let roll: u32 = if can_draw_free { 0 } else { gen_u32_below(rng, 100) };
    if !can_draw_free && roll >= draw_threshold {
        assert(basic_action(*state, roll, 0, true) == stand(pid));
        return stand_action(pid);
    }
    let source = basic_choose_source(state, rng);
    let ghost sr = choose|r: i32, c: bool| 0 <= r < 4 && source == basic_source(*state, r, c);
    assert(basic_action(*state, roll, sr.0, sr.1) == draw(pid, source));
    Action::PlayerAction { player_id: pid, action: TurnAction::Draw(source) }
}

// ── The expert bot ─────────────────────────────────────────────────

/// The discard piles' offers: the distance the hand would have after taking the top of
/// the Sand discard (replacing the Sand card) or of the Blood discard, whichever is
/// smaller (Sand on a tie), with the pile to take it from.
pub open spec fn best_discard(state: GameState, sand_val: u8, blood_val: u8) -> Option<(u8, DrawSource)> {
    let sand_offer = if state.sand_deck.discard_pile@.len() > 0 {
        Some(abs_diff(numeric_value(state.sand_deck.discard_pile@.last().value), blood_val))
    } else {
        None
    };
    let blood_offer = if state.blood_deck.discard_pile@.len() > 0 {
        Some(abs_diff(sand_val, numeric_value(state.blood_deck.discard_pile@.last().value)))
    } else {
        None
    };
    match (sand_offer, blood_offer) {
        (Some(a), Some(b)) => if b < a {
            Some((b, DrawSource::BloodDiscard))
        } else {
            Some((a, DrawSource::SandDiscard))
        },
        (Some(a), None) => Some((a, DrawSource::SandDiscard)),
        (None, Some(b)) => Some((b, DrawSource::BloodDiscard)),
        (None, None) => None,
    }
}

/// The expert's draw: a discard that gives Sabacc, or one that beats the current
/// distance by more than one; otherwise a blind draw from the family of the higher card.
pub open spec fn smart_source(state: GameState, sand_val: u8, blood_val: u8) -> DrawSource {
    let diff = abs_diff(sand_val, blood_val);
    let blind = if sand_val >= blood_val { DrawSource::SandDeck } else { DrawSource::BloodDeck };
    match best_discard(state, sand_val, blood_val) {
        Some((new_diff, source)) => if new_diff == 0 || (new_diff as int) < (if diff >= 1 { diff - 1 } else { 0 }) {
            source
        } else {
            blind
        },
        None => blind,
    }
}

impl ExpertBot {
    /// Choose an intelligent draw source, checking visible discards first.
    fn smart_draw(&self, state: &GameState, pid: PlayerId, sand_val: u8, blood_val: u8) -> (a: Action)
        ensures
            a == draw(pid, smart_source(*state, sand_val, blood_val)),
    {
        let diff = diff_of(sand_val, blood_val);
        let sand_offer: Option<u8> = match state.sand_deck.peek_discard() {
            Some(c) => Some(diff_of(card_numeric_value(&c.value), blood_val)),
            None => None,
        };
        let blood_offer: Option<u8> = match state.blood_deck.peek_discard() {
            Some(c) => Some(diff_of(sand_val, card_numeric_value(&c.value))),
            None => None,
        };
        let best: Option<(u8, DrawSource)> = match (sand_offer, blood_offer) {
            (Some(a), Some(b)) => if b < a {
                Some((b, DrawSource::BloodDiscard))
            } else {
                Some((a, DrawSource::SandDiscard))
            },
            (Some(a), None) => Some((a, DrawSource::SandDiscard)),
            (None, Some(b)) => Some((b, DrawSource::BloodDiscard)),
            (None, None) => None,
        };
        assert(best == best_discard(*state, sand_val, blood_val));
        let blind = if sand_val >= blood_val {
            DrawSource::SandDeck
        } else {
            DrawSource::BloodDeck
        };
        let source = match best {
            Some((new_diff, source)) => if new_diff == 0 || new_diff < diff.saturating_sub(1) {
                source
            } else {
                blind
            },
            None => blind,
        };
        Action::PlayerAction { player_id: pid, action: TurnAction::Draw(source) }
    }
}

/// Whether the expert draws, by its chips, the turn and the distance in its hand:
/// with 0-2 chips only on a distance of 5 or more in turns 1-2; with 3-5 chips on a
/// distance of 3 or more (in turn 3 only with at least 4 chips); with 6 or more chips on
/// a distance of 2 or more in turns 1-2 and 3 or more after.
pub open spec fn expert_should_draw(chips: u8, turn: u8, diff: u8) -> bool {
    if chips <= 2 {
        (turn == 1 || turn == 2) && diff >= 5
    } else if chips <= 5 {
        if turn <= 2 {
            diff >= 3
        } else {
            diff >= 3 && chips >= 4
        }
    } else {
        if turn <= 2 {
            diff >= 2
        } else {
            diff >= 3
        }
    }
}

/// The expert's turn action: stand without a hand; on Sabacc stand, except for a high
/// pair on turn 1 with 6 or more chips, which it tries to lower; stand when it cannot pay;
/// otherwise draw (with the smart source) exactly when its threshold says so.
pub open spec fn expert_action(state: GameState) -> Action {
    let p = state.players@[state.current_player_idx as int];
    let pid = p.id;
    match p.hand {
        None => stand(pid),
        Some(h) => {
            let sv = numeric_value(h.sand.value);
            let bv = numeric_value(h.blood.value);
            let diff = abs_diff(sv, bv);
            if diff == 0 {
                if state.turn == 1 && p.chips >= 6 && sv >= 5 {
                    draw(pid, smart_source(state, sv, bv))
                } else {
                    stand(pid)
                }
            } else if p.chips == 0 && !state.turn_state.free_draw_active {
                stand(pid)
            } else if expert_should_draw(p.chips, state.turn, diff) {
                draw(pid, smart_source(state, sv, bv))
            } else {
                stand(pid)
            }
        },
    }
}

fn expert_choose_action(state: &GameState) -> (a: Action)
    requires
        state.current_player_idx < state.players@.len(),
    ensures
        a == expert_action(*state),
{
    let player = &state.players[state.current_player_idx];
    let pid = player.id;
    let chips = player.chips;
    let turn = state.turn;
    let (sand_val, blood_val) = match &player.hand {
        Some(hand) => (card_numeric_value(&hand.sand.value), card_numeric_value(&hand.blood.value)),
        None => {
            return stand_action(pid);
        },
    };
    let diff = diff_of(sand_val, blood_val);
    if diff == 0 {
        if turn == 1 && chips >= 6 && sand_val >= 5 {
            return ExpertBot.smart_draw(state, pid, sand_val, blood_val);
        }
        return stand_action(pid);
    }
    if chips == 0 && !state.turn_state.free_draw_active {
        return stand_action(pid);
    }
    let should_draw = if chips <= 2 {
        (turn == 1 || turn == 2) && diff >= 5
    } else if chips <= 5 {
        if turn <= 2 {
            diff >= 3
        } else {
            diff >= 3 && chips >= 4
        }
    } else {
        if turn <= 2 {
            diff >= 2
        } else {
            diff >= 3
        }
    };
    if should_draw {
        ExpertBot.smart_draw(state, pid, sand_val, blood_val)
    } else {
        stand_action(pid)
    }
}

/// Whether the player holds an Impostor.
pub open spec fn holds_impostor_card(p: Player) -> bool {
    p.hand matches Some(h) && (h.sand.value == CardValue::Impostor || h.blood.value == CardValue::Impostor)
}

/// The token the expert would play, looking at one token it holds (in its order of
/// priority, each with its own trigger).
pub open spec fn expert_wish(state: GameState, token: ShiftToken) -> Option<ShiftToken> {
    let p = state.players@[state.current_player_idx as int];
    let gap = hand_gap(p);
    let turn = state.turn;
    let threat = threat_id(state.players@, p.id);
    match token {
        ShiftToken::FreeDraw => if turn == 1 && gap >= 3 { Some(ShiftToken::FreeDraw) } else { None },
        ShiftToken::Immunity => if turn == 1 { Some(ShiftToken::Immunity) } else { None },
        ShiftToken::Embargo => if turn >= 2 && (next_chips_from(state.players@, seat_of(state.players@, p.id), p.id, 1) matches Some(c) && c >= p.chips) {
            Some(ShiftToken::Embargo)
        } else {
            None
        },
        ShiftToken::Refund => if p.pot >= 2 && p.chips <= 3 { Some(ShiftToken::Refund) } else { None },
        ShiftToken::ExtraRefund => if p.pot >= 3 && p.chips <= 3 { Some(ShiftToken::ExtraRefund) } else { None },
        ShiftToken::GeneralTariff => if turn >= 2 { Some(ShiftToken::GeneralTariff) } else { None },
        ShiftToken::TargetTariff(_) => if turn >= 2 {
            match threat {
                Some(t) => Some(ShiftToken::TargetTariff(t)),
                None => None,
            }
        } else {
            None
        },
        ShiftToken::GeneralAudit => if turn == 3 { Some(ShiftToken::GeneralAudit) } else { None },
        ShiftToken::TargetAudit(_) => if turn == 3 {
            match threat {
                Some(t) => Some(ShiftToken::TargetAudit(t)),
                None => None,
            }
        } else {
            None
        },
        ShiftToken::Exhaustion(_) => if turn == 3 {
            match threat {
                Some(t) => Some(ShiftToken::Exhaustion(t)),
                None => None,
            }
        } else {
            None
        },
        ShiftToken::DirectTransaction(_) => if gap >= 5 {
            match threat {
                Some(t) => Some(ShiftToken::DirectTransaction(t)),
                None => None,
            }
        } else {
            None
        },
        ShiftToken::CookTheBooks => if turn == 3 && gap == 0 && p.hand is Some && numeric_value(
            p.hand->0.sand.value,
        ) >= 4 {
            Some(ShiftToken::CookTheBooks)
        } else {
            None
        },
        ShiftToken::MajorFraud => if turn >= 2 && holds_impostor_card(p) { Some(ShiftToken::MajorFraud) } else { None },
        ShiftToken::Markdown => if turn >= 2 { Some(ShiftToken::Markdown) } else { None },
        ShiftToken::Embezzlement => if turn >= 2 && rivals_alive(state.players@, p.id) >= 3 {
            Some(ShiftToken::Embezzlement)
        } else {
            None
        },
        ShiftToken::PrimeSabacc => if turn == 3 && gap >= 3 { Some(ShiftToken::PrimeSabacc) } else { None },
    }
}

/// The first token of `tokens` that the expert wishes to play.
pub open spec fn expert_pick(state: GameState, tokens: Seq<ShiftToken>) -> Option<ShiftToken>
    decreases tokens.len(),
{
    if tokens.len() == 0 {
        None
    } else {
        match expert_pick(state, tokens.drop_last()) {
            Some(t) => Some(t),
            None => expert_wish(state, tokens.last()),
        }
    }
}

/// The expert's token play: the first token it wishes to play, if any.
pub open spec fn expert_token(state: GameState) -> Option<Action> {
    let p = state.players@[state.current_player_idx as int];
    match expert_pick(state, p.shift_tokens@) {
        Some(t) => Some(Action::PlayShiftToken { player_id: p.id, token: t }),
        None => None,
    }
}

proof fn lemma_expert_pick_extends(state: GameState, tokens: Seq<ShiftToken>, n: int)
    requires
        0 <= n <= tokens.len(),
        expert_pick(state, tokens.take(n)) is Some,
    ensures
        expert_pick(state, tokens) == expert_pick(state, tokens.take(n)),
    decreases tokens.len() - n,
{
    if n < tokens.len() {
        assert(tokens.take(n + 1).drop_last() =~= tokens.take(n));
        lemma_expert_pick_extends(state, tokens, n + 1);
    } else {
        assert(tokens.take(n) =~= tokens);
    }
}

fn expert_wish_exec(
    state: &GameState,
    token: &ShiftToken,
    gap: u8,
    threat: Option<PlayerId>,
    rivals: usize,
    next_chips: Option<u8>,
    has_impostor: bool,
) -> (w: Option<ShiftToken>)
    requires
        state.current_player_idx < state.players@.len(),
        gap == hand_gap(state.players@[state.current_player_idx as int]),
        threat == threat_id(state.players@, state.players@[state.current_player_idx as int].id),
        rivals == rivals_alive(state.players@, state.players@[state.current_player_idx as int].id),
        next_chips == next_chips_from(
            state.players@,
            seat_of(state.players@, state.players@[state.current_player_idx as int].id),
            state.players@[state.current_player_idx as int].id,
            1,
        ),
        has_impostor == holds_impostor_card(state.players@[state.current_player_idx as int]),
    ensures
        w == expert_wish(*state, *token),
{
    let player = &state.players[state.current_player_idx];
    let turn = state.turn;
    let chips = player.chips;
    let pot = player.pot;
    match token {
        ShiftToken::FreeDraw => if turn == 1 && gap >= 3 { Some(ShiftToken::FreeDraw) } else { None },
        ShiftToken::Immunity => if turn == 1 { Some(ShiftToken::Immunity) } else { None },
        ShiftToken::Embargo => {
            if turn >= 2 {
                match next_chips {
                    Some(c) => if c >= chips { Some(ShiftToken::Embargo) } else { None },
                    None => None,
                }
            } else {
                None
            }
        },
        ShiftToken::Refund => if pot >= 2 && chips <= 3 { Some(ShiftToken::Refund) } else { None },
        ShiftToken::ExtraRefund => if pot >= 3 && chips <= 3 { Some(ShiftToken::ExtraRefund) } else { None },
        ShiftToken::GeneralTariff => if turn >= 2 { Some(ShiftToken::GeneralTariff) } else { None },
        ShiftToken::TargetTariff(_) => if turn >= 2 {
            match threat {
                Some(t) => Some(ShiftToken::TargetTariff(t)),
                None => None,
            }
        } else {
            None
        },
        ShiftToken::GeneralAudit => if turn == 3 { Some(ShiftToken::GeneralAudit) } else { None },
        ShiftToken::TargetAudit(_) => if turn == 3 {
            match threat {
                Some(t) => Some(ShiftToken::TargetAudit(t)),
                None => None,
            }
        } else {
            None
        },
        ShiftToken::Exhaustion(_) => if turn == 3 {
            match threat {
                Some(t) => Some(ShiftToken::Exhaustion(t)),
                None => None,
            }
        } else {
            None
        },
        ShiftToken::DirectTransaction(_) => if gap >= 5 {
            match threat {
                Some(t) => Some(ShiftToken::DirectTransaction(t)),
                None => None,
            }
        } else {
            None
        },
        ShiftToken::CookTheBooks => {
            if turn == 3 && gap == 0 {
                match &player.hand {
                    Some(hand) => if card_numeric_value(&hand.sand.value) >= 4 {
                        Some(ShiftToken::CookTheBooks)
                    } else {
                        None
                    },
                    None => None,
                }
            } else {
                None
            }
        },
        ShiftToken::MajorFraud => if turn >= 2 && has_impostor { Some(ShiftToken::MajorFraud) } else { None },
        ShiftToken::Markdown => if turn >= 2 { Some(ShiftToken::Markdown) } else { None },
        ShiftToken::Embezzlement => if turn >= 2 && rivals >= 3 { Some(ShiftToken::Embezzlement) } else { None },
        ShiftToken::PrimeSabacc => if turn == 3 && gap >= 3 { Some(ShiftToken::PrimeSabacc) } else { None },
    }
}

fn expert_choose_token(state: &GameState) -> (a: Option<Action>)
    requires
        state.current_player_idx < state.players@.len(),
    ensures
        a == expert_token(*state),
{
    let player = &state.players[state.current_player_idx];
    let pid = player.id;
    if player.shift_tokens.len() == 0 {
        return None;
    }
    let gap = hand_gap_of(player);
    let threat = most_threatening(state, pid);
    let rivals = count_rivals(&state.players, pid);
    let next_chips = next_player_chips(state, pid);
    let has_impostor = match &player.hand {
        Some(h) => match (h.sand.value, h.blood.value) {
            (CardValue::Impostor, _) => true,
            (_, CardValue::Impostor) => true,
            _ => false,
        },
        None => false,
    };
    let mut i: usize = 0;
    while i < player.shift_tokens.len()
        invariant
            state.current_player_idx < state.players@.len(),
            player == state.players@[state.current_player_idx as int],
            pid == player.id,
            gap == hand_gap(*player),
            threat == threat_id(state.players@, pid),
            rivals == rivals_alive(state.players@, pid),
            next_chips == next_chips_from(state.players@, seat_of(state.players@, pid), pid, 1),
            has_impostor == holds_impostor_card(*player),
            i <= player.shift_tokens@.len(),
            expert_pick(*state, player.shift_tokens@.take(i as int)) is None,
        decreases player.shift_tokens@.len() - i,
    {
        assert(player.shift_tokens@.take(i + 1).drop_last() =~= player.shift_tokens@.take(i as int));
        let w = expert_wish_exec(state, &player.shift_tokens[i], gap, threat, rivals, next_chips, has_impostor);
        if let Some(chosen) = w {
            assert(expert_pick(*state, player.shift_tokens@.take(i + 1)) == Some(chosen));
            proof {
                lemma_expert_pick_extends(*state, player.shift_tokens@, i as int + 1);
            }
            return Some(Action::PlayShiftToken { player_id: pid, token: chosen });
        }
        i = i + 1;
    }
    assert(player.shift_tokens@.take(player.shift_tokens@.len() as int) =~= player.shift_tokens@);
    None
}

// ── Dice choices shared by both bots ─────────────────────────────────

/// The Impostor choice of the first pending player for the dice rolled: each Impostor
/// takes the die closest to the other card of the hand; a player without a hand (or not
/// seated) takes the first die for both.
pub open spec fn impostor_pick(state: GameState, die1: u8, die2: u8) -> Action {
    let pid = state.phase->ImpostorReveal_pending@[0];
    let k = player_index(state.players@, pid);
    let (sand_choice, blood_choice) = if k >= 0 && state.players@[k].hand is Some {
        let h = state.players@[k].hand->0;
        (
            if h.sand.value == CardValue::Impostor {
                Some(closest(die1, die2, numeric_value(h.blood.value)))
            } else {
                None
            },
            if h.blood.value == CardValue::Impostor {
                Some(closest(die1, die2, numeric_value(h.sand.value)))
            } else {
                None
            },
        )
    } else {
        (Some(die1), Some(die1))
    };
    Action::SubmitImpostorChoice(ImpostorChoice { player_id: pid, die1, die2, sand_choice, blood_choice })
}

/// Default impostor choice: pick die closest to the other card's value.
pub fn default_impostor_choice(state: &GameState, rng: &mut SmallRng) -> (a: Action)
    requires
        state.phase matches GamePhase::ImpostorReveal { pending, .. } && pending@.len() > 0,
    ensures
        exists|d1: u8, d2: u8| 1 <= d1 <= 6 && 1 <= d2 <= 6 && a == impostor_pick(*state, d1, d2),
        a matches Action::SubmitImpostorChoice(c) && c.player_id == state.phase->ImpostorReveal_pending@[0]
            && choice_in_scale(c),
{
    let pid = match &state.phase {
        GamePhase::ImpostorReveal { pending, .. } => pending[0],
        _ => 0,
    };
    let die1 = gen_u8_inclusive(rng, 1, 6);
    let die2 = gen_u8_inclusive(rng, 1, 6);
    let (sand_choice, blood_choice) = match find_player_index(&state.players, pid) {
        Some(k) => match &state.players[k].hand {
            Some(hand) => {
                let sc = match hand.sand.value {
                    CardValue::Impostor => Some(pick_closest(die1, die2, card_numeric_value(&hand.blood.value))),
                    _ => None,
                };
                let bc = match hand.blood.value {
                    CardValue::Impostor => Some(pick_closest(die1, die2, card_numeric_value(&hand.sand.value))),
                    _ => None,
                };
                (sc, bc)
            },
            None => (Some(die1), Some(die1)),
        },
        None => (Some(die1), Some(die1)),
    };
    let a = Action::SubmitImpostorChoice(ImpostorChoice { player_id: pid, die1, die2, sand_choice, blood_choice });
    assert(a == impostor_pick(*state, die1, die2));
    a
}

/// The PrimeSabacc value the player picks: the die closest to the lower card of the
/// hand, or the lower die without a hand.
pub open spec fn prime_pick(state: GameState) -> Action {
    match state.phase {
        GamePhase::PrimeSabaccChoice { player_id, die1, die2 } => {
            let k = player_index(state.players@, player_id);
            let low_die = if die1 <= die2 { die1 } else { die2 };
            let chosen = if k >= 0 && state.players@[k].hand is Some {
                let h = state.players@[k].hand->0;
                let sv = numeric_value(h.sand.value);
                let bv = numeric_value(h.blood.value);
                closest(die1, die2, if sv <= bv { sv } else { bv })
            } else {
                low_die
            };
            Action::SubmitPrimeSabaccChoice { player_id, chosen_value: chosen }
        },
        _ => Action::StartGame,
    }
}

/// Default PrimeSabacc choice: pick die closest to the minimum card value.
pub fn default_prime_sabacc_choice(state: &GameState) -> (a: Action)
    requires
        state.phase is PrimeSabaccChoice,
    ensures
        a == prime_pick(*state),
{
    let (player_id, die1, die2) = match &state.phase {
        GamePhase::PrimeSabaccChoice { player_id, die1, die2 } => (*player_id, *die1, *die2),
        _ => (0, 0, 0),
    };
    let low_die = if die1 <= die2 { die1 } else { die2 };
    let chosen = match find_player_index(&state.players, player_id) {
        Some(k) => match &state.players[k].hand {
            Some(hand) => {
                let sand_val = card_numeric_value(&hand.sand.value);
                let blood_val = card_numeric_value(&hand.blood.value);
                let target = if sand_val <= blood_val { sand_val } else { blood_val };
                pick_closest(die1, die2, target)
            },
            None => low_die,
        },
        None => low_die,
    };
    Action::SubmitPrimeSabaccChoice { player_id, chosen_value: chosen }
}

// ── The strategy interface ───────────────────────────────────────────

/// The player at the current seat.
pub open spec fn current(state: GameState) -> Player {
    state.players@[state.current_player_idx as int]
}

/// Trait for bot decision-making strategies.
///
/// Every strategy answers for the player whose decision is due, and never proposes a
/// die value outside the dice rolled.
pub trait BotStrategy {
    /// Choose a turn action (Draw or Stand) for the current bot player.
    fn choose_action(&self, state: &GameState, rng: &mut SmallRng) -> (a: Action)
        requires
            state.phase is TurnAction,
            state.current_player_idx < state.players@.len(),
        ensures
            a matches Action::PlayerAction { player_id, .. } && player_id == current(*state).id,
    ;

    /// Choose which card to discard after drawing.
    fn choose_discard(&self, state: &GameState, rng: &mut SmallRng) -> (a: Action)
        requires
            state.phase is ChoosingDiscard,
        ensures
            a matches Action::ChooseDiscard { player_id, .. } && player_id == state.phase->ChoosingDiscard_player_id,
    ;

    /// Choose impostor die values.
    fn choose_impostor(&self, state: &GameState, rng: &mut SmallRng) -> (a: Action)
        requires
            state.phase matches GamePhase::ImpostorReveal { pending, .. } && pending@.len() > 0,
        ensures
            a matches Action::SubmitImpostorChoice(c) && c.player_id == state.phase->ImpostorReveal_pending@[0]
                && choice_in_scale(c),
    ;

    /// Optionally choose a shift token to play before Draw/Stand.
    /// Returns None if the bot decides not to play a token.
    fn choose_token(&self, state: &GameState, rng: &mut SmallRng) -> (a: Option<Action>)
        requires
            state.phase is TurnAction,
            state.current_player_idx < state.players@.len(),
        ensures
            a matches Some(x) ==> x matches Action::PlayShiftToken { player_id, .. } && player_id == current(*state).id,
    ;

    /// Choose a PrimeSabacc dice value.
    fn choose_prime_sabacc(&self, state: &GameState, rng: &mut SmallRng) -> (a: Action)
        requires
            state.phase is PrimeSabaccChoice,
        ensures
            a matches Action::SubmitPrimeSabaccChoice { player_id, chosen_value } && player_id
                == state.phase->PrimeSabaccChoice_player_id && (chosen_value == state.phase->PrimeSabaccChoice_die1
                || chosen_value == state.phase->PrimeSabaccChoice_die2),
    ;
}

impl BotStrategy for BasicBot {
    fn choose_action(&self, state: &GameState, rng: &mut SmallRng) -> (a: Action)
        ensures
            exists|r: u32, s: i32, c: bool| r < 100 && 0 <= s < 4 && a == basic_action(*state, r, s, c),
    {
        basic_choose_action(state, rng)
    }

    fn choose_discard(&self, state: &GameState, rng: &mut SmallRng) -> (a: Action)
        ensures
            exists|c: bool| a == basic_discard(*state, c),
    {
        basic_choose_discard(state, rng)
    }

    fn choose_impostor(&self, state: &GameState, rng: &mut SmallRng) -> (a: Action)
        ensures
            exists|d1: u8, d2: u8| 1 <= d1 <= 6 && 1 <= d2 <= 6 && a == impostor_pick(*state, d1, d2),
    {
        default_impostor_choice(state, rng)
    }

    fn choose_token(&self, state: &GameState, rng: &mut SmallRng) -> (a: Option<Action>)
        ensures
            exists|r: i32| 0 <= r < 100 && a == basic_token(*state, r),
    {
        basic_choose_token(state, rng)
    }

    fn choose_prime_sabacc(&self, state: &GameState, rng: &mut SmallRng) -> (a: Action)
        ensures
            a == prime_pick(*state),
    {
        default_prime_sabacc_choice(state)
    }
}

impl BotStrategy for ExpertBot {
    fn choose_action(&self, state: &GameState, rng: &mut SmallRng) -> (a: Action)
        ensures
            a == expert_action(*state),
    {
        expert_choose_action(state)
    }

    fn choose_discard(&self, state: &GameState, rng: &mut SmallRng) -> (a: Action)
        ensures
            exists|c: bool| a == basic_discard(*state, c),
    {
        basic_choose_discard(state, rng)
    }

    fn choose_impostor(&self, state: &GameState, rng: &mut SmallRng) -> (a: Action)
        ensures
            exists|d1: u8, d2: u8| 1 <= d1 <= 6 && 1 <= d2 <= 6 && a == impostor_pick(*state, d1, d2),
    {
        default_impostor_choice(state, rng)
    }

    fn choose_token(&self, state: &GameState, rng: &mut SmallRng) -> (a: Option<Action>)
        ensures
            a == expert_token(*state),
    {
        expert_choose_token(state)
    }

    fn choose_prime_sabacc(&self, state: &GameState, rng: &mut SmallRng) -> (a: Action)
        ensures
            a == prime_pick(*state),
    {
        default_prime_sabacc_choice(state)
    }
}

impl BotStrategy for BotDifficulty {
    fn choose_action(&self, state: &GameState, rng: &mut SmallRng) -> (a: Action)
        ensures
            *self == BotDifficulty::Basic ==> exists|r: u32, s: i32, c: bool|
                r < 100 && 0 <= s < 4 && a == basic_action(*state, r, s, c),
            *self == BotDifficulty::Expert ==> a == expert_action(*state),
    {
        match self {
            BotDifficulty::Basic => BasicBot.choose_action(state, rng),
            BotDifficulty::Expert => ExpertBot.choose_action(state, rng),
        }
    }

    fn choose_discard(&self, state: &GameState, rng: &mut SmallRng) -> (a: Action)
        ensures
            exists|c: bool| a == basic_discard(*state, c),
    {
        match self {
            BotDifficulty::Basic => BasicBot.choose_discard(state, rng),
            BotDifficulty::Expert => ExpertBot.choose_discard(state, rng),
        }
    }

    fn choose_impostor(&self, state: &GameState, rng: &mut SmallRng) -> (a: Action)
        ensures
            exists|d1: u8, d2: u8| 1 <= d1 <= 6 && 1 <= d2 <= 6 && a == impostor_pick(*state, d1, d2),
    {
        match self {
            BotDifficulty::Basic => BasicBot.choose_impostor(state, rng),
            BotDifficulty::Expert => ExpertBot.choose_impostor(state, rng),
        }
    }

    fn choose_token(&self, state: &GameState, rng: &mut SmallRng) -> (a: Option<Action>)
        ensures
            *self == BotDifficulty::Basic ==> exists|r: i32| 0 <= r < 100 && a == basic_token(*state, r),
            *self == BotDifficulty::Expert ==> a == expert_token(*state),
    {
        match self {
            BotDifficulty::Basic => BasicBot.choose_token(state, rng),
            BotDifficulty::Expert => ExpertBot.choose_token(state, rng),
        }
    }

    fn choose_prime_sabacc(&self, state: &GameState, rng: &mut SmallRng) -> (a: Action)
        ensures
            a == prime_pick(*state),
    {
        match self {
            BotDifficulty::Basic => BasicBot.choose_prime_sabacc(state, rng),
            BotDifficulty::Expert => ExpertBot.choose_prime_sabacc(state, rng),
        }
    }
}

/// The Impostor choice a bot submits takes, for each Impostor, one of the two dice
/// rolled: the one nearer the value of the other card of the hand (the first die on a
/// tie). A Blood Impostor is matched to the Sand card and a Sand Impostor to the Blood
/// card, so no other die brings the hand closer to a Sabacc.
pub proof fn lemma_impostor_pick_nearest_other_card(state: GameState, die1: u8, die2: u8)
    requires
        state.phase matches GamePhase::ImpostorReveal { pending, .. } && pending@.len() > 0,
        player_index(state.players@, state.phase->ImpostorReveal_pending@[0]) >= 0,
        state.players@[player_index(state.players@, state.phase->ImpostorReveal_pending@[0])].hand is Some,
    ensures
        ({
            let h = state.players@[player_index(state.players@, state.phase->ImpostorReveal_pending@[0])].hand->0;
            let c = impostor_pick(state, die1, die2)->SubmitImpostorChoice_0;
            let sand_target = numeric_value(h.sand.value) as int;
            let blood_target = numeric_value(h.blood.value) as int;
            &&& impostor_pick(state, die1, die2) is SubmitImpostorChoice
            &&& c.die1 == die1 && c.die2 == die2
            &&& h.blood.value is Impostor ==> (c.blood_choice matches Some(d) && (d == die1 || d == die2)
                && distance(d as int, sand_target) <= distance(die1 as int, sand_target)
                && distance(d as int, sand_target) <= distance(die2 as int, sand_target)
                && (distance(die1 as int, sand_target) <= distance(die2 as int, sand_target) ==> d == die1))
            &&& h.sand.value is Impostor ==> (c.sand_choice matches Some(d) && (d == die1 || d == die2)
                && distance(d as int, blood_target) <= distance(die1 as int, blood_target)
                && distance(d as int, blood_target) <= distance(die2 as int, blood_target)
                && (distance(die1 as int, blood_target) <= distance(die2 as int, blood_target) ==> d == die1))
            &&& !(h.blood.value is Impostor) ==> c.blood_choice is None
            &&& !(h.sand.value is Impostor) ==> c.sand_choice is None
        }),
{
}

/// The distance between two integers.
pub open spec fn distance(x: int, y: int) -> int {
    if x >= y {
        x - y
    } else {
        y - x
    }
}

} // verus!
