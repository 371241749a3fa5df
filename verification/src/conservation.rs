//! Chips are never created: every action leaves at most as many chips in play (reserves
//! plus pots) as there were before. Chips move between players, from pot to reserve and
//! back, and penalties destroy them.

use vstd::prelude::*;

use crate::error::GameError;
use crate::game::{
    action_outcome, can_deal, deal_error, dealt, discard_settled, next_active, state_of, stood, tokens_distributed,
    unit_of, Action, GamePhase,
    audits_result, category_effect, chips_fit, count_hit, embezzle_victim, embezzled_players, general_audit,
    lemma_results_keep_chips_fit, penalize, settled_players, token_check_ok, token_spent, turn_advanced, GameState,
    PendingAudit,
};
use crate::shift_token::ShiftToken;
use crate::turn::TurnAction;
use crate::player::{lemma_player_index, player_index, Player};
use crate::round;
use crate::scoring::RoundResult;
use crate::stats::PlayerStats;
use crate::PlayerId;

verus! {

/// The chips in play at a table: every player's reserve plus pot.
pub open spec fn chips_in_play(s: Seq<Player>) -> int
    decreases s.len(),
{
    if s.len() == 0 {
        0
    } else {
        chips_in_play(s.drop_last()) + s.last().chips + s.last().pot
    }
}

/// Seat by seat, no player holds more chips (reserve plus pot) in `new` than in `old`.
pub open spec fn chips_never_up(old: Seq<Player>, new: Seq<Player>) -> bool {
    &&& new.len() == old.len()
    &&& forall|k: int| 0 <= k < old.len() ==> (#[trigger] new[k]).chips + new[k].pot <= old[k].chips + old[k].pot
}

/// Seat by seat bounds add up.
proof fn lemma_sum_never_up(old: Seq<Player>, new: Seq<Player>)
    requires
        chips_never_up(old, new),
    ensures
        chips_in_play(new) <= chips_in_play(old),
    decreases old.len(),
{
    if old.len() > 0 {
        let a = old.drop_last();
        let b = new.drop_last();
        assert(chips_never_up(a, b)) by {
            assert forall|k: int| 0 <= k < a.len() implies (#[trigger] b[k]).chips + b[k].pot <= a[k].chips + a[k].pot by {
                assert(b[k] == new[k] && a[k] == old[k]);
            }
        }
        lemma_sum_never_up(a, b);
        assert(new.last() == new[new.len() - 1] && old.last() == old[old.len() - 1]);
    }
}

/// Replacing one seat changes the chips in play by the difference at that seat.
proof fn lemma_update_sum(s: Seq<Player>, k: int, p: Player)
    requires
        0 <= k < s.len(),
    ensures
        chips_in_play(s.update(k, p)) == chips_in_play(s) - (s[k].chips + s[k].pot) + (p.chips + p.pot),
    decreases s.len(),
{
    let u = s.update(k, p);
    if k == s.len() - 1 {
        assert(u.drop_last() =~= s.drop_last());
    } else {
        assert(u.drop_last() =~= s.drop_last().update(k, p));
        lemma_update_sum(s.drop_last(), k, p);
    }
}

proof fn lemma_never_up_trans(a: Seq<Player>, b: Seq<Player>, c: Seq<Player>)
    requires
        chips_never_up(a, b),
        chips_never_up(b, c),
    ensures
        chips_never_up(a, c),
{
    assert forall|k: int| 0 <= k < a.len() implies (#[trigger] c[k]).chips + c[k].pot <= a[k].chips + a[k].pot by {
        assert(b[k].chips + b[k].pot <= a[k].chips + a[k].pot);
    }
}

/// A penalty never adds chips.
proof fn lemma_penalize_never_up(players: Seq<Player>, pid: PlayerId, amount: u8)
    ensures
        chips_never_up(players, penalize(players, pid, amount)),
{
    lemma_player_index(players, pid);
}

proof fn lemma_general_audit_never_up(
    players: Seq<Player>,
    stats: Seq<PlayerStats>,
    stood: Seq<PlayerId>,
    audit: PendingAudit,
    immune: Seq<PlayerId>,
)
    ensures
        chips_never_up(players, general_audit(players, stats, stood, audit, immune).0),
    decreases stood.len(),
{
    if stood.len() > 0 {
        lemma_general_audit_never_up(players, stats, stood.drop_last(), audit, immune);
        let prev = general_audit(players, stats, stood.drop_last(), audit, immune);
        lemma_penalize_never_up(prev.0, stood.last(), 2);
        lemma_never_up_trans(players, prev.0, penalize(prev.0, stood.last(), 2));
    }
}

/// Audits never add chips.
proof fn lemma_audits_never_up(
    players: Seq<Player>,
    stats: Seq<PlayerStats>,
    stood: Seq<PlayerId>,
    audit: PendingAudit,
    immune: Seq<PlayerId>,
)
    ensures
        chips_never_up(players, audits_result(players, stats, stood, audit, immune).0),
{
    lemma_general_audit_never_up(players, stats, stood, audit, immune);
    let g = if audit.general { general_audit(players, stats, stood, audit, immune) } else { (players, stats) };
    if let Some(t) = audit.target {
        lemma_penalize_never_up(g.0, t, 3);
        lemma_never_up_trans(players, g.0, penalize(g.0, t, 3));
    }
}

/// Moving on to the next seat, turn or revelation never adds chips.
proof fn lemma_turn_never_up(old: GameState, new: GameState)
    requires
        turn_advanced(old, new, Ok(())),
    ensures
        chips_never_up(old.players@, new.players@),
{
    lemma_audits_never_up(
        old.players@,
        old.stats.player_stats@,
        old.turn_state.stood_this_turn@,
        old.turn_state.pending_audit,
        old.modifiers.immune_players@,
    );
}

/// Settling round results never adds chips: a winner's pot returns to the reserve, a
/// loser's pot and penalty are destroyed.
proof fn lemma_results_never_up(s: Seq<Player>, rs: Seq<RoundResult>)
    requires
        chips_fit(s),
    ensures
        chips_never_up(s, round::players_after_results(s, rs)),
    decreases rs.len(),
{
    if rs.len() > 0 {
        lemma_results_never_up(s, rs.drop_last());
        let q = round::players_after_results(s, rs.drop_last());
        lemma_results_keep_chips_fit(s, rs.drop_last());
        lemma_player_index(q, rs.last().player_id);
        let k = player_index(q, rs.last().player_id);
        if k >= 0 {
            let u = q.update(k, round::apply_one_result(q[k], rs.last()));
            assert(chips_never_up(q, u)) by {
                assert(q[k].chips + q[k].pot <= u8::MAX);
            }
            lemma_never_up_trans(s, q, u);
        }
    }
}

/// The players at the end of a round hold no more chips than before it was settled.
proof fn lemma_settled_never_up(s: Seq<Player>, rs: Seq<RoundResult>)
    requires
        chips_fit(s),
    ensures
        chips_never_up(s, settled_players(s, rs)),
{
    lemma_results_never_up(s, rs);
    lemma_results_keep_chips_fit(s, rs);
}

/// The table after every victim of an Embezzlement by `pid` lost one chip.
spec fn skimmed(s: Seq<Player>, pid: PlayerId, immune: Seq<PlayerId>) -> Seq<Player> {
    Seq::new(
        s.len(),
        |k: int|
            if embezzle_victim(s[k], pid, immune) {
                Player { chips: (s[k].chips - 1) as u8, ..s[k] }
            } else {
                s[k]
            },
    )
}

/// Taking one chip from each victim removes as many chips as there are victims.
proof fn lemma_skimmed_sum(s: Seq<Player>, pid: PlayerId, immune: Seq<PlayerId>)
    ensures
        chips_in_play(skimmed(s, pid, immune)) == chips_in_play(s) - count_hit(s, |p: Player| embezzle_victim(p, pid, immune)),
        count_hit(s, |p: Player| embezzle_victim(p, pid, immune)) <= s.len(),
    decreases s.len(),
{
    if s.len() > 0 {
        lemma_skimmed_sum(s.drop_last(), pid, immune);
        assert(skimmed(s, pid, immune).drop_last() =~= skimmed(s.drop_last(), pid, immune));
        assert(skimmed(s, pid, immune).last() == skimmed(s, pid, immune)[s.len() - 1]);
    }
}

/// Embezzlement only moves chips: the victims lose what the player gains.
proof fn lemma_embezzle_keeps_sum(s: Seq<Player>, pid: PlayerId, immune: Seq<PlayerId>, i: int)
    requires
        0 <= i < s.len(),
        s[i].id == pid,
        s[i].chips + s.len() <= u8::MAX,
    ensures
        chips_in_play(embezzled_players(s, pid, immune, i)) == chips_in_play(s),
{
    let d = skimmed(s, pid, immune);
    let count = count_hit(s, |p: Player| embezzle_victim(p, pid, immune));
    lemma_skimmed_sum(s, pid, immune);
    let gained = Player { chips: (s[i].chips + count) as u8, ..s[i] };
    assert(embezzled_players(s, pid, immune, i) =~= d.update(i, gained));
    lemma_update_sum(d, i, gained);
}

/// What a token does before it is spent never adds chips.
proof fn lemma_token_effect_never_up(old: GameState, mid: GameState, pid: PlayerId, token: ShiftToken)
    requires
        token_check_ok(old, pid, token),
        old.seat_ok(),
        old.fits(Action::PlayShiftToken { player_id: pid, token }),
        category_effect(old, mid, pid, token, Ok(())),
    ensures
        chips_in_play(mid.players@) <= chips_in_play(old.players@),
{
    let i = old.current_player_idx as int;
    let immune = old.modifiers.immune_players@;
    match token {
        ShiftToken::Refund | ShiftToken::ExtraRefund => {
            assert(old.players@[i].chips + old.players@[i].pot <= u8::MAX);
            lemma_sum_never_up(old.players@, mid.players@);
        },
        ShiftToken::Embezzlement => {
            lemma_embezzle_keeps_sum(old.players@, pid, immune, i);
        },
        ShiftToken::GeneralTariff => {
            lemma_sum_never_up(old.players@, mid.players@);
        },
        ShiftToken::TargetTariff(t) => {
            lemma_penalize_never_up(old.players@, t, 2);
            lemma_sum_never_up(old.players@, mid.players@);
        },
        ShiftToken::Exhaustion(t) => {
            lemma_player_index(old.players@, t);
            lemma_sum_never_up(old.players@, mid.players@);
        },
        ShiftToken::DirectTransaction(t) => {
            lemma_player_index(old.players@, t);
            lemma_sum_never_up(old.players@, mid.players@);
        },
        _ => {
            lemma_sum_never_up(old.players@, mid.players@);
        },
    }
}

/// Spending a token changes only the player's tokens.
proof fn lemma_token_spent_keeps_sum(old: GameState, new: GameState, pid: PlayerId, token: ShiftToken)
    requires
        old.current_player_idx < old.players@.len(),
        token_spent(old, new, pid, token),
    ensures
        chips_in_play(new.players@) == chips_in_play(old.players@),
{
    lemma_sum_never_up(old.players@, new.players@);
    lemma_sum_never_up(new.players@, old.players@);
}

/// Chips are never created. Whatever action is applied to a valid game state, the chips
/// in play afterwards (every player's reserve plus pot) are at most those in play before:
/// chips only change hands or go from pot to reserve, and penalties destroy them.
pub proof fn lemma_chips_never_created(old: GameState, action: Action, new: GameState)
    requires
        old.wf(),
        old.seat_ok(),
        old.fits(action),
        action_outcome(old, action, Ok(new)),
    ensures
        chips_in_play(new.players@) <= chips_in_play(old.players@),
{
    match action {
        Action::StartGame => {
            let mid = choose|mid: GameState|
                #[trigger] tokens_distributed(old.players@, mid.players@, old.config.token_distribution) && mid == (
                GameState { players: mid.players, ..old }) && if can_deal(mid.players@, old.sand_deck, old.blood_deck) {
                    Ok::<GameState, GameError>(new) matches Ok(n) && n == (GameState {
                        players: n.players,
                        sand_deck: n.sand_deck,
                        blood_deck: n.blood_deck,
                        round: 1,
                        turn: 1,
                        current_player_idx: next_active(n.players@, 0) as usize,
                        phase: GamePhase::TurnAction,
                        ..old
                    }) && dealt(mid.players@, n.players@, old.sand_deck, n.sand_deck, old.blood_deck, n.blood_deck)
                } else {
                    Ok::<GameState, GameError>(new) == Err::<GameState, GameError>(deal_error(old.sand_deck, old.blood_deck))
                };
            lemma_sum_never_up(old.players@, mid.players@);
            lemma_sum_never_up(mid.players@, new.players@);
        },
        Action::PlayerAction { player_id, action } => {
            match action {
                TurnAction::Stand => {
                    let mid = choose|mid: GameState|
                        #[trigger] stood(old, mid, player_id) && turn_advanced(
                            mid,
                            state_of(Ok::<GameState, GameError>(new), mid),
                            unit_of(Ok::<GameState, GameError>(new)),
                        );
                    lemma_turn_never_up(mid, new);
                    lemma_sum_never_up(mid.players@, new.players@);
                },
                TurnAction::Draw(_) => {
                    let i = old.current_player_idx as int;
                    assert(old.players@[i].chips + old.players@[i].pot <= u8::MAX);
                    lemma_sum_never_up(old.players@, new.players@);
                },
            }
        },
        Action::ChooseDiscard { player_id, choice } => {
            if let GamePhase::ChoosingDiscard { drawn_card, .. } = old.phase {
                let mid = choose|mid: GameState|
                    #[trigger] discard_settled(old, mid, drawn_card, choice) && turn_advanced(
                        mid,
                        state_of(Ok::<GameState, GameError>(new), mid),
                        unit_of(Ok::<GameState, GameError>(new)),
                    );
                lemma_sum_never_up(old.players@, mid.players@);
                lemma_turn_never_up(mid, new);
                lemma_sum_never_up(mid.players@, new.players@);
            }
        },
        Action::SubmitImpostorChoice(_) => {},
        Action::AdvanceRound => {
            if let GamePhase::Reveal { results } = old.phase {
                lemma_settled_never_up(old.players@, results@);
                lemma_sum_never_up(old.players@, new.players@);
            } else {
                lemma_sum_never_up(old.players@, new.players@);
            }
        },
        Action::PlayShiftToken { player_id, token } => {
            if token is PrimeSabacc {
                lemma_token_spent_keeps_sum(old, new, player_id, token);
            } else {
                let mid = choose|mid: GameState|
                    #[trigger] category_effect(old, mid, player_id, token, unit_of(Ok::<GameState, GameError>(new)))
                        && (Ok::<GameState, GameError>(new) matches Ok(n) ==> token_spent(mid, n, player_id, token)
                        && n.phase == old.phase);
                lemma_token_effect_never_up(old, mid, player_id, token);
                lemma_token_spent_keeps_sum(mid, new, player_id, token);
            }
        },
        Action::SubmitPrimeSabaccChoice { .. } => {},
    }
}

} // verus!
