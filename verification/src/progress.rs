//! Every step that a bot takes moves the game forward within a round: to a later seat or
//! turn, to fewer tokens or a later step at the same seat, or towards the revelation.
//! This is what makes a run of bot steps finite.

use vstd::prelude::*;

use crate::error::GameError;
use crate::game::{
    action_outcome, category_effect, discard_settled, next_active, state_of, stood, token_check_ok, token_spent,
    turn_advanced, unit_of, without, Action, GamePhase, GameState,
};
use crate::player::is_first_of_kind;
use crate::shift_token::ShiftToken;
use crate::turn::TurnAction;
use crate::PlayerId;

verus! {

/// 2 while a player is to act in a turn, 1 while Impostor choices are pending, else 0.
pub open spec fn stage_rank(s: GameState) -> int {
    match s.phase {
        GamePhase::TurnAction | GamePhase::ChoosingDiscard { .. } | GamePhase::PrimeSabaccChoice { .. } => 2,
        GamePhase::ImpostorReveal { .. } => 1,
        _ => 0,
    }
}

/// The turns left after the current one, while a player is to act.
pub open spec fn turns_left(s: GameState) -> int {
    if stage_rank(s) == 2 && s.turn < 3 {
        3 - s.turn
    } else {
        0
    }
}

/// The seats left from the current one on, while a player is to act.
pub open spec fn seats_left(s: GameState) -> int {
    if stage_rank(s) == 2 && s.current_player_idx < s.players@.len() {
        s.players@.len() - s.current_player_idx
    } else {
        0
    }
}

/// The tokens the current player still holds, while a player is to act.
pub open spec fn tokens_left(s: GameState) -> int {
    if stage_rank(s) == 2 && s.current_player_idx < s.players@.len() {
        s.players@[s.current_player_idx as int].shift_tokens@.len() as int
    } else {
        0
    }
}

/// The step within a seat: the PrimeSabacc choice, then the turn action, then the discard.
pub open spec fn step_rank(s: GameState) -> int {
    match s.phase {
        GamePhase::PrimeSabaccChoice { .. } => 3,
        GamePhase::TurnAction => 2,
        GamePhase::ChoosingDiscard { .. } => 1,
        _ => 0,
    }
}

/// The Impostor choices still pending.
pub open spec fn pending_left(s: GameState) -> int {
    match s.phase {
        GamePhase::ImpostorReveal { pending, .. } => pending@.len() as int,
        _ => 0,
    }
}

/// `new` is further on in the round than `old`.
pub open spec fn moved_on(old: GameState, new: GameState) -> bool {
    decreases_to!(stage_rank(old), turns_left(old), seats_left(old), tokens_left(old), step_rank(old), pending_left(old)
        => stage_rank(new), turns_left(new), seats_left(new), tokens_left(new), step_rank(new), pending_left(new))
}

/// The next active seat after `i` is after `i`.
proof fn lemma_next_active_after(s: Seq<crate::player::Player>, i: int)
    requires
        0 <= i,
    ensures
        next_active(s, i) >= i,
    decreases s.len() - i,
{
    if i < s.len() && s[i].is_eliminated {
        lemma_next_active_after(s, i + 1);
    }
}

/// Dropping an id that occurs shortens the list.
proof fn lemma_without_shorter(s: Seq<PlayerId>, x: PlayerId)
    ensures
        without(s, x).len() <= s.len(),
        s.contains(x) ==> without(s, x).len() < s.len(),
    decreases s.len(),
{
    if s.len() > 0 {
        lemma_without_shorter(s.drop_last(), x);
        if s.contains(x) && s.last() != x {
            let j = choose|j: int| 0 <= j < s.len() && s[j] == x;
            assert(j != s.len() - 1);
            assert(s.drop_last()[j] == x);
        }
    }
}

/// Moving on past a seat moves the game on from a state where that seat was to act.
proof fn lemma_turn_moves_on(old: GameState, new: GameState)
    requires
        stage_rank(old) == 2,
        old.current_player_idx < old.players@.len(),
        old.players@.len() <= usize::MAX,
        turn_advanced(old, new, Ok(())),
    ensures
        moved_on(old, new),
{
    lemma_next_active_after(old.players@, old.current_player_idx + 1);
    let next = next_active(old.players@, old.current_player_idx + 1);
    if next < old.players@.len() {
        assert(new.players == old.players);
        assert(new.current_player_idx as int == next);
        assert(stage_rank(new) == 2 && turns_left(new) == turns_left(old));
        assert(seats_left(new) < seats_left(old));
    } else if old.turn >= 3 {
        assert(stage_rank(new) < 2);
    } else {
        assert(stage_rank(new) == 2);
        assert(turns_left(new) < turns_left(old));
    }
}

/// Each step a bot can take in a round moves the game on.
pub proof fn lemma_step_moves_on(old: GameState, action: Action, new: GameState)
    requires
        old.seat_ok(),
        old.players@.len() <= usize::MAX,
        stage_rank(old) > 0,
        action_outcome(old, action, Ok(new)),
    ensures
        moved_on(old, new),
{
    match action {
        Action::StartGame => {},
        Action::PlayerAction { player_id, action } => {
            match action {
                TurnAction::Stand => {
                    let mid = choose|mid: GameState|
                        #[trigger] stood(old, mid, player_id) && turn_advanced(
                            mid,
                            state_of(Ok::<GameState, GameError>(new), mid),
                            unit_of(Ok::<GameState, GameError>(new)),
                        );
                    lemma_turn_moves_on(mid, new);
                },
                TurnAction::Draw(_) => {},
            }
        },
        Action::ChooseDiscard { player_id, choice } => {
            if let GamePhase::ChoosingDiscard { drawn_card, .. } = old.phase {
                let mid = choose|mid: GameState|
                    #[trigger] discard_settled(old, mid, drawn_card, choice) && turn_advanced(
                        mid,
                        state_of(Ok::<GameState, GameError>(new), mid),
                        unit_of(Ok::<GameState, GameError>(new)),
                    );
                lemma_turn_moves_on(mid, new);
            }
        },
        Action::SubmitImpostorChoice(choice) => {
            if let GamePhase::ImpostorReveal { pending, .. } = old.phase {
                lemma_without_shorter(pending@, choice.player_id);
            }
        },
        Action::AdvanceRound => {},
        Action::PlayShiftToken { player_id, token } => {
            let i = old.current_player_idx as int;
            let p = old.players@[i];
            if token is PrimeSabacc {
                let j = choose|j: int| is_first_of_kind(p.shift_tokens@, token, j) && new.players@[i].shift_tokens@
                    == p.shift_tokens@.remove(j);
            } else {
                let mid = choose|mid: GameState|
                    #[trigger] category_effect(old, mid, player_id, token, unit_of(Ok::<GameState, GameError>(new)))
                        && (Ok::<GameState, GameError>(new) matches Ok(n) ==> token_spent(mid, n, player_id, token)
                        && n.phase == old.phase);
                assert(mid.players@[i].shift_tokens@ == p.shift_tokens@);
                let j = choose|j: int| is_first_of_kind(mid.players@[i].shift_tokens@, token, j)
                    && new.players@[i].shift_tokens@ == mid.players@[i].shift_tokens@.remove(j);
            }
        },
        Action::SubmitPrimeSabaccChoice { .. } => {},
    }
}

} // verus!
