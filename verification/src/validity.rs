//! Every action keeps a valid game state valid (`GameState::wf`): the decks hold only
//! their own family, ids stay distinct, hands stay well-formed, and every card and die
//! choice stays within the scale.

use vstd::prelude::*;

use crate::card::{Card, Family};
use crate::deck::{all_of_family, FamilyDeck};
use crate::hand::Hand;
use crate::error::GameError;
use crate::game::{
    action_outcome, can_deal, category_effect, choice_in_scale, deal_error, next_active, state_of, stood,
    token_check_ok, token_spent, tokens_distributed, unit_of, Action,
    dealt, round_settled, discard_settled, drew_card, drew_after_discard,
    audits_result, cards_in_scale, card_in_scale, hands_ok, ids_distinct, lemma_audits_keep_hands, reveal_results,
    result_ids_distinct, turn_advanced, GamePhase, GameState,
};
use crate::player::{same_ids, Player};
use crate::shift_token::ShiftToken;
use crate::turn::{DiscardChoice, DrawSource, TurnAction};
use crate::PlayerId;
use crate::round::{self, spec_entries};
use crate::scoring::{spec_round_result, ActiveModifiers, ImpostorChoice, RoundResult};

verus! {

broadcast use {
    vstd::seq_lib::group_to_multiset_ensures,
    vstd::multiset::group_multiset_axioms,
};

/// Ids that were distinct stay distinct when every seat keeps its id.
proof fn lemma_ids_kept(a: Seq<Player>, b: Seq<Player>)
    requires
        same_ids(a, b),
        ids_distinct(a),
    ensures
        ids_distinct(b),
{
    assert forall|i: int, j: int| 0 <= i < b.len() && 0 <= j < b.len() && i != j implies (#[trigger] b[i]).id
        != (#[trigger] b[j]).id by {
        assert(a[i].id != a[j].id);
    }
}

/// The scoring entries of a seating name distinct players, each one seated.
proof fn lemma_entries_ids(s: Seq<Player>, choices: Seq<ImpostorChoice>, modifiers: ActiveModifiers)
    requires
        ids_distinct(s),
    ensures
        spec_entries(s, choices, modifiers) matches Ok(entries) ==> {
            &&& forall|i: int| 0 <= i < entries.len() ==> exists|j: int| 0 <= j < s.len() && s[j].id == #[trigger] entries[i].0
            &&& forall|i: int, j: int| 0 <= i < entries.len() && 0 <= j < entries.len() && i != j ==> (#[trigger] entries[i]).0
                != (#[trigger] entries[j]).0
        },
    decreases s.len(),
{
    if s.len() > 0 {
        let rest_s = s.drop_last();
        assert(ids_distinct(rest_s)) by {
            assert forall|i: int, j: int| 0 <= i < rest_s.len() && 0 <= j < rest_s.len() && i != j implies (
            #[trigger] rest_s[i]).id != (#[trigger] rest_s[j]).id by {
                assert(rest_s[i] == s[i] && rest_s[j] == s[j]);
            }
        }
        lemma_entries_ids(rest_s, choices, modifiers);
        if let Ok(entries) = spec_entries(s, choices, modifiers) {
            if let Ok(rest) = spec_entries(rest_s, choices, modifiers) {
                if !s.last().is_eliminated {
                    let p = s.last();
                    assert(entries == rest.push(entries.last()));
                    assert(entries.last().0 == p.id);
                    assert forall|i: int| 0 <= i < rest.len() implies (#[trigger] rest[i]).0 != p.id by {
                        let j = choose|j: int| 0 <= j < rest_s.len() && rest_s[j].id == #[trigger] rest[i].0;
                        assert(s[j] == rest_s[j]);
                        assert(s[s.len() - 1] == p);
                    }
                    assert forall|i: int| 0 <= i < entries.len() implies exists|j: int|
                        0 <= j < s.len() && s[j].id == #[trigger] entries[i].0 by {
                        if i < rest.len() {
                            let j = choose|j: int| 0 <= j < rest_s.len() && rest_s[j].id == #[trigger] rest[i].0;
                            assert(s[j] == rest_s[j]);
                        } else {
                            assert(s[s.len() - 1] == p);
                        }
                    }
                    assert forall|i: int, j: int| 0 <= i < entries.len() && 0 <= j < entries.len() && i != j implies (
                    #[trigger] entries[i]).0 != (#[trigger] entries[j]).0 by {
                        if i < rest.len() && j < rest.len() {
                            assert(entries[i] == rest[i] && entries[j] == rest[j]);
                        } else if i < rest.len() {
                            assert(entries[i] == rest[i]);
                        } else if j < rest.len() {
                            assert(entries[j] == rest[j]);
                        }
                    }
                } else {
                    assert forall|i: int| 0 <= i < entries.len() implies exists|j: int|
                        0 <= j < s.len() && s[j].id == #[trigger] entries[i].0 by {
                        let j = choose|j: int| 0 <= j < rest_s.len() && rest_s[j].id == #[trigger] rest[i].0;
                        assert(s[j] == rest_s[j]);
                    }
                }
            }
        }
    }
}

/// Revealed results name distinct players.
proof fn lemma_results_distinct(s: Seq<Player>, choices: Seq<ImpostorChoice>, modifiers: ActiveModifiers, results: Seq<RoundResult>)
    requires
        ids_distinct(s),
        reveal_results(s, choices, modifiers, results),
    ensures
        result_ids_distinct(results),
{
    lemma_entries_ids(s, choices, modifiers);
    let entries = spec_entries(s, choices, modifiers)->Ok_0;
    assert forall|i: int, j: int| 0 <= i < results.len() && 0 <= j < results.len() && i != j implies (
    #[trigger] results[i]).player_id != (#[trigger] results[j]).player_id by {
        assert(results[i] == spec_round_result(entries, i, modifiers));
        assert(results[j] == spec_round_result(entries, j, modifiers));
        assert(entries[i].0 != entries[j].0);
    }
}

/// Seatings with the same ids and the same hands.
pub open spec fn same_seats(a: Seq<Player>, b: Seq<Player>) -> bool {
    &&& same_ids(a, b)
    &&& forall|k: int| 0 <= k < a.len() ==> (#[trigger] b[k]).hand == a[k].hand
}

proof fn lemma_same_seats_ok(a: Seq<Player>, b: Seq<Player>)
    requires
        same_seats(a, b),
        ids_distinct(a),
        hands_ok(a),
    ensures
        ids_distinct(b),
        hands_ok(b),
{
    lemma_ids_kept(a, b);
    assert forall|i: int| 0 <= i < b.len() implies ((#[trigger] b[i]).hand matches Some(h) ==> h.wf() && card_in_scale(h.sand)
        && card_in_scale(h.blood)) by {
        assert(b[i].hand == a[i].hand);
    }
}

/// Moving on to the next seat, turn or revelation keeps the state valid.
proof fn lemma_turn_keeps_wf(old: GameState, new: GameState)
    requires
        old.wf(),
        turn_advanced(old, new, Ok(())),
    ensures
        new.wf(),
{
    let r = audits_result(
        old.players@,
        old.stats.player_stats@,
        old.turn_state.stood_this_turn@,
        old.turn_state.pending_audit,
        old.modifiers.immune_players@,
    );
    lemma_audits_keep_hands(
        old.players@,
        old.stats.player_stats@,
        old.turn_state.stood_this_turn@,
        old.turn_state.pending_audit,
        old.modifiers.immune_players@,
    );
    lemma_same_seats_ok(old.players@, r.0);
    lemma_same_seats_ok(old.players@, old.players@);
    if let GamePhase::Reveal { results } = new.phase {
        lemma_results_distinct(r.0, Seq::empty(), old.modifiers, results@);
    }
}

/// Cards taken from a pile within the scale are within the scale.
proof fn lemma_scale_sub(a: Seq<Card>, b: Seq<Card>)
    requires
        cards_in_scale(a),
        b.to_multiset().subset_of(a.to_multiset()),
    ensures
        cards_in_scale(b),
{
    assert forall|i: int| 0 <= i < b.len() implies card_in_scale(#[trigger] b[i]) by {
        lemma_scale_member(a, b[i]);
    }
}

/// A card of a pile within the scale is within the scale.
proof fn lemma_scale_member(a: Seq<Card>, c: Card)
    requires
        cards_in_scale(a),
        a.to_multiset().count(c) > 0,
    ensures
        card_in_scale(c),
{
    assert(a.contains(c));
    let j = choose|j: int| 0 <= j < a.len() && a[j] == c;
}

/// Cards taken from a pile of one family are of that family.
proof fn lemma_family_sub(a: Seq<Card>, b: Seq<Card>, f: Family)
    requires
        all_of_family(a, f),
        b.to_multiset().subset_of(a.to_multiset()),
    ensures
        all_of_family(b, f),
{
    assert forall|i: int| 0 <= i < b.len() implies (#[trigger] b[i]).family == f by {
        lemma_family_member(a, b[i], f);
    }
}

/// A card of a pile of one family is of that family.
proof fn lemma_family_member(a: Seq<Card>, c: Card, f: Family)
    requires
        all_of_family(a, f),
        a.to_multiset().count(c) > 0,
    ensures
        c.family == f,
{
    assert(a.contains(c));
    let j = choose|j: int| 0 <= j < a.len() && a[j] == c;
}

/// A deck is valid and within the scale when it is made of cards of a valid deck within
/// the scale.
pub open spec fn deck_ok(d: FamilyDeck, f: Family) -> bool {
    &&& d.wf()
    &&& d.family == f
    &&& cards_in_scale(d.all_cards())
}

/// Drawing keeps a deck valid and gives a card of its family within the scale.
proof fn lemma_drew_ok(old: FamilyDeck, new: FamilyDeck, c: Card, f: Family)
    requires
        deck_ok(old, f),
        old.drew(new, c),
    ensures
        deck_ok(new, f),
        c.family == f,
        card_in_scale(c),
{
    assert(new.all_cards().to_multiset().subset_of(old.all_cards().to_multiset()));
    lemma_scale_sub(old.all_cards(), new.all_cards());
    lemma_scale_member(old.all_cards(), c);
}

/// Taking the top discard keeps a deck valid and gives a card of its family within the scale.
proof fn lemma_took_ok(old: FamilyDeck, new: FamilyDeck, c: Card, f: Family)
    requires
        deck_ok(old, f),
        old.took_discard(new, c),
    ensures
        deck_ok(new, f),
        c.family == f,
        card_in_scale(c),
{
    assert(new.all_cards().to_multiset().subset_of(old.all_cards().to_multiset()));
    lemma_scale_sub(old.all_cards(), new.all_cards());
    lemma_scale_member(old.all_cards(), c);
}

/// A hand within the scale, of the right families.
pub open spec fn hand_ok(h: Hand) -> bool {
    h.wf() && card_in_scale(h.sand) && card_in_scale(h.blood)
}

/// Putting a card of the family within the scale on the discard pile keeps a deck valid.
proof fn lemma_discard_ok(old: FamilyDeck, new: FamilyDeck, c: Card, f: Family)
    requires
        deck_ok(old, f),
        c.family == f,
        card_in_scale(c),
        new.family == old.family,
        new.draw_pile@ == old.draw_pile@,
        new.discard_pile@ == old.discard_pile@.push(c),
    ensures
        deck_ok(new, f),
{
    assert(new.all_cards() =~= old.all_cards().push(c));
    assert forall|i: int| 0 <= i < new.all_cards().len() implies card_in_scale(#[trigger] new.all_cards()[i]) by {
        if i < old.all_cards().len() {
            assert(new.all_cards()[i] == old.all_cards()[i]);
        }
    }
    assert forall|i: int| 0 <= i < new.discard_pile@.len() implies (#[trigger] new.discard_pile@[i]).family == f by {
        if i < old.discard_pile@.len() {
            assert(new.discard_pile@[i] == old.discard_pile@[i]);
        }
    }
}

/// Drawing after putting an old card on the discard pile keeps a deck valid and gives
/// a card of its family within the scale.
proof fn lemma_drew_after_discard_ok(old: FamilyDeck, new: FamilyDeck, extra: Option<Card>, c: Card, f: Family)
    requires
        deck_ok(old, f),
        extra matches Some(x) ==> x.family == f && card_in_scale(x),
        drew_after_discard(old, new, extra, c),
        old.all_cards().len() > 0 || extra is Some,
    ensures
        deck_ok(new, f),
        c.family == f,
        card_in_scale(c),
{
    let discards = match extra {
        Some(x) => old.discard_pile@.push(x),
        None => old.discard_pile@,
    };
    let pool = old.draw_pile@ + discards;
    assert(all_of_family(pool, f) && cards_in_scale(pool)) by {
        assert forall|i: int| 0 <= i < pool.len() implies (#[trigger] pool[i]).family == f && card_in_scale(pool[i]) by {
            if i < old.draw_pile@.len() {
                assert(pool[i] == old.all_cards()[i]);
            } else if i - old.draw_pile@.len() < old.discard_pile@.len() {
                assert(pool[i] == old.all_cards()[i]);
            }
        }
    }
    if old.draw_pile@.len() > 0 {
        let n = old.draw_pile@.len() - 1;
        assert forall|i: int| 0 <= i < new.all_cards().len() implies (#[trigger] new.all_cards()[i]).family == f
            && card_in_scale(new.all_cards()[i]) by {
            if i < n {
                assert(new.all_cards()[i] == pool[i]);
            } else {
                assert(new.all_cards()[i] == pool[i + 1]);
            }
        }
        assert(c == pool[n]);
    } else {
        assert(new.all_cards() =~= new.draw_pile@);
        assert(pool =~= discards);
        assert(new.all_cards().push(c).to_multiset() == pool.to_multiset());
        assert(new.all_cards().to_multiset().subset_of(pool.to_multiset()));
        lemma_scale_sub(pool, new.all_cards());
        lemma_family_sub(pool, new.all_cards(), f);
        lemma_scale_member(pool, c);
        lemma_family_member(pool, c, f);
    }
    assert(all_of_family(new.draw_pile@, f)) by {
        assert forall|i: int| 0 <= i < new.draw_pile@.len() implies (#[trigger] new.draw_pile@[i]).family == f by {
            assert(new.draw_pile@[i] == new.all_cards()[i]);
        }
    }
    assert(all_of_family(new.discard_pile@, f)) by {
        assert forall|i: int| 0 <= i < new.discard_pile@.len() implies (#[trigger] new.discard_pile@[i]).family == f by {
            assert(new.discard_pile@[i] == new.all_cards()[new.draw_pile@.len() + i]);
        }
    }
}

/// The seats that keep their id and hand keep the state's players valid.
proof fn lemma_players_kept(old: GameState, new: GameState)
    requires
        old.wf(),
        same_seats(old.players@, new.players@),
    ensures
        ids_distinct(new.players@),
        hands_ok(new.players@),
{
    lemma_same_seats_ok(old.players@, new.players@);
}

/// A draw keeps the state valid.
proof fn lemma_draw_keeps_wf(old: GameState, new: GameState, pid: PlayerId, source: DrawSource)
    requires
        old.wf(),
        old.current_player_idx < old.players@.len(),
        drew_card(old, new, pid, source),
    ensures
        new.wf(),
{
    assert(deck_ok(old.sand_deck, Family::Sand));
    assert(deck_ok(old.blood_deck, Family::Blood));
    let c = new.phase->ChoosingDiscard_drawn_card;
    match source {
        DrawSource::SandDeck => lemma_drew_ok(old.sand_deck, new.sand_deck, c, Family::Sand),
        DrawSource::BloodDeck => lemma_drew_ok(old.blood_deck, new.blood_deck, c, Family::Blood),
        DrawSource::SandDiscard => lemma_took_ok(old.sand_deck, new.sand_deck, c, Family::Sand),
        DrawSource::BloodDiscard => lemma_took_ok(old.blood_deck, new.blood_deck, c, Family::Blood),
    }
    lemma_players_kept(old, new);
}

/// Settling the discard choice keeps the state valid.
proof fn lemma_discard_keeps_wf(old: GameState, mid: GameState, drawn: Card, choice: DiscardChoice)
    requires
        old.wf(),
        old.current_player_idx < old.players@.len(),
        old.players@[old.current_player_idx as int].hand is Some,
        old.phase matches GamePhase::ChoosingDiscard { drawn_card, .. } && drawn_card == drawn,
        discard_settled(old, mid, drawn, choice),
    ensures
        mid.wf(),
{
    let i = old.current_player_idx as int;
    let h = old.players@[i].hand->0;
    assert(hand_ok(h));
    assert(deck_ok(old.sand_deck, Family::Sand));
    assert(deck_ok(old.blood_deck, Family::Blood));
    match (drawn.family, choice) {
        (Family::Sand, DiscardChoice::KeepDrawn) => {
            lemma_discard_ok(old.sand_deck, mid.sand_deck, h.sand, Family::Sand);
            assert(ids_distinct(mid.players@)) by {
                lemma_ids_kept(old.players@, mid.players@);
            }
            assert forall|k: int| 0 <= k < mid.players@.len() implies ((#[trigger] mid.players@[k]).hand matches Some(
                x,
            ) ==> x.wf() && card_in_scale(x.sand) && card_in_scale(x.blood)) by {
                if k != i {
                    assert(mid.players@[k] == old.players@[k]);
                }
            }
        },
        (Family::Blood, DiscardChoice::KeepDrawn) => {
            lemma_discard_ok(old.blood_deck, mid.blood_deck, h.blood, Family::Blood);
            assert(ids_distinct(mid.players@)) by {
                lemma_ids_kept(old.players@, mid.players@);
            }
            assert forall|k: int| 0 <= k < mid.players@.len() implies ((#[trigger] mid.players@[k]).hand matches Some(
                x,
            ) ==> x.wf() && card_in_scale(x.sand) && card_in_scale(x.blood)) by {
                if k != i {
                    assert(mid.players@[k] == old.players@[k]);
                }
            }
        },
        (Family::Sand, DiscardChoice::DiscardDrawn) => {
            lemma_discard_ok(old.sand_deck, mid.sand_deck, drawn, Family::Sand);
        },
        (Family::Blood, DiscardChoice::DiscardDrawn) => {
            lemma_discard_ok(old.blood_deck, mid.blood_deck, drawn, Family::Blood);
        },
    }
}

/// Each active player's hand appears among the active players' hand cards.
proof fn lemma_active_hand_member(s: Seq<Player>, k: int)
    requires
        0 <= k < s.len(),
        !s[k].is_eliminated,
        s[k].hand is Some,
    ensures
        round::active_hand_cards(s).0.contains(s[k].hand->0.sand),
        round::active_hand_cards(s).1.contains(s[k].hand->0.blood),
    decreases s.len(),
{
    let rest = round::active_hand_cards(s.drop_last());
    if k == s.len() - 1 {
        assert(s.last() == s[k]);
        assert(round::active_hand_cards(s).0.last() == s[k].hand->0.sand);
        assert(round::active_hand_cards(s).1.last() == s[k].hand->0.blood);
    } else {
        assert(s.drop_last()[k] == s[k]);
        lemma_active_hand_member(s.drop_last(), k);
        let j = choose|j: int| 0 <= j < rest.0.len() && rest.0[j] == s[k].hand->0.sand;
        let j2 = choose|j: int| 0 <= j < rest.1.len() && rest.1[j] == s[k].hand->0.blood;
        if !s.last().is_eliminated && s.last().hand is Some {
            assert(round::active_hand_cards(s).0[j] == rest.0[j]);
            assert(round::active_hand_cards(s).1[j2] == rest.1[j2]);
        }
    }
}

/// Dealing keeps the players and the decks valid.
proof fn lemma_dealt_ok(
    a: Seq<Player>,
    b: Seq<Player>,
    old_sand: FamilyDeck,
    new_sand: FamilyDeck,
    old_blood: FamilyDeck,
    new_blood: FamilyDeck,
)
    requires
        ids_distinct(a),
        hands_ok(a),
        deck_ok(old_sand, Family::Sand),
        deck_ok(old_blood, Family::Blood),
        dealt(a, b, old_sand, new_sand, old_blood, new_blood),
    ensures
        ids_distinct(b),
        hands_ok(b),
        deck_ok(new_sand, Family::Sand),
        deck_ok(new_blood, Family::Blood),
{
    lemma_ids_kept(a, b);
    let cards = round::active_hand_cards(b);
    assert(new_sand.all_cards().to_multiset().subset_of(old_sand.all_cards().to_multiset()));
    assert(new_blood.all_cards().to_multiset().subset_of(old_blood.all_cards().to_multiset()));
    lemma_scale_sub(old_sand.all_cards(), new_sand.all_cards());
    lemma_scale_sub(old_blood.all_cards(), new_blood.all_cards());
    assert forall|k: int| 0 <= k < b.len() implies ((#[trigger] b[k]).hand matches Some(h) ==> h.wf() && card_in_scale(h.sand)
        && card_in_scale(h.blood)) by {
        if b[k].hand is Some {
            if b[k].is_eliminated {
                assert(b[k] == (Player { hand: b[k].hand, ..a[k] }));
                assert(b[k].hand == a[k].hand);
            } else {
                lemma_active_hand_member(b, k);
                assert(cards.0.to_multiset().count(b[k].hand->0.sand) > 0);
                assert(cards.1.to_multiset().count(b[k].hand->0.blood) > 0);
                lemma_scale_member(old_sand.all_cards(), b[k].hand->0.sand);
                lemma_scale_member(old_blood.all_cards(), b[k].hand->0.blood);
            }
        }
    }
}

/// The hands' cards of one family are all of that family and within the scale.
proof fn lemma_hand_cards_ok(s: Seq<Player>)
    requires
        hands_ok(s),
    ensures
        all_of_family(round::hand_sand_cards(s), Family::Sand),
        cards_in_scale(round::hand_sand_cards(s)),
        all_of_family(round::hand_blood_cards(s), Family::Blood),
        cards_in_scale(round::hand_blood_cards(s)),
    decreases s.len(),
{
    if s.len() > 0 {
        let rest = s.drop_last();
        assert(hands_ok(rest)) by {
            assert forall|i: int| 0 <= i < rest.len() implies ((#[trigger] rest[i]).hand matches Some(h) ==> h.wf()
                && card_in_scale(h.sand) && card_in_scale(h.blood)) by {
                assert(rest[i] == s[i]);
            }
        }
        lemma_hand_cards_ok(rest);
        assert(s[s.len() - 1] == s.last());
    }
}

/// Cards appended to the discard pile that are of the family and within the scale keep
/// a deck valid.
proof fn lemma_discard_all_ok(old: FamilyDeck, new: FamilyDeck, extra: Seq<Card>, f: Family)
    requires
        deck_ok(old, f),
        all_of_family(extra, f),
        cards_in_scale(extra),
        new.family == old.family,
        new.draw_pile@ == old.draw_pile@,
        new.discard_pile@ == old.discard_pile@ + extra,
    ensures
        deck_ok(new, f),
{
    assert(new.all_cards() =~= old.all_cards() + extra);
    assert forall|i: int| 0 <= i < new.all_cards().len() implies card_in_scale(#[trigger] new.all_cards()[i]) by {
        if i < old.all_cards().len() {
            assert(new.all_cards()[i] == old.all_cards()[i]);
        } else {
            assert(new.all_cards()[i] == extra[i - old.all_cards().len()]);
        }
    }
    assert forall|i: int| 0 <= i < new.discard_pile@.len() implies (#[trigger] new.discard_pile@[i]).family == f by {
        if i < old.discard_pile@.len() {
            assert(new.discard_pile@[i] == old.discard_pile@[i]);
        } else {
            assert(new.discard_pile@[i] == extra[i - old.discard_pile@.len()]);
        }
    }
}

/// Settling a revealed round keeps the state valid.
proof fn lemma_settled_keeps_wf(old: GameState, new: GameState, rs: Seq<RoundResult>)
    requires
        old.wf(),
        round_settled(old, new, rs),
    ensures
        new.wf(),
{
    round::lemma_results_keep_ids(old.players@, rs);
    lemma_hand_cards_ok(old.players@);
    assert(deck_ok(old.sand_deck, Family::Sand));
    assert(deck_ok(old.blood_deck, Family::Blood));
    lemma_discard_all_ok(old.sand_deck, new.sand_deck, round::hand_sand_cards(old.players@), Family::Sand);
    lemma_discard_all_ok(old.blood_deck, new.blood_deck, round::hand_blood_cards(old.players@), Family::Blood);
    let after = round::players_after_results(old.players@, rs);
    assert(same_ids(old.players@, new.players@)) by {
        assert forall|k: int| 0 <= k < old.players@.len() implies (#[trigger] new.players@[k]).id == old.players@[k].id by {
            assert(new.players@[k].id == after[k].id);
        }
    }
    lemma_ids_kept(old.players@, new.players@);
}

/// What a token does before it is spent keeps the state valid.
proof fn lemma_token_effect_keeps_wf(old: GameState, mid: GameState, pid: PlayerId, token: ShiftToken)
    requires
        old.wf(),
        old.current_player_idx < old.players@.len(),
        token_check_ok(old, pid, token),
        category_effect(old, mid, pid, token, Ok(())),
    ensures
        mid.wf(),
{
    let i = old.current_player_idx as int;
    match token {
        ShiftToken::TargetTariff(t) => {
            crate::player::lemma_player_index(old.players@, t);
            lemma_players_kept(old, mid);
        },
        ShiftToken::Exhaustion(t) => {
            if !old.modifiers.immune_players@.contains(t) {
                crate::player::lemma_player_index(old.players@, t);
                let k = crate::player::player_index(old.players@, t);
                let h = old.players@[k].hand;
                assert(deck_ok(old.sand_deck, Family::Sand));
                assert(deck_ok(old.blood_deck, Family::Blood));
                let nh = mid.players@[k].hand->0;
                let extra_sand = match h {
                    Some(x) => Some(x.sand),
                    None => None,
                };
                let extra_blood = match h {
                    Some(x) => Some(x.blood),
                    None => None,
                };
                lemma_drew_after_discard_ok(old.sand_deck, mid.sand_deck, extra_sand, nh.sand, Family::Sand);
                lemma_drew_after_discard_ok(old.blood_deck, mid.blood_deck, extra_blood, nh.blood, Family::Blood);
                lemma_ids_kept(old.players@, mid.players@);
                assert forall|j: int| 0 <= j < mid.players@.len() implies ((#[trigger] mid.players@[j]).hand matches Some(x)
                    ==> x.wf() && card_in_scale(x.sand) && card_in_scale(x.blood)) by {
                    if j != k {
                        assert(mid.players@[j] == old.players@[j]);
                    }
                }
            }
        },
        ShiftToken::DirectTransaction(t) => {
            if !old.modifiers.immune_players@.contains(t) {
                crate::player::lemma_player_index(old.players@, t);
                let k = crate::player::player_index(old.players@, t);
                lemma_ids_kept(old.players@, mid.players@);
                assert forall|j: int| 0 <= j < mid.players@.len() implies ((#[trigger] mid.players@[j]).hand matches Some(x)
                    ==> x.wf() && card_in_scale(x.sand) && card_in_scale(x.blood)) by {
                    if j != k && j != i {
                        assert(mid.players@[j] == old.players@[j]);
                    } else if j == k {
                        assert(mid.players@[j].hand == old.players@[i].hand);
                    } else {
                        assert(mid.players@[j].hand == old.players@[k].hand);
                    }
                }
            }
        },
        _ => {
            lemma_players_kept(old, mid);
        },
    }
}

/// Spending a token keeps the state valid, in the phase it leaves.
proof fn lemma_spent_keeps_wf(old: GameState, new: GameState, pid: PlayerId, token: ShiftToken)
    requires
        old.wf(),
        old.current_player_idx < old.players@.len(),
        token_spent(old, new, pid, token),
        new.phase == old.phase || new.phase is PrimeSabaccChoice,
    ensures
        new.wf(),
{
    lemma_players_kept(old, new);
}

/// A valid state stays valid. Whatever action is applied to a valid game state (within
/// its limits, the current seat at the table while someone is to act, and a die choice
/// within the scale), the state it yields is valid: the decks hold only their own
/// family, players keep distinct ids, hands stay well-formed, and every card and die
/// choice stays within the scale.
pub proof fn lemma_actions_keep_wf(old: GameState, action: Action, new: GameState)
    requires
        old.wf(),
        old.seat_ok(),
        old.fits(action),
        action matches Action::SubmitImpostorChoice(c) ==> choice_in_scale(c),
        action_outcome(old, action, Ok(new)),
    ensures
        new.wf(),
{
    assert(deck_ok(old.sand_deck, Family::Sand));
    assert(deck_ok(old.blood_deck, Family::Blood));
    match action {
        Action::StartGame => {
            let mid = choose|mid: GameState|
                #[trigger] tokens_distributed(old.players@, mid.players@, old.config.token_distribution) && mid == (
                GameState { players: mid.players, ..old }) && if can_deal(mid.players@, old.sand_deck, old.blood_deck) {
                    Ok::<GameState, GameError>(new) matches Ok(n) && n == (GameState {
                        players: n.players,
                        sand_deck: n.sand_deck,
                        blood_deck: n.blood_deck,
                        round: 1,
                        turn: 1,
                        current_player_idx: next_active(n.players@, 0) as usize,
                        phase: GamePhase::TurnAction,
                        ..old
                    }) && dealt(mid.players@, n.players@, old.sand_deck, n.sand_deck, old.blood_deck, n.blood_deck)
                } else {
                    Ok::<GameState, GameError>(new) == Err::<GameState, GameError>(deal_error(old.sand_deck, old.blood_deck))
                };
            lemma_players_kept(old, mid);
            lemma_dealt_ok(mid.players@, new.players@, old.sand_deck, new.sand_deck, old.blood_deck, new.blood_deck);
        },
        Action::PlayerAction { player_id, action } => {
            match action {
                TurnAction::Stand => {
                    let mid = choose|mid: GameState|
                        #[trigger] stood(old, mid, player_id) && turn_advanced(
                            mid,
                            state_of(Ok::<GameState, GameError>(new), mid),
                            unit_of(Ok::<GameState, GameError>(new)),
                        );
                    lemma_turn_keeps_wf(mid, new);
                },
                TurnAction::Draw(source) => {
                    lemma_draw_keeps_wf(old, new, player_id, source);
                },
            }
        },
        Action::ChooseDiscard { player_id, choice } => {
            if let GamePhase::ChoosingDiscard { drawn_card, .. } = old.phase {
                let mid = choose|mid: GameState|
                    #[trigger] discard_settled(old, mid, drawn_card, choice) && turn_advanced(
                        mid,
                        state_of(Ok::<GameState, GameError>(new), mid),
                        unit_of(Ok::<GameState, GameError>(new)),
                    );
                lemma_discard_keeps_wf(old, mid, drawn_card, choice);
                lemma_turn_keeps_wf(mid, new);
            }
        },
        Action::SubmitImpostorChoice(choice) => {
            if let GamePhase::ImpostorReveal { pending, submitted } = old.phase {
                let subs = submitted@.push(choice);
                if let GamePhase::Reveal { results } = new.phase {
                    lemma_results_distinct(old.players@, subs, old.modifiers, results@);
                } else if let GamePhase::ImpostorReveal { submitted: s2, .. } = new.phase {
                    assert forall|i: int| 0 <= i < s2@.len() implies choice_in_scale(#[trigger] s2@[i]) by {
                        if i < submitted@.len() {
                            assert(s2@[i] == submitted@[i]);
                        }
                    }
                }
            }
        },
        Action::AdvanceRound => {
            if let GamePhase::Reveal { results } = old.phase {
                lemma_settled_keeps_wf(old, new, results@);
            } else if !(new.phase is GameOver) {
                lemma_dealt_ok(old.players@, new.players@, old.sand_deck, new.sand_deck, old.blood_deck, new.blood_deck);
            }
        },
        Action::PlayShiftToken { player_id, token } => {
            if token is PrimeSabacc {
                lemma_spent_keeps_wf(old, new, player_id, token);
            } else {
                let mid = choose|mid: GameState|
                    #[trigger] category_effect(old, mid, player_id, token, unit_of(Ok::<GameState, GameError>(new)))
                        && (Ok::<GameState, GameError>(new) matches Ok(n) ==> token_spent(mid, n, player_id, token)
                        && n.phase == old.phase);
                lemma_token_effect_keeps_wf(old, mid, player_id, token);
                lemma_spent_keeps_wf(mid, new, player_id, token);
            }
        },
        Action::SubmitPrimeSabaccChoice { .. } => {},
    }
}

} // verus!
