//! Round-level rules: dealing, finding Impostors, revelation and settlement.

use rand::rngs::SmallRng;
use vstd::prelude::*;

use crate::card::{Card, CardValue, Family};
use crate::deck::FamilyDeck;
use crate::error::GameError;
use crate::hand::{Hand, HandRank};
use crate::player::{find_player_index, lemma_player_index, lemma_player_index_same_ids, player_index, same_ids, Player};
use crate::scoring::{
    self, round_invertible, spec_evaluate_hand, spec_round_result, ActiveModifiers, ImpostorChoice, RoundResult,
};
use crate::PlayerId;

verus! {

/// Whether a hand holds an Impostor on either side.
pub open spec fn hand_has_impostor(h: Hand) -> bool {
    h.sand.value is Impostor || h.blood.value is Impostor
}

/// An active player whose hand holds an Impostor.
pub open spec fn holds_impostor(p: Player) -> bool {
    !p.is_eliminated && (p.hand matches Some(h) && hand_has_impostor(h))
}

/// The ids, in seating order, of the active players holding an Impostor.
pub open spec fn impostor_ids(s: Seq<Player>) -> Seq<PlayerId>
    decreases s.len(),
{
    if s.len() == 0 {
        Seq::empty()
    } else {
        let rest = impostor_ids(s.drop_last());
        if holds_impostor(s.last()) {
            rest.push(s.last().id)
        } else {
            rest
        }
    }
}

/// The ids, in seating order, of the players not eliminated.
pub open spec fn active_ids(s: Seq<Player>) -> Seq<PlayerId>
    decreases s.len(),
{
    if s.len() == 0 {
        Seq::empty()
    } else {
        let rest = active_ids(s.drop_last());
        if !s.last().is_eliminated {
            rest.push(s.last().id)
        } else {
            rest
        }
    }
}

/// `i` is the first choice of `choices` submitted by `player_id`.
pub open spec fn is_first_choice(choices: Seq<ImpostorChoice>, player_id: PlayerId, i: int) -> bool {
    &&& 0 <= i < choices.len()
    &&& choices[i].player_id == player_id
    &&& forall|j: int| 0 <= j < i ==> (#[trigger] choices[j]).player_id != player_id
}

/// The first choice submitted by `player_id`, if any.
pub open spec fn choice_for(choices: Seq<ImpostorChoice>, player_id: PlayerId) -> Option<ImpostorChoice> {
    if exists|i: int| is_first_choice(choices, player_id, i) {
        Some(choices[choose|i: int| is_first_choice(choices, player_id, i)])
    } else {
        None
    }
}

/// The scoring entry of one active player: a missing hand is reported as an unknown
/// player, an Impostor with no submitted choice requires one, and otherwise the hand is
/// evaluated with that player's first submitted choice.
pub open spec fn spec_entry(p: Player, choices: Seq<ImpostorChoice>, modifiers: ActiveModifiers) -> Result<
    (PlayerId, HandRank, u8),
    GameError,
> {
    match p.hand {
        None => Err(GameError::PlayerNotFound { player_id: p.id }),
        Some(h) => {
            let c = choice_for(choices, p.id);
            if hand_has_impostor(h) && c is None {
                Err(GameError::ImpostorChoiceRequired { player_id: p.id })
            } else {
                match spec_evaluate_hand(h, c, modifiers, p.id) {
                    Ok(rank) => Ok((p.id, rank, p.pot)),
                    Err(e) => Err(e),
                }
            }
        },
    }
}

/// The scoring entries of the active players in seating order, or the error of the
/// first active player whose hand cannot be scored.
pub open spec fn spec_entries(s: Seq<Player>, choices: Seq<ImpostorChoice>, modifiers: ActiveModifiers) -> Result<
    Seq<(PlayerId, HandRank, u8)>,
    GameError,
>
    decreases s.len(),
{
    if s.len() == 0 {
        Ok(Seq::empty())
    } else {
        match spec_entries(s.drop_last(), choices, modifiers) {
            Err(e) => Err(e),
            Ok(rest) => if s.last().is_eliminated {
                Ok(rest)
            } else {
                match spec_entry(s.last(), choices, modifiers) {
                    Err(e) => Err(e),
                    Ok(entry) => Ok(rest.push(entry)),
                }
            },
        }
    }
}

/// A player after one round result: a winner takes the invested chips back into the
/// reserve; a loser's invested chips are destroyed and the penalty is paid.
pub open spec fn apply_one_result(p: Player, r: RoundResult) -> Player {
    if r.is_winner {
        Player { chips: (p.chips + p.pot) as u8, pot: 0, ..p }
    } else {
        Player { pot: 0, ..p }.after_penalty(r.penalty)
    }
}

/// The players after the results in order, each applied to the first player with its id.
pub open spec fn players_after_results(s: Seq<Player>, rs: Seq<RoundResult>) -> Seq<Player>
    decreases rs.len(),
{
    if rs.len() == 0 {
        s
    } else {
        let q = players_after_results(s, rs.drop_last());
        let k = player_index(q, rs.last().player_id);
        if k >= 0 {
            q.update(k, apply_one_result(q[k], rs.last()))
        } else {
            q
        }
    }
}

/// Taking invested chips back never overflows a reserve while the results are applied.
pub open spec fn results_fit(s: Seq<Player>, rs: Seq<RoundResult>) -> bool
    decreases rs.len(),
{
    if rs.len() == 0 {
        true
    } else {
        let q = players_after_results(s, rs.drop_last());
        let k = player_index(q, rs.last().player_id);
        &&& results_fit(s, rs.drop_last())
        &&& (k >= 0 && rs.last().is_winner ==> q[k].chips + q[k].pot <= u8::MAX)
    }
}

/// The Sand cards of the hands held, in seating order.
pub open spec fn hand_sand_cards(s: Seq<Player>) -> Seq<Card>
    decreases s.len(),
{
    if s.len() == 0 {
        Seq::empty()
    } else {
        match s.last().hand {
            Some(h) => hand_sand_cards(s.drop_last()).push(h.sand),
            None => hand_sand_cards(s.drop_last()),
        }
    }
}

/// The Blood cards of the hands held, in seating order.
pub open spec fn hand_blood_cards(s: Seq<Player>) -> Seq<Card>
    decreases s.len(),
{
    if s.len() == 0 {
        Seq::empty()
    } else {
        match s.last().hand {
            Some(h) => hand_blood_cards(s.drop_last()).push(h.blood),
            None => hand_blood_cards(s.drop_last()),
        }
    }
}

/// Check which active players have Impostors in their hand.
pub fn players_with_impostors(players: &[Player]) -> (ids: Vec<PlayerId>)
    ensures
        ids@ == impostor_ids(players@),
{
    let mut result: Vec<PlayerId> = Vec::new();
    let mut i: usize = 0;
    while i < players.len()
        invariant
            i <= players@.len(),
            result@ == impostor_ids(players@.take(i as int)),
        decreases players.len() - i,
    {
        assert(players@.take(i + 1).drop_last() =~= players@.take(i as int));
        let player = &players[i];
        if !player.is_eliminated {
            if let Some(hand) = &player.hand {
                let has_impostor = match hand.sand.value {
                    CardValue::Impostor => true,
                    _ => match hand.blood.value {
                        CardValue::Impostor => true,
                        _ => false,
                    },
                };
                if has_impostor {
                    result.push(player.id);
                }
            }
        }
        i = i + 1;
    }
    assert(players@.take(players@.len() as int) =~= players@);
    result
}

/// The first choice submitted by a player, if any.
fn find_choice(choices: &[ImpostorChoice], player_id: PlayerId) -> (r: Option<&ImpostorChoice>)
    ensures
        scoring::opt_choice(r) == choice_for(choices@, player_id),
{
    let mut i: usize = 0;
    while i < choices.len()
        invariant
            i <= choices@.len(),
            forall|j: int| 0 <= j < i ==> (#[trigger] choices@[j]).player_id != player_id,
        decreases choices.len() - i,
    {
        if choices[i].player_id == player_id {
            assert(is_first_choice(choices@, player_id, i as int));
            assert forall|k: int| is_first_choice(choices@, player_id, k) implies k == i by {
                if k < i {
                    assert(choices@[k].player_id != player_id);
                } else if i < k {
                    assert(choices@[i as int].player_id != player_id);
                }
            }
            return Some(&choices[i]);
        }
        i = i + 1;
    }
    None
}

/// Evaluate all active players' hands and resolve the round.
///
/// Returns results with winners and penalties.
pub fn resolve(players: &[Player], impostor_choices: &[ImpostorChoice], modifiers: &ActiveModifiers) -> (res: Result<
    Vec<RoundResult>,
    GameError,
>)
    requires
        spec_entries(players@, impostor_choices@, *modifiers) matches Ok(entries) ==> round_invertible(
            entries,
            *modifiers,
        ),
    ensures
        res is Err <==> spec_entries(players@, impostor_choices@, *modifiers) is Err,
        res matches Err(e) ==> spec_entries(players@, impostor_choices@, *modifiers) == Err::<
            Seq<(PlayerId, HandRank, u8)>,
            GameError,
        >(e),
        res matches Ok(v) ==> (spec_entries(players@, impostor_choices@, *modifiers) matches Ok(entries) && v@.len()
            == entries.len() && forall|i: int| 0 <= i < entries.len() ==> #[trigger] v@[i] == spec_round_result(
            entries,
            i,
            *modifiers,
        )),
{
    let mut evaluated: Vec<(PlayerId, HandRank, u8)> = Vec::new();
    let mut i: usize = 0;
    while i < players.len()
        invariant
            i <= players@.len(),
            spec_entries(players@.take(i as int), impostor_choices@, *modifiers) == Ok::<
                Seq<(PlayerId, HandRank, u8)>,
                GameError,
            >(evaluated@),
        decreases players.len() - i,
    {
        assert(players@.take(i + 1).drop_last() =~= players@.take(i as int));
        assert(players@.take(i + 1).last() == players@[i as int]);
        let player = &players[i];
        if !player.is_eliminated {
            let hand = match &player.hand {
                Some(h) => h,
                None => {
                    proof {
                        lemma_entries_error_persists(players@, impostor_choices@, *modifiers, i as int + 1);
                    }
                    return Err(GameError::PlayerNotFound { player_id: player.id });
                },
            };
            let choice = find_choice(impostor_choices, player.id);
            let needs_impostor = match hand.sand.value {
                CardValue::Impostor => true,
                _ => match hand.blood.value {
                    CardValue::Impostor => true,
                    _ => false,
                },
            };
            if needs_impostor && choice.is_none() {
                proof {
                    lemma_entries_error_persists(players@, impostor_choices@, *modifiers, i as int + 1);
                }
                return Err(GameError::ImpostorChoiceRequired { player_id: player.id });
            }
            let rank = match scoring::evaluate_hand(hand, choice, modifiers, player.id) {
                Ok(r) => r,
                Err(e) => {
                    proof {
                        lemma_entries_error_persists(players@, impostor_choices@, *modifiers, i as int + 1);
                    }
                    return Err(e);
                },
            };
            evaluated.push((player.id, rank, player.pot));
        }
        i = i + 1;
    }
    assert(players@.take(players@.len() as int) =~= players@);
    Ok(scoring::resolve_round(evaluated.as_slice(), modifiers))
}

/// Once the entries of a prefix fail, the entries of the whole sequence fail the same way.
proof fn lemma_entries_error_persists(s: Seq<Player>, choices: Seq<ImpostorChoice>, modifiers: ActiveModifiers, n: int)
    requires
        0 <= n <= s.len(),
        spec_entries(s.take(n), choices, modifiers) is Err,
    ensures
        spec_entries(s, choices, modifiers) == spec_entries(s.take(n), choices, modifiers),
    decreases s.len() - n,
{
    if n < s.len() {
        assert(s.take(n + 1).drop_last() =~= s.take(n));
        lemma_entries_error_persists(s, choices, modifiers, n + 1);
    } else {
        assert(s.take(n) =~= s);
    }
}

/// Applying results changes no player's id.
pub(crate) proof fn lemma_results_keep_ids(s: Seq<Player>, rs: Seq<RoundResult>)
    ensures
        same_ids(s, players_after_results(s, rs)),
        forall|k: int| 0 <= k < s.len() ==> (#[trigger] players_after_results(s, rs)[k]).hand == s[k].hand,
    decreases rs.len(),
{
    if rs.len() > 0 {
        lemma_results_keep_ids(s, rs.drop_last());
        let q = players_after_results(s, rs.drop_last());
        lemma_player_index(q, rs.last().player_id);
    }
}

/// Apply round results: winners get chips back, losers pay penalties.
/// Returns cards from all hands to the appropriate decks.
pub fn apply_results(
    players: &mut Vec<Player>,
    results: &[RoundResult],
    sand_deck: &mut FamilyDeck,
    blood_deck: &mut FamilyDeck,
)
    requires
        results_fit(old(players)@, results@),
    ensures
        final(players)@.len() == old(players)@.len(),
        forall|k: int| 0 <= k < old(players)@.len() ==> #[trigger] final(players)@[k] == (Player {
            hand: None,
            ..players_after_results(old(players)@, results@)[k]
        }),
        final(sand_deck).family == old(sand_deck).family,
        final(blood_deck).family == old(blood_deck).family,
        final(sand_deck).draw_pile@ == old(sand_deck).draw_pile@,
        final(blood_deck).draw_pile@ == old(blood_deck).draw_pile@,
        final(sand_deck).discard_pile@ == old(sand_deck).discard_pile@ + hand_sand_cards(old(players)@),
        final(blood_deck).discard_pile@ == old(blood_deck).discard_pile@ + hand_blood_cards(old(players)@),
{
    let ghost s0 = players@;
    let mut i: usize = 0;
    while i < results.len()
        invariant
            i <= results@.len(),
            results_fit(s0, results@),
            players@ == players_after_results(s0, results@.take(i as int)),
        decreases results.len() - i,
    {
        let ghost pre = players@;
        proof {
            assert(results@.take(i + 1).drop_last() =~= results@.take(i as int));
            assert(results@.take(i + 1).last() == results@[i as int]);
            lemma_results_fit_prefix(s0, results@, i as int + 1);
            lemma_player_index(players@, results@[i as int].player_id);
        }
        let result = results[i];
        if let Some(k) = find_player_index(players, result.player_id) {
            if result.is_winner {
                players[k].return_invested();
            } else {
                players[k].pot = 0;
                players[k].apply_penalty(result.penalty);
            }
            assert(players@ =~= pre.update(k as int, apply_one_result(pre[k as int], result)));
        }
        i = i + 1;
    }
    assert(results@.take(results@.len() as int) =~= results@);
    let ghost mid = players@;
    proof {
        lemma_results_keep_ids(s0, results@);
    }
    let ghost sand0 = sand_deck.discard_pile@;
    let ghost blood0 = blood_deck.discard_pile@;
    let mut k: usize = 0;
    while k < players.len()
        invariant
            k <= players@.len(),
            players@.len() == mid.len(),
            mid.len() == s0.len(),
            forall|j: int| 0 <= j < s0.len() ==> (#[trigger] mid[j]).hand == s0[j].hand,
            forall|j: int| 0 <= j < k ==> #[trigger] players@[j] == (Player { hand: None, ..mid[j] }),
            forall|j: int| k <= j < mid.len() ==> #[trigger] players@[j] == mid[j],
            sand_deck.family == old(sand_deck).family,
            blood_deck.family == old(blood_deck).family,
            sand_deck.draw_pile@ == old(sand_deck).draw_pile@,
            blood_deck.draw_pile@ == old(blood_deck).draw_pile@,
            sand_deck.discard_pile@ == sand0 + hand_sand_cards(s0.take(k as int)),
            blood_deck.discard_pile@ == blood0 + hand_blood_cards(s0.take(k as int)),
            sand0 == old(sand_deck).discard_pile@,
            blood0 == old(blood_deck).discard_pile@,
        decreases players.len() - k,
    {
        assert(s0.take(k + 1).drop_last() =~= s0.take(k as int));
        assert(s0.take(k + 1).last() == s0[k as int]);
        let h = players[k].hand;
        if let Some(hand) = h {
            players[k].hand = None;
            sand_deck.discard(hand.sand);
            blood_deck.discard(hand.blood);
            assert(sand_deck.discard_pile@ =~= sand0 + hand_sand_cards(s0.take(k + 1)));
            assert(blood_deck.discard_pile@ =~= blood0 + hand_blood_cards(s0.take(k + 1)));
        } else {
            assert(players@[k as int] == (Player { hand: None, ..mid[k as int] }));
        }
        k = k + 1;
    }
    assert(s0.take(s0.len() as int) =~= s0);
}

/// The fit condition of a prefix of the results follows from that of the whole.
proof fn lemma_results_fit_prefix(s: Seq<Player>, rs: Seq<RoundResult>, n: int)
    requires
        0 <= n <= rs.len(),
        results_fit(s, rs),
    ensures
        results_fit(s, rs.take(n)),
    decreases rs.len() - n,
{
    if n < rs.len() {
        assert(rs.take(n + 1).drop_last() =~= rs.take(n));
        lemma_results_fit_prefix(s, rs, n + 1);
    } else {
        assert(rs.take(n) =~= rs);
    }
}

/// The Sand and Blood cards held by the active players, in seating order.
pub open spec fn active_hand_cards(s: Seq<Player>) -> (Seq<Card>, Seq<Card>)
    decreases s.len(),
{
    if s.len() == 0 {
        (Seq::empty(), Seq::empty())
    } else {
        let rest = active_hand_cards(s.drop_last());
        if !s.last().is_eliminated && s.last().hand is Some {
            (rest.0.push(s.last().hand->0.sand), rest.1.push(s.last().hand->0.blood))
        } else {
            rest
        }
    }
}

/// Only the hands of active players may differ between two seatings.
pub open spec fn same_but_active_hands(a: Seq<Player>, b: Seq<Player>) -> bool {
    &&& a.len() == b.len()
    &&& forall|k: int| 0 <= k < a.len() ==> #[trigger] b[k] == (Player { hand: b[k].hand, ..a[k] })
    &&& forall|k: int| 0 <= k < a.len() && a[k].is_eliminated ==> #[trigger] b[k].hand == a[k].hand
}

/// The family whose deck runs out first when dealing `needed` cards from each deck,
/// alternating Sand then Blood.
pub open spec fn first_exhausted(sand_total: int, blood_total: int) -> Family {
    if sand_total <= blood_total {
        Family::Sand
    } else {
        Family::Blood
    }
}

/// A prefix never has more active players than the whole seating, and each active
/// player adds exactly one.
proof fn lemma_active_count_grows(s: Seq<Player>, n: int)
    requires
        0 <= n <= s.len(),
    ensures
        active_ids(s.take(n)).len() <= active_ids(s).len(),
        n < s.len() ==> active_ids(s.take(n + 1)).len() == active_ids(s.take(n)).len() + (if s[n].is_eliminated {
            0int
        } else {
            1int
        }),
    decreases s.len() - n,
{
    if n < s.len() {
        assert(s.take(n + 1).drop_last() =~= s.take(n));
        assert(s.take(n + 1).last() == s[n]);
        lemma_active_count_grows(s, n + 1);
    } else {
        assert(s.take(n) =~= s);
    }
}

/// Deal initial hands to all active players and set up initial discard piles.
///
/// Each player receives one Sand and one Blood card.
/// One Sand and one Blood card are placed face-up as the initial discards.
pub fn deal_hands(
    players: &mut Vec<Player>,
    sand_deck: &mut FamilyDeck,
    blood_deck: &mut FamilyDeck,
    rng: &mut SmallRng,
) -> (res: Result<(), GameError>)
    requires
        old(sand_deck).wf(),
        old(blood_deck).wf(),
        old(sand_deck).family == Family::Sand,
        old(blood_deck).family == Family::Blood,
    ensures
        same_but_active_hands(old(players)@, final(players)@),
        final(sand_deck).wf(),
        final(blood_deck).wf(),
        final(sand_deck).family == Family::Sand,
        final(blood_deck).family == Family::Blood,
        // Dealing fails exactly when a deck cannot give one card per active player plus
        // the face-up discard; the deck that runs out first is named.
        res is Ok <==> old(sand_deck).all_cards().len() > active_ids(old(players)@).len()
            && old(blood_deck).all_cards().len() > active_ids(old(players)@).len(),
        res is Err ==> res == Err::<(), GameError>(
            GameError::DeckExhausted {
                family: first_exhausted(
                    old(sand_deck).all_cards().len() as int,
                    old(blood_deck).all_cards().len() as int,
                ),
            },
        ),
        // Every active player holds a fresh, well-formed hand, and the cards dealt are
        // exactly the cards that left the decks.
        res is Ok ==> forall|k: int| 0 <= k < final(players)@.len() && !final(players)@[k].is_eliminated
            ==> ((#[trigger] final(players)@[k]).hand matches Some(h) && h.wf()),
        res is Ok ==> old(sand_deck).all_cards().to_multiset() == final(sand_deck).all_cards().to_multiset().add(
            active_hand_cards(final(players)@).0.to_multiset(),
        ),
        res is Ok ==> old(blood_deck).all_cards().to_multiset() == final(blood_deck).all_cards().to_multiset().add(
            active_hand_cards(final(players)@).1.to_multiset(),
        ),
        res is Ok ==> final(sand_deck).discard_pile@.len() > 0 && final(blood_deck).discard_pile@.len() > 0,
{
    let ghost s0 = players@;
    let ghost sand_total = sand_deck.all_cards().len();
    let ghost blood_total = blood_deck.all_cards().len();
    let ghost sand_ms = sand_deck.all_cards().to_multiset();
    let ghost blood_ms = blood_deck.all_cards().to_multiset();
    proof {
        broadcast use {vstd::multiset::group_multiset_axioms, vstd::seq_lib::group_to_multiset_ensures};
        assert(active_hand_cards(players@.take(0)).0 =~= Seq::<Card>::empty());
        assert(active_hand_cards(players@.take(0)).1 =~= Seq::<Card>::empty());
        assert(players@.take(0) =~= Seq::<Player>::empty());
        assert(s0.take(0) =~= Seq::<Player>::empty());
        assert(sand_ms =~= sand_ms.add(vstd::multiset::Multiset::empty()));
        assert(blood_ms =~= blood_ms.add(vstd::multiset::Multiset::empty()));
    }
    let mut i: usize = 0;
    while i < players.len()
        invariant
            i <= players@.len(),
            s0 == old(players)@,
            sand_total == old(sand_deck).all_cards().len(),
            blood_total == old(blood_deck).all_cards().len(),
            s0.len() == players@.len(),
            same_but_active_hands(s0, players@),
            forall|k: int| i <= k < s0.len() ==> #[trigger] players@[k] == s0[k],
            forall|k: int| 0 <= k < i && !players@[k].is_eliminated ==> ((#[trigger] players@[k]).hand matches Some(
                h,
            ) && h.wf()),
            sand_deck.wf(),
            blood_deck.wf(),
            sand_deck.family == Family::Sand,
            blood_deck.family == Family::Blood,
            sand_deck.all_cards().len() + active_ids(s0.take(i as int)).len() == sand_total,
            blood_deck.all_cards().len() + active_ids(s0.take(i as int)).len() == blood_total,
            active_ids(s0.take(i as int)).len() <= active_ids(s0).len(),
            sand_ms == sand_deck.all_cards().to_multiset().add(active_hand_cards(players@.take(i as int)).0.to_multiset()),
            blood_ms == blood_deck.all_cards().to_multiset().add(active_hand_cards(players@.take(i as int)).1.to_multiset()),
        decreases players.len() - i,
    {
        proof {
            assert(s0.take(i + 1).drop_last() =~= s0.take(i as int));
            assert(s0.take(i + 1).last() == s0[i as int]);
            lemma_active_count_grows(s0, i as int);
            lemma_active_count_grows(s0, i as int + 1);
        }
        if !players[i].is_eliminated {
            let sand = match sand_deck.draw(rng) {
                Ok(c) => c,
                Err(e) => {
                    proof {
                        lemma_active_count_grows(s0, i as int + 1);
                    }
                    return Err(e);
                },
            };
            let blood = match blood_deck.draw(rng) {
                Ok(c) => c,
                Err(e) => {
                    proof {
                        lemma_active_count_grows(s0, i as int + 1);
                    }
                    return Err(e);
                },
            };
            let hand = match Hand::new(sand, blood) {
                Ok(h) => h,
                Err(e) => {
                    return Err(e);
                },
            };
            let ghost pre = players@;
            players[i].hand = Some(hand);
            proof {
                assert(players@.take(i + 1).drop_last() =~= pre.take(i as int));
                assert(players@.take(i + 1).last() == players@[i as int]);
                broadcast use {vstd::seq_lib::group_to_multiset_ensures, vstd::multiset::group_multiset_axioms};
                assert(active_hand_cards(players@.take(i + 1)).0 == active_hand_cards(pre.take(i as int)).0.push(sand));
                assert(sand_ms =~= sand_deck.all_cards().to_multiset().add(active_hand_cards(players@.take(i + 1)).0.to_multiset()));
                assert(blood_ms =~= blood_deck.all_cards().to_multiset().add(active_hand_cards(players@.take(i + 1)).1.to_multiset()));
            }
        } else {
            proof {
                assert(players@.take(i + 1).drop_last() =~= players@.take(i as int));
                assert(players@.take(i + 1).last() == players@[i as int]);
            }
        }
        i = i + 1;
    }
    proof {
        assert(s0.take(s0.len() as int) =~= s0);
        assert(players@.take(players@.len() as int) =~= players@);
    }
    // Initial face-up discards.
    let sand_discard = sand_deck.draw(rng)?;
    sand_deck.discard(sand_discard);
    let blood_discard = blood_deck.draw(rng)?;
    blood_deck.discard(blood_discard);
    Ok(())
}

/// Check if the game is over (0 or 1 players remaining).
pub fn check_game_over(players: &[Player]) -> (winner: Option<PlayerId>)
    ensures
        winner == (if active_ids(players@).len() == 1 {
            Some(active_ids(players@)[0])
        } else {
            None::<PlayerId>
        }),
{
    let mut count: usize = 0;
    let mut last: PlayerId = 0;
    let mut i: usize = 0;
    while i < players.len()
        invariant
            i <= players@.len(),
            count == active_ids(players@.take(i as int)).len(),
            count <= i,
            count == 1 ==> last == active_ids(players@.take(i as int))[0],
        decreases players.len() - i,
    {
        assert(players@.take(i + 1).drop_last() =~= players@.take(i as int));
        if !players[i].is_eliminated {
            if count == 0 {
                last = players[i].id;
            }
            count = count + 1;
        }
        i = i + 1;
    }
    assert(players@.take(players@.len() as int) =~= players@);
    if count == 1 {
        Some(last)
    } else {
        None
    }
}

/// Results that name other players leave a player as they were.
proof fn lemma_results_leave_others(s: Seq<Player>, rs: Seq<RoundResult>, id: PlayerId)
    requires
        player_index(s, id) >= 0,
        forall|j: int| 0 <= j < rs.len() ==> (#[trigger] rs[j]).player_id != id,
    ensures
        players_after_results(s, rs)[player_index(s, id)] == s[player_index(s, id)],
        players_after_results(s, rs).len() == s.len(),
    decreases rs.len(),
{
    if rs.len() > 0 {
        let last = rs.last();
        assert(forall|j: int| 0 <= j < rs.drop_last().len() ==> rs.drop_last()[j] == #[trigger] rs[j]);
        lemma_results_leave_others(s, rs.drop_last(), id);
        let q = players_after_results(s, rs.drop_last());
        lemma_results_keep_ids(s, rs.drop_last());
        lemma_player_index(s, id);
        lemma_player_index(q, last.player_id);
        assert(rs[rs.len() - 1] == last);
    }
}

/// Settling a round: every player named by exactly one result ends with an empty pot.
/// A winner takes its invested chips back into its reserve; a loser's invested chips are
/// destroyed and it pays the penalty from its reserve, losing all of it (and dropping out)
/// when the reserve cannot cover the penalty. Nothing else about the player changes.
pub proof fn lemma_settlement(s: Seq<Player>, rs: Seq<RoundResult>, i: int)
    requires
        0 <= i < rs.len(),
        player_index(s, rs[i].player_id) >= 0,
        forall|j: int| 0 <= j < rs.len() && j != i ==> (#[trigger] rs[j]).player_id != rs[i].player_id,
    ensures
        ({
            let k = player_index(s, rs[i].player_id);
            let p = s[k];
            let after = players_after_results(s, rs)[k];
            let r = rs[i];
            &&& after.pot == 0
            &&& after == (Player { chips: after.chips, pot: 0, is_eliminated: after.is_eliminated, ..p })
            &&& r.is_winner && p.chips + p.pot <= u8::MAX ==> after.chips == p.chips + p.pot
                && after.is_eliminated == p.is_eliminated
            &&& !r.is_winner ==> after.chips == (if r.penalty >= p.chips { 0 } else { p.chips - r.penalty })
                && after.is_eliminated == (p.is_eliminated || r.penalty >= p.chips)
            &&& !r.is_winner ==> p.chips + p.pot - (after.chips + after.pot) == p.pot + (if r.penalty
                >= p.chips { p.chips as int } else { r.penalty as int })
        }),
    decreases rs.len(),
{
    let id = rs[i].player_id;
    let n = rs.len() - 1;
    let q = players_after_results(s, rs.drop_last());
    lemma_results_keep_ids(s, rs.drop_last());
    lemma_player_index(s, id);
    lemma_player_index_same_ids(s, q, id);
    let last = rs.last();
    assert(rs[n] == last);
    if i == n {
        assert forall|j: int| 0 <= j < rs.drop_last().len() implies (#[trigger] rs.drop_last()[j]).player_id != id by {
            assert(rs.drop_last()[j] == rs[j]);
        }
        lemma_results_leave_others(s, rs.drop_last(), id);
    } else {
        assert forall|j: int| 0 <= j < rs.drop_last().len() && j != i implies (#[trigger] rs.drop_last()[j]).player_id
            != rs.drop_last()[i].player_id by {
            assert(rs.drop_last()[j] == rs[j]);
        }
        assert(rs.drop_last()[i] == rs[i]);
        lemma_settlement(s, rs.drop_last(), i);
        lemma_player_index(q, last.player_id);
    }
}

} // verus!
