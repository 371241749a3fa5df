//! Hand evaluation, rank comparison under active modifiers, and round resolution.

use vstd::prelude::*;

use crate::card::CardValue;
use crate::error::GameError;
use crate::hand::{key_le, key_lt, Hand, HandRank};
use crate::PlayerId;

verus! {

/// Modifier for the PrimeSabacc shift token.
#[derive(Debug, Clone, Copy, PartialEq, Eq, Structural)]
pub struct PrimeSabaccModifier {
    /// The player who activated PrimeSabacc.
    pub player_id: PlayerId,
    /// The dice value chosen by the player.
    pub chosen_value: u8,
}

/// Modifiers applied by active shift tokens.
#[derive(Debug, Clone, PartialEq)]
pub struct ActiveModifiers {
    /// If true, Sylop value becomes 0 (doesn't match the other card).
    pub markdown_active: bool,
    /// If true, the hand ranking is inverted (6/6 beats 1/1).
    pub cook_the_books_active: bool,
    /// If true, Impostor value is forced to 6.
    pub major_fraud_active: bool,
    /// Players who are immune to opponent shift token effects.
    pub immune_players: Vec<PlayerId>,
    /// Active PrimeSabacc override, if any.
    pub prime_sabacc: Option<PrimeSabaccModifier>,
}

impl ActiveModifiers {
    /// No modifier is active.
    pub open spec fn is_default(self) -> bool {
        &&& !self.markdown_active
        &&& !self.cook_the_books_active
        &&& !self.major_fraud_active
        &&& self.immune_players@ == Seq::<PlayerId>::empty()
        &&& self.prime_sabacc is None
    }
}

impl Default for ActiveModifiers {
    fn default() -> (m: Self)
        ensures
            m.is_default(),
    {
        ActiveModifiers {
            markdown_active: false,
            cook_the_books_active: false,
            major_fraud_active: false,
            immune_players: Vec::new(),
            prime_sabacc: None,
        }
    }
}

/// A player's choice for resolving an Impostor card.
#[derive(Debug, Clone, Copy, PartialEq, Eq, Structural)]
pub struct ImpostorChoice {
    /// The player making the choice.
    pub player_id: PlayerId,
    /// The first die value rolled.
    pub die1: u8,
    /// The second die value rolled.
    pub die2: u8,
    /// Which die value the player chose for the Sand impostor (if any).
    pub sand_choice: Option<u8>,
    /// Which die value the player chose for the Blood impostor (if any).
    pub blood_choice: Option<u8>,
}

impl ImpostorChoice {
    /// A chosen value is acceptable when absent or equal to one of the two dice.
    pub open spec fn choice_ok(self, c: Option<u8>) -> bool {
        match c {
            None => true,
            Some(v) => v == self.die1 || v == self.die2,
        }
    }

    /// Validate that chosen values are available from the dice roll.
    pub fn validate(&self) -> (res: Result<(), GameError>)
        ensures
            res is Ok <==> self.choice_ok(self.sand_choice) && self.choice_ok(self.blood_choice),
            !self.choice_ok(self.sand_choice) ==> res == Err::<(), GameError>(
                GameError::InvalidDieChoice {
                    chosen: self.sand_choice->0,
                    die1: self.die1,
                    die2: self.die2,
                },
            ),
            self.choice_ok(self.sand_choice) && !self.choice_ok(self.blood_choice) ==> res
                == Err::<(), GameError>(
                GameError::InvalidDieChoice {
                    chosen: self.blood_choice->0,
                    die1: self.die1,
                    die2: self.die2,
                },
            ),
    {
        if let Some(c) = self.sand_choice {
            if c != self.die1 && c != self.die2 {
                return Err(GameError::InvalidDieChoice { chosen: c, die1: self.die1, die2: self.die2 });
            }
        }
        if let Some(c) = self.blood_choice {
            if c != self.die1 && c != self.die2 {
                return Err(GameError::InvalidDieChoice { chosen: c, die1: self.die1, die2: self.die2 });
            }
        }
        Ok(())
    }
}

/// The result for a single player after a round.
#[derive(Debug, Clone, Copy, PartialEq, Eq, Structural)]
pub struct RoundResult {
    /// The player's ID.
    pub player_id: PlayerId,
    /// The evaluated hand rank.
    pub rank: HandRank,
    /// Chips invested this round.
    pub invested: u8,
    /// Whether this player won the round.
    pub is_winner: bool,
    /// Penalty chips to lose (0 for winners, difference for non-sabacc losers, 1 for sabacc losers).
    pub penalty: u8,
}

/// The value a card takes at revelation, once Impostors are settled.
#[derive(Debug, Clone, Copy, PartialEq, Eq, Structural)]
pub enum ResolvedValue {
    /// A plain number.
    Number(u8),
    /// A Sylop.
    Sylop,
}

/// The value a card takes at revelation: numbers and Sylops stand as they are; an
/// Impostor is 6 under MajorFraud, and otherwise the die chosen for its side of the hand.
/// A missing choice is an error naming `player_id` when no choice was given at all, and
/// the choosing player when the choice leaves that side empty.
pub open spec fn spec_resolve_card_value(
    value: CardValue,
    choice: Option<ImpostorChoice>,
    is_sand: bool,
    major_fraud: bool,
    player_id: PlayerId,
) -> Result<ResolvedValue, GameError> {
    match value {
        CardValue::Number(n) => Ok(ResolvedValue::Number(n)),
        CardValue::Sylop => Ok(ResolvedValue::Sylop),
        CardValue::Impostor => if major_fraud {
            Ok(ResolvedValue::Number(6))
        } else {
            match choice {
                None => Err(GameError::ImpostorChoiceRequired { player_id }),
                Some(c) => {
                    let side = if is_sand { c.sand_choice } else { c.blood_choice };
                    match side {
                        Some(v) => Ok(ResolvedValue::Number(v)),
                        None => Err(GameError::ImpostorChoiceRequired { player_id: c.player_id }),
                    }
                },
            }
        },
    }
}

/// The rank of two resolved values. Two Sylops are Pure Sabacc (Markdown or not); a Sylop
/// with a number copies it (Sylop Sabacc), or counts as 0 under Markdown; two numbers are
/// a Sabacc when equal and otherwise rank by their difference.
pub open spec fn rank_of_values(sand: ResolvedValue, blood: ResolvedValue, markdown: bool) -> HandRank {
    match (sand, blood) {
        (ResolvedValue::Sylop, ResolvedValue::Sylop) => HandRank::PureSabacc,
        (ResolvedValue::Sylop, ResolvedValue::Number(v)) => if markdown {
            HandRank::NonSabacc { difference: v }
        } else {
            HandRank::SylopSabacc { value: v }
        },
        (ResolvedValue::Number(v), ResolvedValue::Sylop) => if markdown {
            HandRank::NonSabacc { difference: v }
        } else {
            HandRank::SylopSabacc { value: v }
        },
        (ResolvedValue::Number(a), ResolvedValue::Number(b)) => if a == b {
            HandRank::Sabacc { pair_value: a }
        } else if a > b {
            HandRank::NonSabacc { difference: (a - b) as u8 }
        } else {
            HandRank::NonSabacc { difference: (b - a) as u8 }
        },
    }
}

/// The rank of a hand, or the error for a missing Impostor choice (Sand side first).
pub open spec fn spec_evaluate_hand(
    hand: Hand,
    choice: Option<ImpostorChoice>,
    modifiers: ActiveModifiers,
    player_id: PlayerId,
) -> Result<HandRank, GameError> {
    let s = spec_resolve_card_value(hand.sand.value, choice, true, modifiers.major_fraud_active, player_id);
    let b = spec_resolve_card_value(hand.blood.value, choice, false, modifiers.major_fraud_active, player_id);
    match s {
        Err(e) => Err(e),
        Ok(sv) => match b {
            Err(e) => Err(e),
            Ok(bv) => Ok(rank_of_values(sv, bv, modifiers.markdown_active)),
        },
    }
}

/// Deref an optional borrowed choice into an optional value.
pub open spec fn opt_choice(c: Option<&ImpostorChoice>) -> Option<ImpostorChoice> {
    match c {
        Some(r) => Some(*r),
        None => None,
    }
}

fn resolve_card_value(
    value: &CardValue,
    impostor_choice: Option<&ImpostorChoice>,
    is_sand: bool,
    modifiers: &ActiveModifiers,
    player_id: PlayerId,
) -> (res: Result<ResolvedValue, GameError>)
    ensures
        res == spec_resolve_card_value(
            *value,
            opt_choice(impostor_choice),
            is_sand,
            modifiers.major_fraud_active,
            player_id,
        ),
{
    match value {
        CardValue::Number(n) => Ok(ResolvedValue::Number(*n)),
        CardValue::Sylop => Ok(ResolvedValue::Sylop),
        CardValue::Impostor => {
            if modifiers.major_fraud_active {
                return Ok(ResolvedValue::Number(6));
            }
            let choice = match impostor_choice {
                Some(c) => c,
                None => {
                    return Err(GameError::ImpostorChoiceRequired { player_id });
                },
            };
            let side = if is_sand { choice.sand_choice } else { choice.blood_choice };
            match side {
                Some(v) => Ok(ResolvedValue::Number(v)),
                None => Err(GameError::ImpostorChoiceRequired { player_id: choice.player_id }),
            }
        },
    }
}

/// Evaluate a hand into a HandRank.
///
/// If the hand contains Impostors, an `ImpostorChoice` must be provided
/// with the chosen die values (unless MajorFraud is active). `player_id` is the
/// player the error names when no choice is given. Sylop behavior depends on
/// `ActiveModifiers`.
pub fn evaluate_hand(
    hand: &Hand,
    impostor_choice: Option<&ImpostorChoice>,
    modifiers: &ActiveModifiers,
    player_id: PlayerId,
) -> (res: Result<HandRank, GameError>)
    ensures
        res == spec_evaluate_hand(*hand, opt_choice(impostor_choice), *modifiers, player_id),
{
    let sand_value = resolve_card_value(&hand.sand.value, impostor_choice, true, modifiers, player_id)?;
    let blood_value = resolve_card_value(&hand.blood.value, impostor_choice, false, modifiers, player_id)?;
    match (sand_value, blood_value) {
        (ResolvedValue::Sylop, ResolvedValue::Sylop) => Ok(HandRank::PureSabacc),
        (ResolvedValue::Sylop, ResolvedValue::Number(v)) | (ResolvedValue::Number(v), ResolvedValue::Sylop) => {
            if modifiers.markdown_active {
                Ok(HandRank::NonSabacc { difference: v })
            } else {
                Ok(HandRank::SylopSabacc { value: v })
            }
        },
        (ResolvedValue::Number(a), ResolvedValue::Number(b)) => {
            if a == b {
                Ok(HandRank::Sabacc { pair_value: a })
            } else if a > b {
                Ok(HandRank::NonSabacc { difference: a - b })
            } else {
                Ok(HandRank::NonSabacc { difference: b - a })
            }
        },
    }
}

/// A rank can be inverted by CookTheBooks without leaving the 1..=6 scale (7 - pair).
pub open spec fn invertible(rank: HandRank) -> bool {
    rank matches HandRank::Sabacc { pair_value } ==> pair_value <= 7
}

/// The strength key under the active modifiers: CookTheBooks inverts the Sabacc tier
/// (a pair of p ranks as 7 - p); every other tier keeps its key.
pub open spec fn spec_adjusted_key(rank: HandRank, cook_the_books: bool) -> (u8, u8) {
    let k = rank.spec_strength_key();
    if cook_the_books && k.0 == 2 {
        (2, (7 - k.1) as u8)
    } else {
        k
    }
}

/// Get the strength key adjusted for CookTheBooks modifier.
fn adjusted_strength_key(rank: &HandRank, modifiers: &ActiveModifiers) -> (key: (u8, u8))
    requires
        modifiers.cook_the_books_active ==> invertible(*rank),
    ensures
        key == spec_adjusted_key(*rank, modifiers.cook_the_books_active),
{
    let (tier, sub) = rank.strength_key();
    if modifiers.cook_the_books_active && tier == 2 {
        (tier, 7 - sub)
    } else {
        (tier, sub)
    }
}

/// Compare two hand ranks. Returns Ordering where Less means `a` is stronger.
pub fn compare_ranks(a: &HandRank, b: &HandRank, modifiers: &ActiveModifiers) -> (o: std::cmp::Ordering)
    requires
        modifiers.cook_the_books_active ==> invertible(*a) && invertible(*b),
    ensures
        (o == std::cmp::Ordering::Less) == key_lt(
            spec_adjusted_key(*a, modifiers.cook_the_books_active),
            spec_adjusted_key(*b, modifiers.cook_the_books_active),
        ),
        (o == std::cmp::Ordering::Equal) == (spec_adjusted_key(*a, modifiers.cook_the_books_active)
            == spec_adjusted_key(*b, modifiers.cook_the_books_active)),
        (o == std::cmp::Ordering::Greater) == key_lt(
            spec_adjusted_key(*b, modifiers.cook_the_books_active),
            spec_adjusted_key(*a, modifiers.cook_the_books_active),
        ),
{
    let key_a = adjusted_strength_key(a, modifiers);
    let key_b = adjusted_strength_key(b, modifiers);
    if key_a.0 < key_b.0 || (key_a.0 == key_b.0 && key_a.1 < key_b.1) {
        std::cmp::Ordering::Less
    } else if key_a.0 == key_b.0 && key_a.1 == key_b.1 {
        std::cmp::Ordering::Equal
    } else {
        std::cmp::Ordering::Greater
    }
}

/// The rank a player is scored with: the PrimeSabacc player's hand is replaced by
/// PrimeSabacc with the chosen value; everyone else keeps their rank.
pub open spec fn effective_rank(player_id: PlayerId, rank: HandRank, modifiers: ActiveModifiers) -> HandRank {
    match modifiers.prime_sabacc {
        Some(p) => if p.player_id == player_id {
            HandRank::PrimeSabacc { value: p.chosen_value }
        } else {
            rank
        },
        None => rank,
    }
}

/// The penalty of a losing rank: 1 chip for any Sabacc rank, the difference otherwise.
pub open spec fn loss_penalty(rank: HandRank) -> u8 {
    match rank {
        HandRank::NonSabacc { difference } => difference,
        _ => 1,
    }
}

/// The scoring key of entry `i` of a round.
pub open spec fn entry_key(entries: Seq<(PlayerId, HandRank, u8)>, i: int, modifiers: ActiveModifiers) -> (u8, u8) {
    spec_adjusted_key(
        effective_rank(entries[i].0, entries[i].1, modifiers),
        modifiers.cook_the_books_active,
    )
}

/// Entry `i` has a key at least as strong as every entry of the round.
pub open spec fn is_best_entry(entries: Seq<(PlayerId, HandRank, u8)>, i: int, modifiers: ActiveModifiers) -> bool {
    forall|j: int| 0 <= j < entries.len() ==> key_le(entry_key(entries, i, modifiers), #[trigger] entry_key(entries, j, modifiers))
}

/// The result of entry `i`: winners are the entries with the strongest key (ties all win)
/// and pay nothing; losers pay the penalty of their (effective) rank.
pub open spec fn spec_round_result(entries: Seq<(PlayerId, HandRank, u8)>, i: int, modifiers: ActiveModifiers) -> RoundResult {
    let rank = effective_rank(entries[i].0, entries[i].1, modifiers);
    let winner = is_best_entry(entries, i, modifiers);
    RoundResult {
        player_id: entries[i].0,
        rank,
        invested: entries[i].2,
        is_winner: winner,
        penalty: if winner { 0 } else { loss_penalty(rank) },
    }
}

/// Every effective rank of the round can be inverted when CookTheBooks is on.
pub open spec fn round_invertible(entries: Seq<(PlayerId, HandRank, u8)>, modifiers: ActiveModifiers) -> bool {
    modifiers.cook_the_books_active ==> forall|i: int| 0 <= i < entries.len()
        ==> invertible(#[trigger] effective_rank(entries[i].0, entries[i].1, modifiers))
}

fn effective_rank_exec(player_id: PlayerId, rank: &HandRank, modifiers: &ActiveModifiers) -> (r: HandRank)
    ensures
        r == effective_rank(player_id, *rank, *modifiers),
{
    match &modifiers.prime_sabacc {
        Some(p) => if p.player_id == player_id {
            HandRank::PrimeSabacc { value: p.chosen_value }
        } else {
            *rank
        },
        None => *rank,
    }
}

/// Resolve the round: determine winners, assign penalties.
///
/// Input: list of (player_id, hand_rank, chips_invested) for all active players.
/// Returns a RoundResult for each player.
pub fn resolve_round(players: &[(PlayerId, HandRank, u8)], modifiers: &ActiveModifiers) -> (results: Vec<RoundResult>)
    requires
        round_invertible(players@, *modifiers),
    ensures
        results@.len() == players@.len(),
        forall|i: int| 0 <= i < players@.len() ==> #[trigger] results@[i] == spec_round_result(players@, i, *modifiers),
{
    let n = players.len();
    let mut results: Vec<RoundResult> = Vec::new();
    if n == 0 {
        return results;
    }
    // Find the best key.
    let mut best: (u8, u8) = (255, 255);
    let mut best_idx: usize = 0;
    let mut i: usize = 0;
    while i < n
        invariant
            n == players@.len(),
            n > 0,
            round_invertible(players@, *modifiers),
            i <= n,
            best_idx < n,
            i > 0 ==> best_idx < i && best == entry_key(players@, best_idx as int, *modifiers),
            forall|k: int| 0 <= k < i ==> key_le(best, #[trigger] entry_key(players@, k, *modifiers)),
        decreases n - i,
    {
        let entry = &players[i];
        let rank = effective_rank_exec(entry.0, &entry.1, modifiers);
        assert(modifiers.cook_the_books_active ==> invertible(
            effective_rank(players@[i as int].0, players@[i as int].1, *modifiers),
        ));
        let key = adjusted_strength_key(&rank, modifiers);
        assert(key == entry_key(players@, i as int, *modifiers));
        if i == 0 || key.0 < best.0 || (key.0 == best.0 && key.1 < best.1) {
            best = key;
            best_idx = i;
        }
        i = i + 1;
    }
    let mut i: usize = 0;
    while i < n
        invariant
            n == players@.len(),
            round_invertible(players@, *modifiers),
            i <= n,
            best_idx < n,
            best == entry_key(players@, best_idx as int, *modifiers),
            forall|k: int| 0 <= k < n ==> key_le(best, #[trigger] entry_key(players@, k, *modifiers)),
            results@.len() == i,
            forall|k: int| 0 <= k < i ==> #[trigger] results@[k] == spec_round_result(players@, k, *modifiers),
        decreases n - i,
    {
        let entry = &players[i];
        let rank = effective_rank_exec(entry.0, &entry.1, modifiers);
        assert(modifiers.cook_the_books_active ==> invertible(
            effective_rank(players@[i as int].0, players@[i as int].1, *modifiers),
        ));
        let key = adjusted_strength_key(&rank, modifiers);
        assert(key == entry_key(players@, i as int, *modifiers));
        let is_winner = key.0 == best.0 && key.1 == best.1;
        proof {
            if is_winner {
                assert forall|j: int| 0 <= j < players@.len() implies key_le(
                    entry_key(players@, i as int, *modifiers),
                    #[trigger] entry_key(players@, j, *modifiers),
                ) by {
                    assert(key_le(best, entry_key(players@, j, *modifiers)));
                }
            } else {
                assert(key_le(best, key));
                assert(!key_le(key, entry_key(players@, best_idx as int, *modifiers)));
            }
        }
        let penalty = if is_winner {
            0
        } else {
            match rank {
                HandRank::NonSabacc { difference } => difference,
                _ => 1,
            }
        };
        results.push(RoundResult { player_id: entry.0, rank, invested: entry.2, is_winner, penalty });
        i = i + 1;
    }
    results
}

/// In every non-empty round somebody wins, all winners share one key, every winner's
/// key is at least as strong as every other entry's, and winners pay no penalty.
pub proof fn lemma_round_has_winner(entries: Seq<(PlayerId, HandRank, u8)>, modifiers: ActiveModifiers)
    requires
        entries.len() > 0,
    ensures
        exists|i: int| 0 <= i < entries.len() && #[trigger] spec_round_result(entries, i, modifiers).is_winner,
        forall|i: int, j: int|
            0 <= i < entries.len() && 0 <= j < entries.len() && (#[trigger] spec_round_result(entries, i, modifiers)).is_winner
                ==> key_le(entry_key(entries, i, modifiers), #[trigger] entry_key(entries, j, modifiers)),
        forall|i: int, j: int|
            0 <= i < entries.len() && 0 <= j < entries.len()
                && (#[trigger] spec_round_result(entries, i, modifiers)).is_winner
                && (#[trigger] spec_round_result(entries, j, modifiers)).is_winner
                ==> entry_key(entries, i, modifiers) == entry_key(entries, j, modifiers),
        forall|i: int| 0 <= i < entries.len() && (#[trigger] spec_round_result(entries, i, modifiers)).is_winner
            ==> spec_round_result(entries, i, modifiers).penalty == 0,
{
    let w = lemma_min_entry_exists(entries, modifiers, entries.len() as int);
    assert(spec_round_result(entries, w, modifiers).is_winner);
}

/// Some entry among the first `n` has the strongest key among them.
proof fn lemma_min_entry_exists(entries: Seq<(PlayerId, HandRank, u8)>, modifiers: ActiveModifiers, n: int) -> (w: int)
    requires
        0 < n <= entries.len(),
    ensures
        0 <= w < n,
        forall|j: int| 0 <= j < n ==> key_le(entry_key(entries, w, modifiers), #[trigger] entry_key(entries, j, modifiers)),
    decreases n,
{
    if n == 1 {
        0
    } else {
        let w0 = lemma_min_entry_exists(entries, modifiers, n - 1);
        if key_lt(entry_key(entries, n - 1, modifiers), entry_key(entries, w0, modifiers)) {
            n - 1
        } else {
            w0
        }
    }
}

/// An Impostor counts as the die chosen for its own side: with MajorFraud off, a hand of
/// two Impostors takes `sand_choice` for the Sand card and `blood_choice` for the Blood
/// card, so it is a Sabacc of that value when the two choices agree and otherwise ranks
/// by the gap between them.
pub proof fn lemma_two_impostors_take_their_own_dice(
    hand: Hand,
    c: ImpostorChoice,
    modifiers: ActiveModifiers,
    player_id: PlayerId,
    a: u8,
    b: u8,
)
    requires
        hand.sand.value is Impostor,
        hand.blood.value is Impostor,
        !modifiers.major_fraud_active,
        c.sand_choice == Some(a),
        c.blood_choice == Some(b),
    ensures
        a == b ==> spec_evaluate_hand(hand, Some(c), modifiers, player_id) == Ok::<HandRank, GameError>(
            HandRank::Sabacc { pair_value: a },
        ),
        a > b ==> spec_evaluate_hand(hand, Some(c), modifiers, player_id) == Ok::<HandRank, GameError>(
            HandRank::NonSabacc { difference: (a - b) as u8 },
        ),
        a < b ==> spec_evaluate_hand(hand, Some(c), modifiers, player_id) == Ok::<HandRank, GameError>(
            HandRank::NonSabacc { difference: (b - a) as u8 },
        ),
{
}

/// A Blood Impostor beside a numbered Sand card counts as `blood_choice`, whatever the
/// Sand side of the choice holds (MajorFraud off).
pub proof fn lemma_blood_impostor_takes_blood_die(
    hand: Hand,
    c: ImpostorChoice,
    modifiers: ActiveModifiers,
    player_id: PlayerId,
    n: u8,
    b: u8,
)
    requires
        hand.sand.value == CardValue::Number(n),
        hand.blood.value is Impostor,
        !modifiers.major_fraud_active,
        c.blood_choice == Some(b),
    ensures
        n == b ==> spec_evaluate_hand(hand, Some(c), modifiers, player_id) == Ok::<HandRank, GameError>(
            HandRank::Sabacc { pair_value: n },
        ),
        n > b ==> spec_evaluate_hand(hand, Some(c), modifiers, player_id) == Ok::<HandRank, GameError>(
            HandRank::NonSabacc { difference: (n - b) as u8 },
        ),
        n < b ==> spec_evaluate_hand(hand, Some(c), modifiers, player_id) == Ok::<HandRank, GameError>(
            HandRank::NonSabacc { difference: (b - n) as u8 },
        ),
{
}

/// A Sand Impostor beside a numbered Blood card counts as `sand_choice`, whatever the
/// Blood side of the choice holds (MajorFraud off).
pub proof fn lemma_sand_impostor_takes_sand_die(
    hand: Hand,
    c: ImpostorChoice,
    modifiers: ActiveModifiers,
    player_id: PlayerId,
    a: u8,
    n: u8,
)
    requires
        hand.sand.value is Impostor,
        hand.blood.value == CardValue::Number(n),
        !modifiers.major_fraud_active,
        c.sand_choice == Some(a),
    ensures
        a == n ==> spec_evaluate_hand(hand, Some(c), modifiers, player_id) == Ok::<HandRank, GameError>(
            HandRank::Sabacc { pair_value: a },
        ),
        a > n ==> spec_evaluate_hand(hand, Some(c), modifiers, player_id) == Ok::<HandRank, GameError>(
            HandRank::NonSabacc { difference: (a - n) as u8 },
        ),
        a < n ==> spec_evaluate_hand(hand, Some(c), modifiers, player_id) == Ok::<HandRank, GameError>(
            HandRank::NonSabacc { difference: (n - a) as u8 },
        ),
{
}

/// Under MajorFraud every Impostor counts as 6, whatever was chosen or whether anything
/// was: two Impostors are a Sabacc of 6, and an Impostor beside a numbered card ranks by
/// that card's gap from 6.
pub proof fn lemma_major_fraud_impostors_count_six(
    hand: Hand,
    choice: Option<ImpostorChoice>,
    modifiers: ActiveModifiers,
    player_id: PlayerId,
    n: u8,
)
    requires
        modifiers.major_fraud_active,
    ensures
        hand.sand.value is Impostor && hand.blood.value is Impostor ==> spec_evaluate_hand(
            hand,
            choice,
            modifiers,
            player_id,
        ) == Ok::<HandRank, GameError>(HandRank::Sabacc { pair_value: 6 }),
        hand.sand.value == CardValue::Number(n) && hand.blood.value is Impostor ==> spec_evaluate_hand(
            hand,
            choice,
            modifiers,
            player_id,
        ) == Ok::<HandRank, GameError>(
            if n == 6 {
                HandRank::Sabacc { pair_value: 6 }
            } else if n > 6 {
                HandRank::NonSabacc { difference: (n - 6) as u8 }
            } else {
                HandRank::NonSabacc { difference: (6 - n) as u8 }
            },
        ),
        hand.sand.value is Impostor && hand.blood.value == CardValue::Number(n) ==> spec_evaluate_hand(
            hand,
            choice,
            modifiers,
            player_id,
        ) == Ok::<HandRank, GameError>(
            if n == 6 {
                HandRank::Sabacc { pair_value: 6 }
            } else if n > 6 {
                HandRank::NonSabacc { difference: (n - 6) as u8 }
            } else {
                HandRank::NonSabacc { difference: (6 - n) as u8 }
            },
        ),
{
}

} // verus!
