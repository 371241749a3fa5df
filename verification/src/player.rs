//! Players: chip reserve, chips invested in the current round, hand and tokens.

use vstd::prelude::*;

use crate::error::GameError;
use crate::hand::Hand;
use crate::shift_token::ShiftToken;
use crate::PlayerId;

verus! {

/// A player in the Sabacc game.
#[derive(Debug, Clone, PartialEq)]
pub struct Player {
    /// Unique player identifier.
    pub id: PlayerId,
    /// Display name.
    pub name: String,
    /// Remaining chips (reserve).
    pub chips: u8,
    /// Chips invested in the current round.
    pub pot: u8,
    /// The player's current hand (None before dealing).
    pub hand: Option<Hand>,
    /// Available shift tokens.
    pub shift_tokens: Vec<ShiftToken>,
    /// Whether this player has been eliminated.
    pub is_eliminated: bool,
    /// Whether this player is a bot.
    pub is_bot: bool,
}

/// Whether some token of the sequence has the same kind as `t`.
pub open spec fn holds_kind(s: Seq<ShiftToken>, t: ShiftToken) -> bool {
    exists|i: int| 0 <= i < s.len() && (#[trigger] s[i]).kind() == t.kind()
}

/// `i` is the first position of the sequence that holds a token of the same kind as `t`.
pub open spec fn is_first_of_kind(s: Seq<ShiftToken>, t: ShiftToken, i: int) -> bool {
    &&& 0 <= i < s.len()
    &&& s[i].kind() == t.kind()
    &&& forall|j: int| 0 <= j < i ==> (#[trigger] s[j]).kind() != t.kind()
}

impl Player {
    /// Reserve plus invested chips, as a mathematical integer.
    pub open spec fn spec_total_chips(self) -> int {
        self.chips + self.pot
    }

    /// Create a new player with the given id, name, and starting chips.
    pub fn new(id: PlayerId, name: String, chips: u8, is_bot: bool) -> (p: Player)
        ensures
            p.id == id,
            p.name == name,
            p.chips == chips,
            p.pot == 0,
            p.hand is None,
            p.shift_tokens@ == Seq::<ShiftToken>::empty(),
            !p.is_eliminated,
            p.is_bot == is_bot,
    {
        Player {
            id,
            name,
            chips,
            pot: 0,
            hand: None,
            shift_tokens: Vec::new(),
            is_eliminated: false,
            is_bot,
        }
    }

    /// Pay one chip from reserve to pot (e.g., for drawing).
    pub fn pay_chip(&mut self) -> (res: Result<(), GameError>)
        requires
            old(self).chips == 0 || old(self).pot < u8::MAX,
        ensures
            res is Ok <==> old(self).chips > 0,
            res is Ok ==> *final(self) == (Player {
                chips: (old(self).chips - 1) as u8,
                pot: (old(self).pot + 1) as u8,
                ..*old(self)
            }),
            res is Err ==> *final(self) == *old(self) && res == Err::<(), GameError>(
                GameError::InsufficientChips { player_id: old(self).id, available: 0, required: 1 },
            ),
    {
        if self.chips == 0 {
            return Err(GameError::InsufficientChips { player_id: self.id, available: 0, required: 1 });
        }
        self.chips = self.chips - 1;
        self.pot = self.pot + 1;
        Ok(())
    }

    /// Return all invested chips back to reserve (winner of the round).
    pub fn return_invested(&mut self)
        requires
            old(self).chips + old(self).pot <= u8::MAX,
        ensures
            *final(self) == (Player {
                chips: (old(self).chips + old(self).pot) as u8,
                pot: 0,
                ..*old(self)
            }),
    {
        self.chips = self.chips + self.pot;
        self.pot = 0;
    }

    /// The player after a penalty of `amount` chips: chips are destroyed, and a player
    /// who cannot pay in full loses all remaining chips and is eliminated.
    pub open spec fn after_penalty(self, amount: u8) -> Player {
        if amount >= self.chips {
            Player { chips: 0, is_eliminated: true, ..self }
        } else {
            Player { chips: (self.chips - amount) as u8, ..self }
        }
    }

    /// Apply a penalty: lose `amount` chips from reserve. Chips are destroyed.
    /// If the player doesn't have enough chips, they lose all remaining
    /// and are eliminated.
    pub fn apply_penalty(&mut self, amount: u8)
        ensures
            *final(self) == old(self).after_penalty(amount),
    {
        if amount >= self.chips {
            self.chips = 0;
            self.is_eliminated = true;
        } else {
            self.chips = self.chips - amount;
        }
    }

    /// Total chips this player has (reserve + invested).
    pub fn total_chips(&self) -> (t: u8)
        requires
            self.chips + self.pot <= u8::MAX,
        ensures
            t == self.spec_total_chips(),
    {
        self.chips + self.pot
    }

    /// Check if the player has a token of the given type.
    pub fn has_token(&self, token: &ShiftToken) -> (b: bool)
        ensures
            b == holds_kind(self.shift_tokens@, *token),
    {
        let mut i: usize = 0;
        while i < self.shift_tokens.len()
            invariant
                i <= self.shift_tokens.len(),
                forall|j: int| 0 <= j < i ==> (#[trigger] self.shift_tokens@[j]).kind() != token.kind(),
            decreases self.shift_tokens.len() - i,
        {
            if self.shift_tokens[i].matches_type(token) {
                return true;
            }
            i = i + 1;
        }
        false
    }

    /// Remove a token of the given type from the player's inventory.
    pub fn remove_token(&mut self, token: &ShiftToken) -> (res: Result<(), GameError>)
        ensures
            res is Ok <==> holds_kind(old(self).shift_tokens@, *token),
            res is Ok ==> exists|i: int|
                is_first_of_kind(old(self).shift_tokens@, *token, i)
                && final(self).shift_tokens@ == old(self).shift_tokens@.remove(i),
            res is Err ==> final(self).shift_tokens@ == old(self).shift_tokens@
                && res == Err::<(), GameError>(GameError::ShiftTokenNotOwned { player_id: old(self).id }),
            final(self).id == old(self).id,
            final(self).name == old(self).name,
            final(self).chips == old(self).chips,
            final(self).pot == old(self).pot,
            final(self).hand == old(self).hand,
            final(self).is_eliminated == old(self).is_eliminated,
            final(self).is_bot == old(self).is_bot,
    {
        let mut i: usize = 0;
        while i < self.shift_tokens.len()
            invariant
                i <= self.shift_tokens.len(),
                self.shift_tokens@ == old(self).shift_tokens@,
                self.id == old(self).id,
                self.name == old(self).name,
                self.chips == old(self).chips,
                self.pot == old(self).pot,
                self.hand == old(self).hand,
                self.is_eliminated == old(self).is_eliminated,
                self.is_bot == old(self).is_bot,
                forall|j: int| 0 <= j < i ==> (#[trigger] self.shift_tokens@[j]).kind() != token.kind(),
            decreases self.shift_tokens.len() - i,
        {
            if self.shift_tokens[i].matches_type(token) {
                self.shift_tokens.remove(i);
                assert(is_first_of_kind(old(self).shift_tokens@, *token, i as int));
                return Ok(());
            }
            i = i + 1;
        }
        Err(GameError::ShiftTokenNotOwned { player_id: self.id })
    }

    /// Refund chips from pot back to reserve. Returns actual amount refunded.
    pub fn refund_chips(&mut self, amount: u8) -> (refunded: u8)
        requires
            old(self).chips + (if amount < old(self).pot { amount } else { old(self).pot }) <= u8::MAX,
        ensures
            refunded == (if amount < old(self).pot { amount } else { old(self).pot }),
            *final(self) == (Player {
                chips: (old(self).chips + refunded) as u8,
                pot: (old(self).pot - refunded) as u8,
                ..*old(self)
            }),
    {
        let refunded = if amount < self.pot { amount } else { self.pot };
        self.pot = self.pot - refunded;
        self.chips = self.chips + refunded;
        refunded
    }
}

/// Paying a chip and refunding it leaves the player's total unchanged, and paying moves
/// exactly one chip from the reserve to the pot.
pub proof fn lemma_pay_and_refund_keep_total(p: Player, amount: u8)
    requires
        p.chips > 0,
        p.pot < u8::MAX,
    ensures
        (Player { chips: (p.chips - 1) as u8, pot: (p.pot + 1) as u8, ..p }).spec_total_chips()
            == p.spec_total_chips(),
{
}

/// A penalty never raises the reserve, leaves the pot alone, and eliminates exactly
/// when the reserve cannot cover it.
pub proof fn lemma_penalty_effect(p: Player, amount: u8)
    ensures
        p.after_penalty(amount).chips <= p.chips,
        p.after_penalty(amount).pot == p.pot,
        p.after_penalty(amount).chips == (if amount >= p.chips { 0 } else { p.chips - amount }),
        p.after_penalty(amount).is_eliminated == (p.is_eliminated || amount >= p.chips),
{
}

} // verus!

verus! {

/// `i` is the first player of `s` with id `player_id`.
pub open spec fn is_first_player(s: Seq<Player>, player_id: PlayerId, i: int) -> bool {
    &&& 0 <= i < s.len()
    &&& s[i].id == player_id
    &&& forall|j: int| 0 <= j < i ==> (#[trigger] s[j]).id != player_id
}

/// The position of the first player with id `player_id`, or -1 when there is none.
pub open spec fn player_index(s: Seq<Player>, player_id: PlayerId) -> int {
    if exists|i: int| is_first_player(s, player_id, i) {
        choose|i: int| is_first_player(s, player_id, i)
    } else {
        -1
    }
}

/// Two player sequences hold the same ids, position by position.
pub open spec fn same_ids(a: Seq<Player>, b: Seq<Player>) -> bool {
    &&& a.len() == b.len()
    &&& forall|k: int| 0 <= k < a.len() ==> (#[trigger] b[k]).id == a[k].id
}

/// The first player with a given id is unique, and `player_index` finds it.
pub proof fn lemma_player_index(s: Seq<Player>, player_id: PlayerId)
    ensures
        player_index(s, player_id) == -1 <==> (forall|j: int| 0 <= j < s.len() ==> (#[trigger] s[j]).id != player_id),
        player_index(s, player_id) != -1 ==> is_first_player(s, player_id, player_index(s, player_id)),
        forall|i: int| is_first_player(s, player_id, i) ==> player_index(s, player_id) == i,
{
    if exists|i: int| is_first_player(s, player_id, i) {
        let k = choose|i: int| is_first_player(s, player_id, i);
        assert forall|i: int| is_first_player(s, player_id, i) implies k == i by {
            if k < i {
                assert(s[k].id != player_id);
            } else if i < k {
                assert(s[i].id != player_id);
            }
        }
    } else {
        assert forall|j: int| 0 <= j < s.len() implies (#[trigger] s[j]).id != player_id by {
            if s[j].id == player_id {
                let m = lemma_some_first(s, player_id, j);
            }
        }
    }
}

/// When some player has the id, a first one exists.
proof fn lemma_some_first(s: Seq<Player>, player_id: PlayerId, j: int) -> (m: int)
    requires
        0 <= j < s.len(),
        s[j].id == player_id,
    ensures
        is_first_player(s, player_id, m),
    decreases j,
{
    if exists|i: int| 0 <= i < j && s[i].id == player_id {
        let i = choose|i: int| 0 <= i < j && s[i].id == player_id;
        lemma_some_first(s, player_id, i)
    } else {
        j
    }
}

/// Sequences with the same ids find the same first player for every id.
pub proof fn lemma_player_index_same_ids(a: Seq<Player>, b: Seq<Player>, player_id: PlayerId)
    requires
        same_ids(a, b),
    ensures
        player_index(a, player_id) == player_index(b, player_id),
{
    lemma_player_index(a, player_id);
    lemma_player_index(b, player_id);
    if player_index(a, player_id) != -1 {
        let k = player_index(a, player_id);
        assert forall|j: int| 0 <= j < k implies (#[trigger] b[j]).id != player_id by {
            assert(a[j].id != player_id);
        }
        assert(is_first_player(b, player_id, k));
    } else {
        assert forall|j: int| 0 <= j < b.len() implies (#[trigger] b[j]).id != player_id by {
            assert(a[j].id != player_id);
        }
    }
}

/// Find the position of the first player with a given id.
pub fn find_player_index(players: &Vec<Player>, player_id: PlayerId) -> (r: Option<usize>)
    ensures
        r matches Some(i) ==> player_index(players@, player_id) == i,
        r is None ==> player_index(players@, player_id) == -1,
{
    proof {
        lemma_player_index(players@, player_id);
    }
    let mut i: usize = 0;
    while i < players.len()
        invariant
            i <= players@.len(),
            forall|j: int| 0 <= j < i ==> (#[trigger] players@[j]).id != player_id,
        decreases players.len() - i,
    {
        if players[i].id == player_id {
            assert(is_first_player(players@, player_id, i as int));
            return Some(i);
        }
        i = i + 1;
    }
    None
}

} // verus!
