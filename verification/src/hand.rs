//! Hands (one Sand card and one Blood card) and hand ranks.

use vstd::prelude::*;

use crate::card::{Card, Family};
use crate::error::GameError;

verus! {

/// A player's hand: exactly one Sand card and one Blood card.
#[derive(Debug, Clone, Copy, PartialEq, Eq, Structural)]
pub struct Hand {
    /// The Sand family card.
    pub sand: Card,
    /// The Blood family card.
    pub blood: Card,
}

impl Hand {
    /// A hand holds its Sand card on the Sand side and its Blood card on the Blood side.
    pub open spec fn wf(self) -> bool {
        &&& self.sand.family == Family::Sand
        &&& self.blood.family == Family::Blood
    }

    /// Create a new hand, validating that sand is Sand and blood is Blood.
    pub fn new(sand: Card, blood: Card) -> (res: Result<Hand, GameError>)
        ensures
            res is Ok <==> (sand.family == Family::Sand && blood.family == Family::Blood),
            res matches Ok(h) ==> h == (Hand { sand, blood }) && h.wf(),
            res matches Err(e) ==> e == (GameError::InvalidHand {
                sand_family: sand.family,
                blood_family: blood.family,
            }),
    {
        if sand.family != Family::Sand || blood.family != Family::Blood {
            return Err(GameError::InvalidHand { sand_family: sand.family, blood_family: blood.family });
        }
        Ok(Hand { sand, blood })
    }
}

/// The ranking of a hand, from strongest to weakest.
#[derive(Debug, Clone, Copy, PartialEq, Eq, Structural)]
pub enum HandRank {
    /// Two Sylops (Sand Sylop + Blood Sylop) — strongest hand.
    PureSabacc,
    /// A hand overridden by the PrimeSabacc shift token: second only to Pure Sabacc.
    PrimeSabacc {
        /// The die value chosen by the player.
        value: u8,
    },
    /// One Sylop + one numbered card — the Sylop copies the number, yielding 0 difference.
    SylopSabacc {
        /// The value of the numbered card.
        value: u8,
    },
    /// Two cards with the same numeric value — 0 difference.
    /// Lower pair_value beats higher (1/1 > 6/6).
    Sabacc {
        /// The matched pair value.
        pair_value: u8,
    },
    /// Cards with different values — ranked by how close to 0 the difference is.
    NonSabacc {
        /// Absolute difference between the two card values.
        difference: u8,
    },
}

/// Lexicographic "strictly stronger" on strength keys: a lower key is a stronger hand.
pub open spec fn key_lt(a: (u8, u8), b: (u8, u8)) -> bool {
    a.0 < b.0 || (a.0 == b.0 && a.1 < b.1)
}

/// Lexicographic "at least as strong" on strength keys.
pub open spec fn key_le(a: (u8, u8), b: (u8, u8)) -> bool {
    key_lt(a, b) || a == b
}

impl HandRank {
    /// The comparison key of a rank: (tier, sub-value), lower is stronger.
    pub open spec fn spec_strength_key(self) -> (u8, u8) {
        match self {
            HandRank::PureSabacc => (0, 0),
            HandRank::PrimeSabacc { .. } => (0, 1),
            HandRank::SylopSabacc { value } => (1, value),
            HandRank::Sabacc { pair_value } => (2, pair_value),
            HandRank::NonSabacc { difference } => (3, difference),
        }
    }

    /// Whether the rank is one of the zero-difference (Sabacc) ranks.
    pub open spec fn is_sabacc(self) -> bool {
        !(self is NonSabacc)
    }

    /// Return a comparable key where lower values are stronger hands.
    ///
    /// Layout: (tier, sub_value)
    /// - PureSabacc: (0, 0)
    /// - PrimeSabacc: (0, 1)
    /// - SylopSabacc: (1, value)
    /// - Sabacc: (2, pair_value)
    /// - NonSabacc: (3, difference)
    pub fn strength_key(&self) -> (key: (u8, u8))
        ensures
            key == self.spec_strength_key(),
    {
        match self {
            HandRank::PureSabacc => (0, 0),
            HandRank::PrimeSabacc { .. } => (0, 1),
            HandRank::SylopSabacc { value } => (1, *value),
            HandRank::Sabacc { pair_value } => (2, *pair_value),
            HandRank::NonSabacc { difference } => (3, *difference),
        }
    }
}

/// Every Sabacc rank beats every non-Sabacc rank, and Pure Sabacc beats every other rank.
pub proof fn lemma_sabacc_beats_non_sabacc(a: HandRank, b: HandRank)
    ensures
        a.is_sabacc() && !b.is_sabacc() ==> key_lt(a.spec_strength_key(), b.spec_strength_key()),
        a is PureSabacc && !(b is PureSabacc) ==> key_lt(a.spec_strength_key(), b.spec_strength_key()),
{
}

/// The strength order is a strict total order on keys.
pub proof fn lemma_key_order_total(a: (u8, u8), b: (u8, u8), c: (u8, u8))
    ensures
        !key_lt(a, a),
        key_lt(a, b) ==> !key_lt(b, a),
        key_lt(a, b) && key_lt(b, c) ==> key_lt(a, c),
        key_lt(a, b) || key_lt(b, a) || a == b,
{
}

} // verus!
