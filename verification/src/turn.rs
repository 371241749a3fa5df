//! Turn actions: drawing from one of four sources, or standing.

use vstd::prelude::*;

use crate::card::Family;

verus! {

/// Source from which a player can draw a card.
#[derive(Debug, Clone, Copy, PartialEq, Eq, Structural)]
pub enum DrawSource {
    /// Draw from the Sand deck (face-down).
    SandDeck,
    /// Draw from the Blood deck (face-down).
    BloodDeck,
    /// Draw from the Sand discard pile (face-up, top card).
    SandDiscard,
    /// Draw from the Blood discard pile (face-up, top card).
    BloodDiscard,
}

impl DrawSource {
    /// The family a source deals from.
    pub open spec fn spec_family(self) -> Family {
        match self {
            DrawSource::SandDeck | DrawSource::SandDiscard => Family::Sand,
            DrawSource::BloodDeck | DrawSource::BloodDiscard => Family::Blood,
        }
    }

    /// Whether a source is one of the two face-up discard piles.
    pub open spec fn spec_is_discard(self) -> bool {
        self is SandDiscard || self is BloodDiscard
    }

    /// Get the family associated with this draw source.
    pub fn family(&self) -> (f: Family)
        ensures
            f == self.spec_family(),
    {
        match self {
            DrawSource::SandDeck | DrawSource::SandDiscard => Family::Sand,
            DrawSource::BloodDeck | DrawSource::BloodDiscard => Family::Blood,
        }
    }

    /// Whether this source draws from the discard pile.
    pub fn is_discard(&self) -> (b: bool)
        ensures
            b == self.spec_is_discard(),
    {
        match self {
            DrawSource::SandDiscard | DrawSource::BloodDiscard => true,
            _ => false,
        }
    }
}

/// What to do with the drawn card: keep it or discard it.
#[derive(Debug, Clone, Copy, PartialEq, Eq, Structural)]
pub enum DiscardChoice {
    /// Keep the drawn card, discard the card currently in hand.
    KeepDrawn,
    /// Discard the drawn card, keep the card currently in hand.
    DiscardDrawn,
}

/// An action a player can take during their turn.
#[derive(Debug, Clone, Copy, PartialEq, Eq, Structural)]
pub enum TurnAction {
    /// Draw a card from the specified source. Costs 1 chip.
    Draw(DrawSource),
    /// Stand: do nothing. Free.
    Stand,
}

} // verus!
