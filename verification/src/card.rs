//! Cards of the two Sabacc families.

use vstd::prelude::*;

verus! {

/// The two card families in Kessel Sabacc.
#[derive(Debug, Clone, Copy, PartialEq, Eq, Hash, Structural)]
pub enum Family {
    /// Sand cards, represented in amber/gold.
    Sand,
    /// Blood cards, represented in red.
    Blood,
}

/// The value of a card.
#[derive(Debug, Clone, Copy, PartialEq, Eq, Structural)]
pub enum CardValue {
    /// A numbered card with value 1-6.
    Number(u8),
    /// Sylop: takes the value of the other card in hand (effectively 0 difference).
    Sylop,
    /// Impostor: value determined by dice roll at revelation.
    Impostor,
}

/// A single Sabacc card.
#[derive(Debug, Clone, Copy, PartialEq, Eq, Structural)]
pub struct Card {
    /// Which family this card belongs to.
    pub family: Family,
    /// The value of this card.
    pub value: CardValue,
}

impl Card {
    /// Create a new numbered card.
    pub fn number(family: Family, n: u8) -> (card: Card)
        ensures
            card == (Card { family, value: CardValue::Number(n) }),
    {
        Card { family, value: CardValue::Number(n) }
    }

    /// Create a new Sylop card.
    pub fn sylop(family: Family) -> (card: Card)
        ensures
            card == (Card { family, value: CardValue::Sylop }),
    {
        Card { family, value: CardValue::Sylop }
    }

    /// Create a new Impostor card.
    pub fn impostor(family: Family) -> (card: Card)
        ensures
            card == (Card { family, value: CardValue::Impostor }),
    {
        Card { family, value: CardValue::Impostor }
    }
}

} // verus!
