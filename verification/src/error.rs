//! Errors reported by the game engine.

use vstd::prelude::*;

use crate::card::Family;
use crate::text::{decimal, push_decimal, text_with_number};
use crate::PlayerId;

verus! {

/// All possible errors that can occur during a Sabacc game.
#[derive(Debug, Clone, PartialEq)]
pub enum GameError {
    /// The attempted action is not valid in the current game phase.
    InvalidActionForPhase { reason: String },
    /// The specified player was not found.
    PlayerNotFound { player_id: PlayerId },
    /// It is not this player's turn.
    NotPlayerTurn { player_id: PlayerId },
    /// The player does not have enough chips.
    InsufficientChips { player_id: PlayerId, available: u8, required: u8 },
    /// The deck is empty and cannot be reshuffled.
    DeckExhausted { family: Family },
    /// The discard pile is empty, cannot draw from it.
    DiscardEmpty { family: Family },
    /// Invalid card value (must be 1-6 for numbered cards).
    InvalidCardNumber { value: u8 },
    /// A hand must contain exactly one Sand and one Blood card.
    InvalidHand { sand_family: Family, blood_family: Family },
    /// The player has already been eliminated.
    PlayerEliminated { player_id: PlayerId },
    /// Impostor choice is required but not provided.
    ImpostorChoiceRequired { player_id: PlayerId },
    /// The chosen die value is not available from the dice roll.
    InvalidDieChoice { chosen: u8, die1: u8, die2: u8 },
    /// Invalid game configuration.
    InvalidConfig { reason: String },
    /// Shift tokens are not enabled in this game configuration.
    ShiftTokensDisabled,
    /// A shift token was already played by this player this turn.
    ShiftTokenAlreadyPlayed,
    /// The player does not own a shift token of that type.
    ShiftTokenNotOwned { player_id: PlayerId },
    /// The target of a shift token is not valid.
    InvalidTokenTarget { player_id: PlayerId, reason: String },
    /// A refund token needs at least one invested chip.
    NoInvestedChips { player_id: PlayerId },
    /// The PrimeSabacc value is not one of the two dice.
    InvalidPrimeSabaccChoice { chosen: u8, die1: u8, die2: u8 },
}

/// The name of a family as messages write it.
pub open spec fn family_text(f: Family) -> Seq<char> {
    match f {
        Family::Sand => "Sand"@,
        Family::Blood => "Blood"@,
    }
}

fn family_str(f: Family) -> (s: &'static str)
    ensures
        s@ == family_text(f),
{
    match f {
        Family::Sand => "Sand",
        Family::Blood => "Blood",
    }
}

impl GameError {
    /// The message that reports the error.
    pub open spec fn spec_message(self) -> Seq<char> {
        match self {
            GameError::InvalidActionForPhase { reason } => "invalid action for current phase: "@ + reason@,
            GameError::PlayerNotFound { player_id } => "player "@ + decimal(player_id as nat) + " not found"@,
            GameError::NotPlayerTurn { player_id } => "not player "@ + decimal(player_id as nat) + "'s turn"@,
            GameError::InsufficientChips { player_id, available, required } => "player "@ + decimal(player_id as nat)
                + " has insufficient chips ("@ + decimal(available as nat) + " < "@ + decimal(required as nat) + ")"@,
            GameError::DeckExhausted { family } => family_text(family)
                + " deck is empty and discard pile has no cards to reshuffle"@,
            GameError::DiscardEmpty { family } => family_text(family) + " discard pile is empty"@,
            GameError::InvalidCardNumber { value } => "invalid card number: "@ + decimal(value as nat)
                + " (must be 1-6)"@,
            GameError::InvalidHand { sand_family, blood_family } => "invalid hand: sand card has family "@
                + family_text(sand_family) + ", blood card has family "@ + family_text(blood_family),
            GameError::PlayerEliminated { player_id } => "player "@ + decimal(player_id as nat) + " is eliminated"@,
            GameError::ImpostorChoiceRequired { player_id } => "impostor choice required for player "@ + decimal(
                player_id as nat,
            ),
            GameError::InvalidDieChoice { chosen, die1, die2 } => "die value "@ + decimal(chosen as nat)
                + " not available from roll ("@ + decimal(die1 as nat) + ", "@ + decimal(die2 as nat) + ")"@,
            GameError::InvalidConfig { reason } => "invalid config: "@ + reason@,
            GameError::ShiftTokensDisabled => "shift tokens are not enabled"@,
            GameError::ShiftTokenAlreadyPlayed => "a shift token was already played this turn"@,
            GameError::ShiftTokenNotOwned { player_id } => "player "@ + decimal(player_id as nat)
                + " does not hold that shift token"@,
            GameError::InvalidTokenTarget { player_id, reason } => "invalid target for player "@ + decimal(
                player_id as nat,
            ) + ": "@ + reason@,
            GameError::NoInvestedChips { player_id } => "player "@ + decimal(player_id as nat)
                + " has no invested chips"@,
            GameError::InvalidPrimeSabaccChoice { chosen, die1, die2 } => "PrimeSabacc value "@ + decimal(
                chosen as nat,
            ) + " not available from roll ("@ + decimal(die1 as nat) + ", "@ + decimal(die2 as nat) + ")"@,
        }
    }

    /// The message that reports the error.
    pub fn message(&self) -> (m: String)
        ensures
            m@ == self.spec_message(),
    {
        match self {
            GameError::InvalidActionForPhase { reason } => {
                let mut m = "invalid action for current phase: ".to_owned();
                m.append(reason.as_str());
                m
            },
            GameError::PlayerNotFound { player_id } => {
                let mut m = text_with_number("player ", *player_id as usize);
                m.append(" not found");
                m
            },
            GameError::NotPlayerTurn { player_id } => {
                let mut m = text_with_number("not player ", *player_id as usize);
                m.append("'s turn");
                m
            },
            GameError::InsufficientChips { player_id, available, required } => {
                let mut m = text_with_number("player ", *player_id as usize);
                m.append(" has insufficient chips (");
                push_decimal(&mut m, *available as usize);
                m.append(" < ");
                push_decimal(&mut m, *required as usize);
                m.append(")");
                m
            },
            GameError::DeckExhausted { family } => {
                let mut m = family_str(*family).to_owned();
                m.append(" deck is empty and discard pile has no cards to reshuffle");
                m
            },
            GameError::DiscardEmpty { family } => {
                let mut m = family_str(*family).to_owned();
                m.append(" discard pile is empty");
                m
            },
            GameError::InvalidCardNumber { value } => {
                let mut m = text_with_number("invalid card number: ", *value as usize);
                m.append(" (must be 1-6)");
                m
            },
            GameError::InvalidHand { sand_family, blood_family } => {
                let mut m = "invalid hand: sand card has family ".to_owned();
                m.append(family_str(*sand_family));
                m.append(", blood card has family ");
                m.append(family_str(*blood_family));
                m
            },
            GameError::PlayerEliminated { player_id } => {
                let mut m = text_with_number("player ", *player_id as usize);
                m.append(" is eliminated");
                m
            },
            GameError::ImpostorChoiceRequired { player_id } => text_with_number(
                "impostor choice required for player ",
                *player_id as usize,
            ),
            GameError::InvalidDieChoice { chosen, die1, die2 } => {
                let mut m = text_with_number("die value ", *chosen as usize);
                m.append(" not available from roll (");
                push_decimal(&mut m, *die1 as usize);
                m.append(", ");
                push_decimal(&mut m, *die2 as usize);
                m.append(")");
                m
            },
            GameError::InvalidConfig { reason } => {
                let mut m = "invalid config: ".to_owned();
                m.append(reason.as_str());
                m
            },
            GameError::ShiftTokensDisabled => "shift tokens are not enabled".to_owned(),
            GameError::ShiftTokenAlreadyPlayed => "a shift token was already played this turn".to_owned(),
            GameError::ShiftTokenNotOwned { player_id } => {
                let mut m = text_with_number("player ", *player_id as usize);
                m.append(" does not hold that shift token");
                m
            },
            GameError::InvalidTokenTarget { player_id, reason } => {
                let mut m = text_with_number("invalid target for player ", *player_id as usize);
                m.append(": ");
                m.append(reason.as_str());
                m
            },
            GameError::NoInvestedChips { player_id } => {
                let mut m = text_with_number("player ", *player_id as usize);
                m.append(" has no invested chips");
                m
            },
            GameError::InvalidPrimeSabaccChoice { chosen, die1, die2 } => {
                let mut m = text_with_number("PrimeSabacc value ", *chosen as usize);
                m.append(" not available from roll (");
                push_decimal(&mut m, *die1 as usize);
                m.append(", ");
                push_decimal(&mut m, *die2 as usize);
                m.append(")");
                m
            },
        }
    }
}

} // verus!
