//! The sixteen shift tokens of Kessel Sabacc.

use vstd::prelude::*;

use crate::PlayerId;

verus! {

/// The 16 different shift tokens available in Kessel Sabacc.
///
/// Each shift token can only be used once per game (not per round),
/// before a Draw or Stand action.
#[derive(Debug, Clone, Copy, PartialEq, Eq, Structural)]
pub enum ShiftToken {
    /// Draw without paying 1 chip this turn.
    FreeDraw,
    /// Recover 2 invested chips this turn (minimum 1 invested).
    Refund,
    /// Recover 3 invested chips this turn.
    ExtraRefund,
    /// All other players pay 1 chip.
    GeneralTariff,
    /// A targeted player pays 2 chips.
    TargetTariff(PlayerId),
    /// The next player must Stand.
    Embargo,
    /// Sylop value becomes 0 until revelation (Sylop no longer matches).
    Markdown,
    /// Immunity against opponent shift token effects until revelation.
    Immunity,
    /// All players who Stand pay 2 chips.
    GeneralAudit,
    /// A targeted player who Stands pays 3 chips.
    TargetAudit(PlayerId),
    /// Impostor value fixed at 6 until revelation.
    MajorFraud,
    /// Take 1 chip from each other player.
    Embezzlement,
    /// Invert the Sabacc ranking until revelation (6/6 becomes the best).
    CookTheBooks,
    /// The targeted player discards and redraws a complete new hand.
    Exhaustion(PlayerId),
    /// Swap your hand with a targeted player.
    DirectTransaction(PlayerId),
    /// Roll 2 dice; the chosen value becomes the best Sabacc.
    PrimeSabacc,
}

impl ShiftToken {
    /// The position of the token's type in the list of the sixteen types (its kind).
    pub open spec fn kind(self) -> nat {
        match self {
            ShiftToken::FreeDraw => 0,
            ShiftToken::Refund => 1,
            ShiftToken::ExtraRefund => 2,
            ShiftToken::GeneralTariff => 3,
            ShiftToken::TargetTariff(_) => 4,
            ShiftToken::Embargo => 5,
            ShiftToken::Markdown => 6,
            ShiftToken::Immunity => 7,
            ShiftToken::GeneralAudit => 8,
            ShiftToken::TargetAudit(_) => 9,
            ShiftToken::MajorFraud => 10,
            ShiftToken::Embezzlement => 11,
            ShiftToken::CookTheBooks => 12,
            ShiftToken::Exhaustion(_) => 13,
            ShiftToken::DirectTransaction(_) => 14,
            ShiftToken::PrimeSabacc => 15,
        }
    }

    /// Whether the token names a target player.
    pub open spec fn spec_requires_target(self) -> bool {
        ||| self is TargetTariff
        ||| self is TargetAudit
        ||| self is Exhaustion
        ||| self is DirectTransaction
    }

    /// The target named by a targeted token.
    pub open spec fn spec_target(self) -> Option<PlayerId> {
        match self {
            ShiftToken::TargetTariff(t) => Some(t),
            ShiftToken::TargetAudit(t) => Some(t),
            ShiftToken::Exhaustion(t) => Some(t),
            ShiftToken::DirectTransaction(t) => Some(t),
            _ => None,
        }
    }

    /// The short description of each token.
    pub open spec fn spec_description(self) -> Seq<char> {
        match self {
            ShiftToken::FreeDraw => "Draw without paying 1 chip"@,
            ShiftToken::Refund => "Recover 2 invested chips"@,
            ShiftToken::ExtraRefund => "Recover 3 invested chips"@,
            ShiftToken::GeneralTariff => "All others pay 1 chip"@,
            ShiftToken::TargetTariff(_) => "Targeted player pays 2 chips"@,
            ShiftToken::Embargo => "Next player must Stand"@,
            ShiftToken::Markdown => "Sylop = 0 (no match)"@,
            ShiftToken::Immunity => "Immune to opponent tokens"@,
            ShiftToken::GeneralAudit => "Standing players pay 2 chips"@,
            ShiftToken::TargetAudit(_) => "Targeted standing pays 3 chips"@,
            ShiftToken::MajorFraud => "Impostor locked at 6"@,
            ShiftToken::Embezzlement => "Take 1 chip from each opponent"@,
            ShiftToken::CookTheBooks => "Reverse Sabacc ranking"@,
            ShiftToken::Exhaustion(_) => "Target redraws a new hand"@,
            ShiftToken::DirectTransaction(_) => "Swap hand with target"@,
            ShiftToken::PrimeSabacc => "Dice → value = best Sabacc"@,
        }
    }

    /// Short description of what this token does.
    pub fn description(&self) -> (d: &'static str)
        ensures
            d@ == self.spec_description(),
    {
        match self {
            ShiftToken::FreeDraw => "Draw without paying 1 chip",
            ShiftToken::Refund => "Recover 2 invested chips",
            ShiftToken::ExtraRefund => "Recover 3 invested chips",
            ShiftToken::GeneralTariff => "All others pay 1 chip",
            ShiftToken::TargetTariff(_) => "Targeted player pays 2 chips",
            ShiftToken::Embargo => "Next player must Stand",
            ShiftToken::Markdown => "Sylop = 0 (no match)",
            ShiftToken::Immunity => "Immune to opponent tokens",
            ShiftToken::GeneralAudit => "Standing players pay 2 chips",
            ShiftToken::TargetAudit(_) => "Targeted standing pays 3 chips",
            ShiftToken::MajorFraud => "Impostor locked at 6",
            ShiftToken::Embezzlement => "Take 1 chip from each opponent",
            ShiftToken::CookTheBooks => "Reverse Sabacc ranking",
            ShiftToken::Exhaustion(_) => "Target redraws a new hand",
            ShiftToken::DirectTransaction(_) => "Swap hand with target",
            ShiftToken::PrimeSabacc => "Dice → value = best Sabacc",
        }
    }

    /// The kind of a token as a number, computed at run time.
    fn kind_index(&self) -> (k: u8)
        ensures
            k == self.kind(),
    {
        match self {
            ShiftToken::FreeDraw => 0,
            ShiftToken::Refund => 1,
            ShiftToken::ExtraRefund => 2,
            ShiftToken::GeneralTariff => 3,
            ShiftToken::TargetTariff(_) => 4,
            ShiftToken::Embargo => 5,
            ShiftToken::Markdown => 6,
            ShiftToken::Immunity => 7,
            ShiftToken::GeneralAudit => 8,
            ShiftToken::TargetAudit(_) => 9,
            ShiftToken::MajorFraud => 10,
            ShiftToken::Embezzlement => 11,
            ShiftToken::CookTheBooks => 12,
            ShiftToken::Exhaustion(_) => 13,
            ShiftToken::DirectTransaction(_) => 14,
            ShiftToken::PrimeSabacc => 15,
        }
    }

    /// Compare token types by discriminant, ignoring inner values.
    pub fn matches_type(&self, other: &ShiftToken) -> (b: bool)
        ensures
            b == (self.kind() == other.kind()),
    {
        self.kind_index() == other.kind_index()
    }

    /// Whether this token requires a target player ID when played.
    pub fn requires_target(&self) -> (b: bool)
        ensures
            b == self.spec_requires_target(),
    {
        match self {
            ShiftToken::TargetTariff(_)
            | ShiftToken::TargetAudit(_)
            | ShiftToken::Exhaustion(_)
            | ShiftToken::DirectTransaction(_) => true,
            _ => false,
        }
    }

    /// The list of all sixteen token types, targeted ones aimed at player 0.
    pub open spec fn spec_all_types() -> Seq<ShiftToken> {
        seq![
            ShiftToken::FreeDraw,
            ShiftToken::Refund,
            ShiftToken::ExtraRefund,
            ShiftToken::GeneralTariff,
            ShiftToken::TargetTariff(0),
            ShiftToken::Embargo,
            ShiftToken::Markdown,
            ShiftToken::Immunity,
            ShiftToken::GeneralAudit,
            ShiftToken::TargetAudit(0),
            ShiftToken::MajorFraud,
            ShiftToken::Embezzlement,
            ShiftToken::CookTheBooks,
            ShiftToken::Exhaustion(0),
            ShiftToken::DirectTransaction(0),
            ShiftToken::PrimeSabacc,
        ]
    }

    /// Get all 16 token types (targeted tokens use placeholder id 0).
    pub fn all_types() -> (v: Vec<ShiftToken>)
        ensures
            v@ == Self::spec_all_types(),
    {
        let mut v: Vec<ShiftToken> = Vec::new();
        v.push(ShiftToken::FreeDraw);
        v.push(ShiftToken::Refund);
        v.push(ShiftToken::ExtraRefund);
        v.push(ShiftToken::GeneralTariff);
        v.push(ShiftToken::TargetTariff(0));
        v.push(ShiftToken::Embargo);
        v.push(ShiftToken::Markdown);
        v.push(ShiftToken::Immunity);
        v.push(ShiftToken::GeneralAudit);
        v.push(ShiftToken::TargetAudit(0));
        v.push(ShiftToken::MajorFraud);
        v.push(ShiftToken::Embezzlement);
        v.push(ShiftToken::CookTheBooks);
        v.push(ShiftToken::Exhaustion(0));
        v.push(ShiftToken::DirectTransaction(0));
        v.push(ShiftToken::PrimeSabacc);
        assert(v@ =~= Self::spec_all_types());
        v
    }
}

/// The list of all types holds each of the sixteen kinds exactly once, in kind order.
pub proof fn lemma_all_types_cover_each_kind()
    ensures
        ShiftToken::spec_all_types().len() == 16,
        forall|i: int| 0 <= i < 16 ==> (#[trigger] ShiftToken::spec_all_types()[i]).kind() == i,
        forall|t: ShiftToken| t.kind() < 16,
{
}

} // verus!
