//! What a card shows when the terminal front end draws it.

use vstd::prelude::*;

use crate::card::{Card, CardValue, Family};
use crate::text::{decimal, text_with_number};

verus! {

/// A single card as drawn: an 8×5 block with a label, a symbol and a value.
#[derive(Debug, Clone, Copy, PartialEq, Eq, Structural)]
pub struct CardWidget {
    /// The card's family, unknown for a face-down card.
    pub family: Option<Family>,
    /// The card's value, unknown for a face-down card.
    pub value: Option<CardValue>,
    /// Whether the card is drawn face down.
    pub face_down: bool,
    /// Whether the card is the current selection.
    pub selected: bool,
    /// Whether the card is highlighted.
    pub highlighted: bool,
    /// Resolved impostor die value (shown instead of '?').
    pub resolved_impostor: Option<u8>,
}

impl CardWidget {
    /// The widget of a known card, face up or face down.
    pub fn from_card(card: &Card, face_down: bool) -> (w: CardWidget)
        ensures
            w == (CardWidget {
                family: Some(card.family),
                value: Some(card.value),
                face_down,
                selected: false,
                highlighted: false,
                resolved_impostor: None,
            }),
    {
        CardWidget {
            family: Some(card.family),
            value: Some(card.value),
            face_down,
            selected: false,
            highlighted: false,
            resolved_impostor: None,
        }
    }

    /// The widget of an unknown card, face down.
    pub fn face_down() -> (w: CardWidget)
        ensures
            w == (CardWidget {
                family: None,
                value: None,
                face_down: true,
                selected: false,
                highlighted: false,
                resolved_impostor: None,
            }),
    {
        CardWidget {
            family: None,
            value: None,
            face_down: true,
            selected: false,
            highlighted: false,
            resolved_impostor: None,
        }
    }

    /// The symbol in the middle of the card.
    pub open spec fn spec_symbol(self) -> Seq<char> {
        if self.face_down {
            "▓▓"@
        } else {
            match self.value {
                Some(CardValue::Sylop) => "◎"@,
                Some(CardValue::Impostor) => if self.resolved_impostor is Some {
                    "?→"@
                } else {
                    "?"@
                },
                _ => match self.family {
                    Some(Family::Sand) => "△"@,
                    Some(Family::Blood) => "◇"@,
                    None => "▓▓"@,
                },
            }
        }
    }

    /// The symbol in the middle of the card.
    pub fn symbol(&self) -> (s: &'static str)
        ensures
            s@ == self.spec_symbol(),
    {
        if self.face_down {
            return "▓▓";
        }
        match &self.value {
            Some(CardValue::Sylop) => "◎",
            Some(CardValue::Impostor) => if self.resolved_impostor.is_some() {
                "?→"
            } else {
                "?"
            },
            _ => match &self.family {
                Some(Family::Sand) => "△",
                Some(Family::Blood) => "◇",
                None => "▓▓",
            },
        }
    }

    /// The label at the top of the card.
    pub open spec fn spec_label(self) -> Seq<char> {
        if self.face_down {
            "????"@
        } else {
            match self.value {
                Some(CardValue::Sylop) => "SYLOP"@,
                Some(CardValue::Impostor) => "IMPOS"@,
                Some(CardValue::Number(_)) => match self.family {
                    Some(Family::Sand) => "SAND"@,
                    Some(Family::Blood) => "BLOOD"@,
                    None => "?"@,
                },
                None => "????"@,
            }
        }
    }

    /// The label at the top of the card.
    pub fn label(&self) -> (s: String)
        ensures
            s@ == self.spec_label(),
    {
        if self.face_down {
            return "????".to_owned();
        }
        let text = match &self.value {
            Some(CardValue::Sylop) => "SYLOP",
            Some(CardValue::Impostor) => "IMPOS",
            Some(CardValue::Number(_)) => match &self.family {
                Some(Family::Sand) => "SAND",
                Some(Family::Blood) => "BLOOD",
                None => "?",
            },
            None => "????",
        };
        text.to_owned()
    }

    /// The value at the bottom of the card: the number, the resolved die of an
    /// Impostor, nothing for a Sylop or an unresolved Impostor.
    pub open spec fn spec_value_str(self) -> Seq<char> {
        if self.face_down {
            "▓▓"@
        } else {
            match self.value {
                Some(CardValue::Number(n)) => decimal(n as nat),
                Some(CardValue::Sylop) => Seq::empty(),
                Some(CardValue::Impostor) => match self.resolved_impostor {
                    Some(v) => decimal(v as nat),
                    None => Seq::empty(),
                },
                None => "▓▓"@,
            }
        }
    }

    /// The value at the bottom of the card.
    pub fn value_str(&self) -> (s: String)
        ensures
            s@ == self.spec_value_str(),
    {
        if self.face_down {
            return "▓▓".to_owned();
        }
        proof {
            reveal_strlit("");
            assert forall|x: Seq<char>| ""@ + x == x by {
                assert(""@ + x =~= x);
            }
        }
        match &self.value {
            Some(CardValue::Number(n)) => text_with_number("", *n as usize),
            Some(CardValue::Sylop) => String::new(),
            Some(CardValue::Impostor) => match self.resolved_impostor {
                Some(v) => text_with_number("", v as usize),
                None => String::new(),
            },
            None => "▓▓".to_owned(),
        }
    }
}

} // verus!
