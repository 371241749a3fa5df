//! The draw and discard piles of one card family.

use rand::rngs::SmallRng;
use vstd::prelude::*;

use crate::card::{Card, CardValue, Family};
use crate::error::GameError;
use crate::rng::gen_usize_inclusive;

verus! {

broadcast use {
    vstd::seq_lib::group_to_multiset_ensures,
    vstd::seq_lib::lemma_multiset_commutative,
    vstd::multiset::group_multiset_axioms,
};

/// A deck for one card family (Sand or Blood).
///
/// Contains a draw pile and a discard pile. When the draw pile is exhausted,
/// the discard pile is reshuffled into it automatically.
#[derive(Debug, Clone, PartialEq)]
pub struct FamilyDeck {
    /// The family this deck belongs to.
    pub family: Family,
    /// Face-down draw pile. Last element is the top.
    pub draw_pile: Vec<Card>,
    /// Face-up discard pile. Last element is the top (visible).
    pub discard_pile: Vec<Card>,
}

/// The 22 cards of one family: three of each number 1-6, two Sylops, two Impostors.
pub open spec fn standard_cards(family: Family) -> Seq<Card> {
    Seq::new(
        22,
        |i: int|
            if i < 18 {
                Card { family, value: CardValue::Number((i / 3 + 1) as u8) }
            } else if i < 20 {
                Card { family, value: CardValue::Sylop }
            } else {
                Card { family, value: CardValue::Impostor }
            },
    )
}

/// Every card of the sequence belongs to `family`.
pub open spec fn all_of_family(cards: Seq<Card>, family: Family) -> bool {
    forall|i: int| 0 <= i < cards.len() ==> (#[trigger] cards[i]).family == family
}

impl FamilyDeck {
    /// Both piles hold only cards of the deck's family.
    pub open spec fn wf(self) -> bool {
        &&& all_of_family(self.draw_pile@, self.family)
        &&& all_of_family(self.discard_pile@, self.family)
    }

    /// `new` is this deck after `c` was drawn from it: the top of the draw pile, or, when
    /// the draw pile was empty, a card of the discard pile after the discard pile was
    /// shuffled into the draw pile.
    pub open spec fn drew(self, new: FamilyDeck, c: Card) -> bool {
        &&& new.family == self.family
        &&& self.draw_pile@.len() > 0 ==> c == self.draw_pile@.last() && new.draw_pile@ == self.draw_pile@.drop_last()
            && new.discard_pile@ == self.discard_pile@
        &&& self.draw_pile@.len() == 0 ==> new.discard_pile@ == Seq::<Card>::empty()
            && new.draw_pile@.to_multiset().insert(c) == self.discard_pile@.to_multiset()
            && new.draw_pile@.len() + 1 == self.discard_pile@.len()
        &&& self.all_cards().to_multiset() == new.all_cards().to_multiset().insert(c)
        &&& self.wf() ==> new.wf() && c.family == self.family
    }

    /// `new` is this deck after the top card `c` of the discard pile was taken.
    pub open spec fn took_discard(self, new: FamilyDeck, c: Card) -> bool {
        &&& self.discard_pile@.len() > 0
        &&& c == self.discard_pile@.last()
        &&& new == (FamilyDeck { discard_pile: new.discard_pile, ..self })
        &&& new.discard_pile@ == self.discard_pile@.drop_last()
        &&& self.all_cards().to_multiset() == new.all_cards().to_multiset().insert(c)
        &&& self.wf() ==> new.wf() && c.family == self.family
    }

    /// All cards of the deck, draw pile first.
    pub open spec fn all_cards(self) -> Seq<Card> {
        self.draw_pile@ + self.discard_pile@
    }

    /// Create a new deck for the given family with all 22 cards, shuffled.
    ///
    /// Each family deck contains:
    /// - 3 copies of each numbered card (1-6) = 18 cards
    /// - 2 Sylops = 2 cards
    /// - 2 Impostors = 2 cards
    /// - Total: 22 cards
    pub fn new(family: Family, rng: &mut SmallRng) -> (deck: FamilyDeck)
        ensures
            deck.family == family,
            deck.wf(),
            deck.draw_pile@.len() == 22,
            deck.draw_pile@.to_multiset() == standard_cards(family).to_multiset(),
            deck.discard_pile@ == Seq::<Card>::empty(),
    {
        let mut cards: Vec<Card> = Vec::with_capacity(22);
        let mut n: u8 = 1;
        while n <= 6
            invariant
                1 <= n <= 7,
                cards@ == standard_cards(family).take(3 * (n - 1)),
            decreases 7 - n,
        {
            let mut k: u8 = 0;
            while k < 3
                invariant
                    1 <= n <= 6,
                    k <= 3,
                    cards@ == standard_cards(family).take(3 * (n - 1) + k),
                decreases 3 - k,
            {
                cards.push(Card::number(family, n));
                assert(standard_cards(family).take(3 * (n - 1) + k + 1) =~= standard_cards(family).take(
                    3 * (n - 1) + k,
                ).push(Card { family, value: CardValue::Number(n) }));
                k = k + 1;
            }
            n = n + 1;
        }
        let mut k: u8 = 0;
        while k < 2
            invariant
                k <= 2,
                cards@ == standard_cards(family).take(18 + k),
            decreases 2 - k,
        {
            cards.push(Card::sylop(family));
            assert(standard_cards(family).take(18 + k + 1) =~= standard_cards(family).take(18 + k).push(
                Card { family, value: CardValue::Sylop },
            ));
            k = k + 1;
        }
        let mut k: u8 = 0;
        while k < 2
            invariant
                k <= 2,
                cards@ == standard_cards(family).take(20 + k),
            decreases 2 - k,
        {
            cards.push(Card::impostor(family));
            assert(standard_cards(family).take(20 + k + 1) =~= standard_cards(family).take(20 + k).push(
                Card { family, value: CardValue::Impostor },
            ));
            k = k + 1;
        }
        assert(cards@ =~= standard_cards(family));
        let ghost before = cards@;
        shuffle(&mut cards, rng);
        proof {
            lemma_same_multiset_same_family(before, cards@, family);
        }
        FamilyDeck { family, draw_pile: cards, discard_pile: Vec::new() }
    }

    /// Draw the top card from the draw pile.
    ///
    /// If the draw pile is empty, reshuffles the discard pile into it first.
    /// Returns an error if both piles are empty.
    pub fn draw(&mut self, rng: &mut SmallRng) -> (res: Result<Card, GameError>)
        ensures
            final(self).family == old(self).family,
            old(self).wf() ==> final(self).wf(),
            // Both piles empty: the deck is exhausted and left as it was.
            res is Err <==> old(self).draw_pile@.len() == 0 && old(self).discard_pile@.len() == 0,
            res is Err ==> *final(self) == *old(self) && res == Err::<Card, GameError>(
                GameError::DeckExhausted { family: old(self).family },
            ),
            // A non-empty draw pile gives its top card.
            old(self).draw_pile@.len() > 0 ==> res == Ok::<Card, GameError>(old(self).draw_pile@.last())
                && final(self).draw_pile@ == old(self).draw_pile@.drop_last()
                && final(self).discard_pile@ == old(self).discard_pile@,
            // An empty draw pile is refilled with the shuffled discard pile first.
            old(self).draw_pile@.len() == 0 && old(self).discard_pile@.len() > 0 ==> (res matches Ok(c)
                && final(self).discard_pile@ == Seq::<Card>::empty()
                && final(self).draw_pile@.to_multiset().insert(c) == old(self).discard_pile@.to_multiset()
                && final(self).draw_pile@.len() + 1 == old(self).discard_pile@.len()),
            res matches Ok(c) ==> old(self).wf() ==> c.family == old(self).family,
            // The drawn card leaves the deck: nothing else is gained or lost.
            res matches Ok(c) ==> old(self).all_cards().to_multiset() == final(self).all_cards().to_multiset().insert(c),
            res is Ok ==> final(self).all_cards().len() + 1 == old(self).all_cards().len(),
            res matches Ok(c) ==> old(self).drew(*final(self), c),
    {
        if self.draw_pile.len() == 0 {
            if self.discard_pile.len() == 0 {
                return Err(GameError::DeckExhausted { family: self.family });
            }
            self.reshuffle(rng);
        }
        let ghost before = self.draw_pile@;
        let c = self.draw_pile.pop().unwrap();
        proof {
            assert(before =~= self.draw_pile@.push(c));
            assert(self.family == old(self).family);
            assert(old(self).all_cards().to_multiset() == self.all_cards().to_multiset().insert(c));
            assert(old(self).wf() ==> self.wf() && c.family == old(self).family);
        }
        Ok(c)
    }

    /// Draw the top card from the discard pile (face-up draw).
    pub fn draw_from_discard(&mut self) -> (res: Result<Card, GameError>)
        ensures
            final(self).family == old(self).family,
            final(self).draw_pile@ == old(self).draw_pile@,
            old(self).wf() ==> final(self).wf(),
            old(self).discard_pile@.len() > 0 ==> res == Ok::<Card, GameError>(old(self).discard_pile@.last())
                && final(self).discard_pile@ == old(self).discard_pile@.drop_last(),
            old(self).discard_pile@.len() == 0 ==> res == Err::<Card, GameError>(
                GameError::DiscardEmpty { family: old(self).family },
            ) && final(self).discard_pile@ == old(self).discard_pile@,
            res matches Ok(c) ==> old(self).all_cards().to_multiset() == final(self).all_cards().to_multiset().insert(c),
            res matches Ok(c) ==> old(self).took_discard(*final(self), c),
    {
        let ghost before = self.discard_pile@;
        match self.discard_pile.pop() {
            Some(c) => {
                assert(before =~= self.discard_pile@.push(c));
                assert(old(self).all_cards() =~= self.all_cards().push(c));
                Ok(c)
            },
            None => Err(GameError::DiscardEmpty { family: self.family }),
        }
    }

    /// Place a card on top of the discard pile.
    pub fn discard(&mut self, card: Card)
        ensures
            final(self).family == old(self).family,
            final(self).draw_pile@ == old(self).draw_pile@,
            final(self).discard_pile@ == old(self).discard_pile@.push(card),
            old(self).wf() && card.family == old(self).family ==> final(self).wf(),
            final(self).all_cards().to_multiset() == old(self).all_cards().to_multiset().insert(card),
    {
        self.discard_pile.push(card);
    }

    /// Peek at the top card of the discard pile without removing it.
    pub fn peek_discard(&self) -> (top: Option<&Card>)
        ensures
            self.discard_pile@.len() > 0 ==> top == Some(&self.discard_pile@.last()),
            self.discard_pile@.len() == 0 ==> top is None,
    {
        let n = self.discard_pile.len();
        if n == 0 {
            None
        } else {
            Some(&self.discard_pile[n - 1])
        }
    }

    /// Reshuffle the discard pile into the (empty) draw pile.
    fn reshuffle(&mut self, rng: &mut SmallRng)
        requires
            old(self).draw_pile@.len() == 0,
            old(self).discard_pile@.len() > 0,
        ensures
            final(self).family == old(self).family,
            final(self).discard_pile@ == Seq::<Card>::empty(),
            final(self).draw_pile@.to_multiset() == old(self).discard_pile@.to_multiset(),
            final(self).draw_pile@.len() == old(self).discard_pile@.len(),
            old(self).wf() ==> final(self).wf(),
    {
        self.draw_pile.append(&mut self.discard_pile);
        let ghost before = self.draw_pile@;
        assert(before =~= old(self).discard_pile@);
        shuffle(&mut self.draw_pile, rng);
        proof {
            if old(self).wf() {
                lemma_same_multiset_same_family(before, self.draw_pile@, self.family);
            }
        }
    }

    /// Return the total number of cards in this deck (draw + discard).
    pub fn total_cards(&self) -> (n: usize)
        requires
            self.draw_pile@.len() + self.discard_pile@.len() <= usize::MAX,
        ensures
            n == self.draw_pile@.len() + self.discard_pile@.len(),
    {
        self.draw_pile.len() + self.discard_pile.len()
    }
}

/// Swapping two positions keeps the multiset of a sequence.
proof fn lemma_swap_multiset<T>(s: Seq<T>, i: int, j: int)
    requires
        0 <= i < s.len(),
        0 <= j < s.len(),
    ensures
        s.update(i, s[j]).update(j, s[i]).to_multiset() == s.to_multiset(),
{
    broadcast use vstd::multiset::group_multiset_axioms;
    let s1 = s.update(i, s[j]);
    assert(s1.to_multiset() == s.to_multiset().insert(s[j]).remove(s[i]));
    assert(s1.update(j, s[i]).to_multiset() == s1.to_multiset().insert(s[i]).remove(s1[j]));
    if i == j {
        assert(s.update(i, s[j]).update(j, s[i]) =~= s);
    } else {
        assert(s1[j] == s[j]);
        assert(s.to_multiset().insert(s[j]).remove(s[i]).insert(s[i]).remove(s[j]) =~= s.to_multiset());
    }
}

/// Sequences with the same multiset hold the same cards, so a family holds for both.
proof fn lemma_same_multiset_same_family(a: Seq<Card>, b: Seq<Card>, family: Family)
    requires
        a.to_multiset() == b.to_multiset(),
        all_of_family(a, family),
    ensures
        all_of_family(b, family),
{
    assert forall|i: int| 0 <= i < b.len() implies (#[trigger] b[i]).family == family by {
        assert(b.contains(b[i]));
        assert(b.to_multiset().count(b[i]) > 0);
        assert(a.to_multiset().count(b[i]) > 0);
        assert(a.contains(b[i]));
    }
}

/// A pile holding the standard cards holds nothing else: each card is of the family,
/// and a number from 1 to 6 where it is a number.
pub proof fn lemma_standard_pile_cards(pile: Seq<Card>, family: Family)
    requires
        pile.to_multiset() == standard_cards(family).to_multiset(),
    ensures
        forall|i: int| 0 <= i < pile.len() ==> (#[trigger] pile[i]).family == family && (pile[i].value matches CardValue::Number(
            n,
        ) ==> 1 <= n <= 6),
{
    let std = standard_cards(family);
    assert forall|i: int| 0 <= i < pile.len() implies (#[trigger] pile[i]).family == family && (pile[i].value matches CardValue::Number(
        n,
    ) ==> 1 <= n <= 6) by {
        assert(pile.contains(pile[i]));
        assert(std.to_multiset().count(pile[i]) > 0);
        assert(std.contains(pile[i]));
        let j = choose|j: int| 0 <= j < std.len() && std[j] == pile[i];
        assert(std[j] == pile[i]);
    }
}

/// Fisher-Yates shuffle: the items come out in a random order, as a permutation of
/// the items that went in.
pub(crate) fn shuffle<T: Copy>(cards: &mut Vec<T>, rng: &mut SmallRng)
    ensures
        final(cards)@.len() == old(cards)@.len(),
        final(cards)@.to_multiset() == old(cards)@.to_multiset(),
{
    let len = cards.len();
    if len < 2 {
        return;
    }
    let mut i: usize = len - 1;
    while i >= 1
        invariant
            cards@.len() == len,
            i < len,
            cards@.to_multiset() == old(cards)@.to_multiset(),
        decreases i,
    {
        let j = gen_usize_inclusive(rng, 0, i);
        let a = cards[i];
        let b = cards[j];
        proof {
            lemma_swap_multiset(cards@, i as int, j as int);
        }
        cards.set(i, b);
        cards.set(j, a);
        i = i - 1;
    }
}

} // verus!
