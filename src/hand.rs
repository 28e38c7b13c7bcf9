//! A player's hand: cards in slot order.

use crate::card::Card;
use vstd::prelude::*;

verus! {

/// A slot index that is not below the length of the hand.
#[derive(Clone, Copy, PartialEq, Eq, Debug, Structural)]
pub struct IndexError {
    pub index: usize,
    pub len: usize,
}

pub struct Hand {
    cards: Vec<Card>,
}

impl View for Hand {
    type V = Seq<Card>;

    closed spec fn view(&self) -> Seq<Card> {
        self.cards@
    }
}

impl Hand {
    /// An empty hand.
    pub fn new() -> (h: Hand)
        ensures
            h@ == Seq::<Card>::empty(),
    {
        Hand { cards: Vec::new() }
    }

    /// A hand holding `cards` in this order.
    pub fn from_cards(cards: Vec<Card>) -> (h: Hand)
        ensures
            h@ == cards@,
    {
        Hand { cards }
    }

    /// Puts `card` in a new slot at the end.
    pub fn add_card(&mut self, card: Card)
        ensures
            final(self)@ == old(self)@.push(card),
    {
        self.cards.push(card);
    }

    /// Takes the card in slot `index`; the cards after it move down one slot.
    pub fn remove_at(&mut self, index: usize) -> (r: Result<Card, IndexError>)
        ensures
            index >= old(self)@.len() ==> r == Err::<Card, IndexError>(
                IndexError { index, len: old(self)@.len() as usize },
            ) && final(self)@ == old(self)@,
            index < old(self)@.len() ==> r == Ok::<Card, IndexError>(old(self)@[index as int])
                && final(self)@ == old(self)@.remove(index as int),
            index < old(self)@.len() ==> final(self)@.len() == old(self)@.len() - 1,
            index < old(self)@.len() ==> forall|j: int|
                0 <= j < index ==> #[trigger] final(self)@[j] == old(self)@[j],
            index < old(self)@.len() ==> forall|j: int|
                index <= j < old(self)@.len() - 1 ==> #[trigger] final(self)@[j] == old(self)@[j
                    + 1],
    {
        if index >= self.cards.len() {
            return Err(IndexError { index, len: self.cards.len() });
        }
        let c = self.cards.remove(index);
        proof {
            old(self)@.remove_ensures(index as int);
        }
        Ok(c)
    }

    /// Takes the card in the last slot, or `None` when the hand is empty.
    pub fn take_last(&mut self) -> (r: Option<Card>)
        ensures
            old(self)@.len() == 0 ==> r is None && final(self)@ == old(self)@,
            old(self)@.len() > 0 ==> r == Some(old(self)@.last()) && final(self)@ == old(
                self,
            )@.drop_last(),
    {
        self.cards.pop()
    }

    /// The card in slot `index`, if there is one.
    pub fn get(&self, index: usize) -> (r: Option<Card>)
        ensures
            index < self@.len() ==> r == Some(self@[index as int]),
            index >= self@.len() ==> r is None,
    {
        if index < self.cards.len() {
            Some(self.cards[index])
        } else {
            None
        }
    }

    /// Number of cards held.
    pub fn len(&self) -> (r: usize)
        ensures
            r == self@.len(),
    {
        self.cards.len()
    }

    pub fn is_empty(&self) -> (r: bool)
        ensures
            r == (self@.len() == 0),
    {
        self.cards.len() == 0
    }
}

} // verus!
