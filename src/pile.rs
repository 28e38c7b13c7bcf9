//! The discard pile: every card played, the last one on top.

use crate::card::Card;
use vstd::prelude::*;

verus! {

/// The pile holds no card, so it has no top.
#[derive(Clone, Copy, PartialEq, Eq, Debug, Structural)]
pub struct EmptyPileError;

pub struct DiscardPile {
    cards: Vec<Card>,
}

impl View for DiscardPile {
    type V = Seq<Card>;

    closed spec fn view(&self) -> Seq<Card> {
        self.cards@
    }
}

impl DiscardPile {
    /// A pile holding no card.
    pub fn new() -> (p: DiscardPile)
        ensures
            p@ == Seq::<Card>::empty(),
    {
        DiscardPile { cards: Vec::new() }
    }

    /// A pile holding the one card `seed`.
    pub fn seeded(seed: Card) -> (p: DiscardPile)
        ensures
            p@ == seq![seed],
    {
        let mut cards: Vec<Card> = Vec::new();
        cards.push(seed);
        DiscardPile { cards }
    }

    /// Puts `card` on top: it becomes the card to match.
    pub fn push_top(&mut self, card: Card)
        ensures
            final(self)@ == old(self)@.push(card),
    {
        self.cards.push(card);
    }

    /// The card on top.
    pub fn top(&self) -> (r: Result<Card, EmptyPileError>)
        ensures
            self@.len() == 0 ==> r == Err::<Card, EmptyPileError>(EmptyPileError),
            self@.len() > 0 ==> r == Ok::<Card, EmptyPileError>(self@.last()),
    {
        if self.cards.len() == 0 {
            Err(EmptyPileError)
        } else {
            Ok(self.cards[self.cards.len() - 1])
        }
    }

    /// Number of cards in the pile.
    pub fn len(&self) -> (r: usize)
        ensures
            r == self@.len(),
    {
        self.cards.len()
    }
}

} // verus!
