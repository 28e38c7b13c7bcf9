//! The deck: the stack of cards not yet dealt. Its top is the end.

use crate::card::{
    distinct_ids, lemma_distinct_ids_unique, lemma_unique_distinct_ids, rank_at, suit_at, Card,
    Rank, Suit, RANK_COUNT, SUIT_COUNT,
};
use rand::seq::SliceRandom;
use vstd::prelude::*;

verus! {

/// Copies of each (suit, rank) pair in the standard deck.
pub const COPIES_PER_CARD: usize = 2;

/// The deck before shuffling: suits in order, within a suit the ranks in
/// order, within a rank the copies; card `k` has id `k`.
pub open spec fn ordered_cards(suits: nat, ranks: nat, copies: nat) -> Seq<Card> {
    Seq::new(
        suits * ranks * copies,
        |k: int|
            Card {
                suit: suit_at((k / (ranks * copies) as int) as nat),
                rank: rank_at(((k / copies as int) % ranks as int) as nat),
                id: k as usize,
            },
    )
}

/// Relies on rand's `SliceRandom::shuffle`, fed by `thread_rng`: it permutes
/// the slice in place by swaps, so the same cards remain, each as often.
/// (`thread_rng` panics only when the operating system's random source cannot
/// seed it.)
#[verifier::external_body]
fn shuffle_cards(v: &mut Vec<Card>)
    ensures
        final(v)@.to_multiset() == old(v)@.to_multiset(),
{
    v.shuffle(&mut rand::thread_rng());
}

pub struct Deck {
    cards: Vec<Card>,
}

impl View for Deck {
    type V = Seq<Card>;

    closed spec fn view(&self) -> Seq<Card> {
        self.cards@
    }
}

impl Deck {
    /// A deck holding `cards`, the last one on top.
    pub fn from_cards(cards: Vec<Card>) -> (d: Deck)
        ensures
            d@ == cards@,
    {
        Deck { cards }
    }

    /// Every (suit, rank) pair of the first `suits` suits and `ranks` ranks,
    /// `copies` times each, in order and not shuffled.
    pub fn ordered(suits: usize, ranks: usize, copies: usize) -> (d: Deck)
        requires
            suits <= SUIT_COUNT,
            ranks <= RANK_COUNT,
            ranks * copies <= usize::MAX,
            suits * ranks * copies <= usize::MAX,
        ensures
            d@ == ordered_cards(suits as nat, ranks as nat, copies as nat),
            distinct_ids(d@),
    {
        let per_suit: usize = ranks * copies;
        assert(suits * ranks * copies == suits * (ranks * copies)) by (nonlinear_arith);
        let n: usize = suits * per_suit;
        let mut cards: Vec<Card> = Vec::new();
        let mut k: usize = 0;
        while k < n
            invariant
                k <= n,
                n == suits * ranks * copies,
                per_suit == ranks * copies,
                n == suits * per_suit,
                suits <= SUIT_COUNT,
                ranks <= RANK_COUNT,
                cards@ =~= ordered_cards(suits as nat, ranks as nat, copies as nat).subrange(0, k as int),
            decreases n - k,
        {
            assert(per_suit > 0 && copies > 0 && ranks > 0) by (nonlinear_arith)
                requires
                    k < n,
                    n == suits * per_suit,
                    per_suit == ranks * copies,
            ;
            let si: usize = k / per_suit;
            assert(si < suits) by (nonlinear_arith)
                requires
                    si == k / per_suit,
                    k < n,
                    n == suits * per_suit,
                    per_suit > 0,
            ;
            let ri: usize = (k / copies) % ranks;
            let suit = Suit::from_index(si).unwrap();
            let rank = Rank::from_index(ri).unwrap();
            cards.push(Card { rank, suit, id: k });
            k = k + 1;
        }
        Deck { cards }
    }

    /// The full deck of the given shape, shuffled. Its ids are distinct.
    pub fn build(suits: usize, ranks: usize, copies: usize) -> (d: Deck)
        requires
            suits <= SUIT_COUNT,
            ranks <= RANK_COUNT,
            ranks * copies <= usize::MAX,
            suits * ranks * copies <= usize::MAX,
        ensures
            d@.to_multiset() == ordered_cards(suits as nat, ranks as nat, copies as nat).to_multiset(),
            d@.len() == suits * ranks * copies,
            distinct_ids(d@),
    {
        let mut d = Deck::ordered(suits, ranks, copies);
        proof {
            lemma_distinct_ids_unique(d@);
        }
        d.shuffle();
        proof {
            lemma_unique_distinct_ids(d@);
            vstd::seq_lib::to_multiset_len(d@);
            vstd::seq_lib::to_multiset_len(ordered_cards(suits as nat, ranks as nat, copies as nat));
        }
        d
    }

    /// Puts the cards in a uniformly random order.
    pub fn shuffle(&mut self)
        ensures
            final(self)@.to_multiset() == old(self)@.to_multiset(),
    {
        shuffle_cards(&mut self.cards);
    }

    /// Takes the top card, or `None` when the deck is empty (then nothing
    /// changes).
    pub fn draw(&mut self) -> (r: Option<Card>)
        ensures
            old(self)@.len() == 0 ==> r is None && final(self)@ == old(self)@,
            old(self)@.len() > 0 ==> r == Some(old(self)@.last()) && final(self)@ == old(
                self,
            )@.drop_last(),
    {
        self.cards.pop()
    }

    /// Whether no two cards of the deck share an id.
    pub fn has_distinct_ids(&self) -> (r: bool)
        ensures
            r == distinct_ids(self@),
    {
        let n: usize = self.cards.len();
        let mut i: usize = 0;
        while i < n
            invariant
                i <= n,
                n == self.cards@.len(),
                forall|a: int, b: int|
                    0 <= a < i && 0 <= b < n && a != b ==> #[trigger] self.cards@[a].id
                        != #[trigger] self.cards@[b].id,
            decreases n - i,
        {
            let mut j: usize = 0;
            while j < n
                invariant
                    i < n,
                    j <= n,
                    n == self.cards@.len(),
                    forall|a: int, b: int|
                        0 <= a < i && 0 <= b < n && a != b ==> #[trigger] self.cards@[a].id
                            != #[trigger] self.cards@[b].id,
                    forall|b: int|
                        0 <= b < j && b != i ==> self.cards@[i as int].id != #[trigger] self.cards@[b].id,
                decreases n - j,
            {
                if j != i && self.cards[i].id == self.cards[j].id {
                    assert(self.cards@[i as int].id == self.cards@[j as int].id);
                    return false;
                }
                j = j + 1;
            }
            i = i + 1;
        }
        true
    }

    /// The card at position `i` from the bottom, if there is one.
    pub fn get(&self, i: usize) -> (r: Option<Card>)
        ensures
            i < self@.len() ==> r == Some(self@[i as int]),
            i >= self@.len() ==> r is None,
    {
        if i < self.cards.len() {
            Some(self.cards[i])
        } else {
            None
        }
    }

    /// Number of cards left.
    pub fn remaining(&self) -> (r: usize)
        ensures
            r == self@.len(),
    {
        self.cards.len()
    }
}

} // verus!
