//! Checking and carrying out the play of a card from a hand onto the pile.

use crate::card::{can_play, validate, Card};
use crate::hand::Hand;
use crate::pile::DiscardPile;
use vstd::prelude::*;

verus! {

/// Why a play was refused.
#[derive(Clone, Copy, PartialEq, Eq, Debug, Structural)]
pub enum PlayError {
    /// The slot index is not below the length of the hand.
    StaleIndex,
    /// The card shares neither rank nor suit with the top of the pile.
    IllegalPlay,
}

/// What a play of slot `index` of `hand` onto `pile` is refused for, if it is.
pub open spec fn play_refusal(hand: Seq<Card>, index: int, pile: Seq<Card>) -> Option<PlayError> {
    if index < 0 || index >= hand.len() {
        Some(PlayError::StaleIndex)
    } else if !can_play(hand[index], pile.last()) {
        Some(PlayError::IllegalPlay)
    } else {
        None
    }
}

/// Moves the card in slot `index` of `hand` to the top of `pile` when it
/// matches the top in rank or suit; otherwise changes nothing.
pub fn execute(hand: &mut Hand, index: usize, pile: &mut DiscardPile) -> (r: Result<Card, PlayError>)
    requires
        old(pile)@.len() > 0,
    ensures
        play_refusal(old(hand)@, index as int, old(pile)@) matches Some(e) ==> r == Err::<
            Card,
            PlayError,
        >(e) && final(hand)@ == old(hand)@ && final(pile)@ == old(pile)@,
        play_refusal(old(hand)@, index as int, old(pile)@) is None ==> r == Ok::<Card, PlayError>(
            old(hand)@[index as int],
        ) && final(hand)@ == old(hand)@.remove(index as int) && final(pile)@ == old(pile)@.push(
            old(hand)@[index as int],
        ),
{
    let card = match hand.get(index) {
        Some(c) => c,
        None => {
            return Err(PlayError::StaleIndex);
        },
    };
    let top = pile.top().ok().unwrap();
    if !validate(&card, &top) {
        return Err(PlayError::IllegalPlay);
    }
    let played = hand.remove_at(index).ok().unwrap();
    pile.push_top(played);
    Ok(played)
}

} // verus!
