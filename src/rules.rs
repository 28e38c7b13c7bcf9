//! The table settings chosen before a game.

use crate::turn::{Direction, MAX_PLAYERS};
use vstd::prelude::*;

verus! {

/// Settings of a game.
#[derive(Clone, Copy, PartialEq, Eq, Debug, Structural)]
pub struct Rules {
    /// Seats at the table, the human's included.
    pub num_players: usize,
    /// After the human plays, the turn stays with the human.
    pub stackable_cards: bool,
    /// The turn passes towards lower seat indices.
    pub clockwise: bool,
    /// The human is shown no way to pass the turn after drawing (a pass
    /// that is requested anyway is still accepted).
    pub no_skip: bool,
}

/// The turn stays where it is after the human plays: alone at the table, or
/// with stackable cards.
pub open spec fn play_keeps_turn(r: Rules) -> bool {
    r.num_players == 1 || r.stackable_cards
}

/// There is someone to pass the turn to: more than one seat.
pub open spec fn can_pass(r: Rules) -> bool {
    r.num_players > 1
}

/// The human is shown a way to pass the turn after drawing: the option is on
/// and there is someone to pass it to. The option only decides what is shown;
/// whether a pass is accepted does not depend on it.
pub open spec fn skip_allowed(r: Rules) -> bool {
    !r.no_skip && r.num_players > 1
}

pub open spec fn direction_of(r: Rules) -> Direction {
    if r.clockwise {
        Direction::Clockwise
    } else {
        Direction::CounterClockwise
    }
}

impl Rules {
    /// Five seats, every option off.
    pub fn default_rules() -> (r: Rules)
        ensures
            r == (Rules { num_players: 5, stackable_cards: false, clockwise: false, no_skip: false }),
    {
        Rules { num_players: 5, stackable_cards: false, clockwise: false, no_skip: false }
    }

    /// One seat more, up to `MAX_PLAYERS`.
    pub fn increase_players(&mut self)
        ensures
            final(self).num_players == (if old(self).num_players < MAX_PLAYERS {
                old(self).num_players + 1
            } else {
                old(self).num_players as int
            }),
            final(self).stackable_cards == old(self).stackable_cards,
            final(self).clockwise == old(self).clockwise,
            final(self).no_skip == old(self).no_skip,
    {
        if self.num_players < MAX_PLAYERS {
            self.num_players = self.num_players + 1;
        }
    }

    /// One seat fewer, down to one.
    pub fn decrease_players(&mut self)
        ensures
            final(self).num_players == (if old(self).num_players > 1 {
                old(self).num_players - 1
            } else {
                1
            }),
            final(self).stackable_cards == old(self).stackable_cards,
            final(self).clockwise == old(self).clockwise,
            final(self).no_skip == old(self).no_skip,
    {
        if self.num_players > 1 {
            self.num_players = self.num_players - 1;
        } else {
            self.num_players = 1;
        }
    }

    pub fn toggle_stackable(&mut self)
        ensures
            *final(self) == (Rules { stackable_cards: !old(self).stackable_cards, ..*old(self) }),
    {
        self.stackable_cards = !self.stackable_cards;
    }

    pub fn toggle_clockwise(&mut self)
        ensures
            *final(self) == (Rules { clockwise: !old(self).clockwise, ..*old(self) }),
    {
        self.clockwise = !self.clockwise;
    }

    pub fn toggle_no_skip(&mut self)
        ensures
            *final(self) == (Rules { no_skip: !old(self).no_skip, ..*old(self) }),
    {
        self.no_skip = !self.no_skip;
    }

    /// Direction in which the turn passes.
    pub fn direction(&self) -> (d: Direction)
        ensures
            d == direction_of(*self),
    {
        if self.clockwise {
            Direction::Clockwise
        } else {
            Direction::CounterClockwise
        }
    }

    /// Whether the turn stays with the human after a play.
    pub fn play_keeps_turn(&self) -> (r: bool)
        ensures
            r == play_keeps_turn(*self),
    {
        self.num_players == 1 || self.stackable_cards
    }

    /// Whether the human is offered to pass the turn after drawing.
    pub fn skip_offered(&self) -> (r: bool)
        ensures
            r == skip_allowed(*self),
    {
        !self.no_skip && self.num_players > 1
    }
}

} // verus!
