//! Seats, their names, and whose turn it is.

use vstd::prelude::*;

verus! {

/// Largest number of seats at a table.
pub const MAX_PLAYERS: usize = 12;

/// Name of a seat. `MainPlayer` is the human's seat; `Void` names no seat and
/// owns the cards that no player holds.
#[derive(Clone, Copy, PartialEq, Eq, Debug, Structural)]
pub enum PlayerName {
    MainPlayer,
    Player2,
    Player3,
    Player4,
    Player5,
    Player6,
    Player7,
    Player8,
    Player9,
    Player10,
    Player11,
    Player12,
    Void,
}

/// Seat index of a name (`MAX_PLAYERS` for `Void`).
pub open spec fn seat_of(p: PlayerName) -> nat {
    match p {
        PlayerName::MainPlayer => 0,
        PlayerName::Player2 => 1,
        PlayerName::Player3 => 2,
        PlayerName::Player4 => 3,
        PlayerName::Player5 => 4,
        PlayerName::Player6 => 5,
        PlayerName::Player7 => 6,
        PlayerName::Player8 => 7,
        PlayerName::Player9 => 8,
        PlayerName::Player10 => 9,
        PlayerName::Player11 => 10,
        PlayerName::Player12 => 11,
        PlayerName::Void => 12,
    }
}

/// Direction in which the turn passes round the table.
#[derive(Clone, Copy, PartialEq, Eq, Debug, Structural)]
pub enum Direction {
    /// Towards the next lower seat index, from the first seat to the last.
    Clockwise,
    /// Towards the next higher seat index, from the last seat to the first.
    CounterClockwise,
}

/// The seat after `seat` at a table of `n` seats, going `dir`.
pub open spec fn next_seat(seat: nat, n: nat, dir: Direction) -> nat {
    match dir {
        Direction::Clockwise => ((seat + n - 1) as int % (n as int)) as nat,
        Direction::CounterClockwise => ((seat + 1) as int % (n as int)) as nat,
    }
}

impl PlayerName {
    /// Name of seat `seat`; `None` past the last seat name.
    pub fn from_seat(seat: usize) -> (r: Option<PlayerName>)
        ensures
            seat < MAX_PLAYERS ==> (r matches Some(p) && seat_of(p) == seat),
            seat >= MAX_PLAYERS ==> r is None,
    {
        match seat {
            0 => Some(PlayerName::MainPlayer),
            1 => Some(PlayerName::Player2),
            2 => Some(PlayerName::Player3),
            3 => Some(PlayerName::Player4),
            4 => Some(PlayerName::Player5),
            5 => Some(PlayerName::Player6),
            6 => Some(PlayerName::Player7),
            7 => Some(PlayerName::Player8),
            8 => Some(PlayerName::Player9),
            9 => Some(PlayerName::Player10),
            10 => Some(PlayerName::Player11),
            11 => Some(PlayerName::Player12),
            _ => None,
        }
    }

    /// Seat index of the name; `None` for `Void`.
    pub fn seat(&self) -> (r: Option<usize>)
        ensures
            *self != PlayerName::Void ==> r == Some(seat_of(*self) as usize),
            *self == PlayerName::Void ==> r is None,
    {
        match self {
            PlayerName::MainPlayer => Some(0),
            PlayerName::Player2 => Some(1),
            PlayerName::Player3 => Some(2),
            PlayerName::Player4 => Some(3),
            PlayerName::Player5 => Some(4),
            PlayerName::Player6 => Some(5),
            PlayerName::Player7 => Some(6),
            PlayerName::Player8 => Some(7),
            PlayerName::Player9 => Some(8),
            PlayerName::Player10 => Some(9),
            PlayerName::Player11 => Some(10),
            PlayerName::Player12 => Some(11),
            PlayerName::Void => None,
        }
    }
}

/// Whose turn it is, which way the turn passes, and whether the player whose
/// turn it is has drawn a card during it.
#[derive(Clone, Copy, PartialEq, Eq, Debug, Structural)]
pub struct GameplayState {
    pub current_turn: PlayerName,
    pub direction: Direction,
    pub player_has_drawn: bool,
}

impl GameplayState {
    /// Start of a game: the human's turn, nothing drawn.
    pub fn new(direction: Direction) -> (r: GameplayState)
        ensures
            r == (GameplayState {
                current_turn: PlayerName::MainPlayer,
                direction,
                player_has_drawn: false,
            }),
    {
        GameplayState { current_turn: PlayerName::MainPlayer, direction, player_has_drawn: false }
    }

    /// Whether requests of the human are accepted now.
    pub fn is_human_turn(&self) -> (r: bool)
        ensures
            r == (self.current_turn == PlayerName::MainPlayer),
    {
        self.current_turn == PlayerName::MainPlayer
    }

    /// Passes the turn to the next seat of a table of `num_players` seats in
    /// the direction of play, and clears the drawn flag.
    pub fn advance(&mut self, num_players: usize)
        requires
            1 <= num_players <= MAX_PLAYERS,
            seat_of(old(self).current_turn) < num_players,
        ensures
            seat_of(final(self).current_turn) == next_seat(
                seat_of(old(self).current_turn),
                num_players as nat,
                old(self).direction,
            ),
            seat_of(final(self).current_turn) < num_players,
            final(self).direction == old(self).direction,
            !final(self).player_has_drawn,
    {
        let seat: usize = self.current_turn.seat().unwrap();
        let next: usize = match self.direction {
            Direction::Clockwise => (seat + num_players - 1) % num_players,
            Direction::CounterClockwise => (seat + 1) % num_players,
        };
        self.current_turn = PlayerName::from_seat(next).unwrap();
        self.player_has_drawn = false;
    }
}

} // verus!
