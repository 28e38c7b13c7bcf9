//! Rule engine of a shedding card game in the style of UNO/DOS: a shuffled
//! deck, one hand per seat, a discard pile, the legality of plays, turn
//! rotation and the automatic play of the seats that no human holds.

pub mod card;
pub mod deck;
pub mod hand;
pub mod pile;
pub mod play;
pub mod turn;
pub mod bot;
pub mod rules;
pub mod session;
pub mod laws;

pub use bot::{BotTimer, BOT_PERIOD_MS};
pub use card::{validate, Card, Rank, Suit, RANK_COUNT, SUIT_COUNT};
pub use deck::{Deck, COPIES_PER_CARD};
pub use hand::{Hand, IndexError};
pub use pile::{DiscardPile, EmptyPileError};
pub use play::{execute, PlayError};
pub use rules::Rules;
pub use session::{
    BotOutcome, GameSession, Request, RequestError, SetupError, TickReport, HAND_SIZE,
};
pub use turn::{Direction, GameplayState, PlayerName, MAX_PLAYERS};
