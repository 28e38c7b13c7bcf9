//! What holds of every session, whatever it is asked to do.

use crate::card::{can_play, unique_ids, Card};
use crate::rules::{direction_of, play_keeps_turn};
use crate::session::{
    lemma_bot_keeps_cards, lemma_request_keeps_cards, Request, RequestError, SessionModel,
};
use crate::turn::next_seat;
use vstd::prelude::*;

verus! {

/// Conservation: a tick (a request of the human, if any, then the automatic
/// players) leaves `|deck| + Σ|hand| + |pile|` equal to the number of cards
/// dealt out at setup, and moves cards without making or losing any.
pub proof fn lemma_conservation(m: SessionModel, r: Option<Request>, delta: nat)
    requires
        m.wf(),
    ensures
        m.after_tick(r, delta).wf(),
        m.after_tick(r, delta).card_count() == m.card_count(),
        m.after_tick(r, delta).card_count() == m.total,
        m.after_tick(r, delta).total == m.total,
        m.after_tick(r, delta).pool() == m.pool(),
{
    match r {
        Some(q) => {
            lemma_request_keeps_cards(m, q);
            lemma_bot_keeps_cards(m.after_request(q), delta);
        },
        None => {
            lemma_bot_keeps_cards(m, delta);
        },
    }
}

/// Uniqueness: after a tick no two cards of the session share an id, as
/// before it.
pub proof fn lemma_ids_stay_unique(m: SessionModel, r: Option<Request>, delta: nat)
    requires
        m.wf(),
    ensures
        unique_ids(m.after_tick(r, delta).pool()),
{
    lemma_conservation(m, r, delta);
}

/// In a well-formed session two different cards have different ids, and no
/// card is held twice.
pub proof fn lemma_no_shared_id(m: SessionModel, a: Card, b: Card)
    requires
        m.wf(),
        m.pool().count(a) > 0,
        m.pool().count(b) > 0,
        a != b,
    ensures
        a.id != b.id,
        m.pool().count(a) == 1,
{
}

/// Legality: a play of a card that matches the top of the pile neither in
/// rank nor in suit changes nothing: not the hand, not the pile, not the turn.
pub proof fn lemma_illegal_play_changes_nothing(m: SessionModel, i: int)
    requires
        0 <= i < m.hands[0].len(),
        !can_play(m.hands[0][i], m.pile.last()),
    ensures
        m.after_play(i) == m,
        m.play_outcome(i) is Err,
        m.turn == 0 ==> m.play_outcome(i) == Err::<Card, RequestError>(RequestError::IllegalPlay),
{
}

/// Turn exclusivity: while it is not the human's turn, a request of the
/// human changes nothing and is refused as out of turn.
pub proof fn lemma_requests_wait_for_turn(m: SessionModel, r: Request)
    requires
        m.turn != 0,
    ensures
        m.after_request(r) == m,
        m.request_outcome(r) == Err::<Option<Card>, RequestError>(RequestError::OutOfTurn),
{
}

/// Deck exhaustion: a draw from an empty deck leaves deck, hands and turn
/// state as they were.
pub proof fn lemma_draw_from_empty_deck(m: SessionModel)
    requires
        m.deck.len() == 0,
    ensures
        m.after_draw() == m,
        m.draw_outcome() is Err,
        m.turn == 0 ==> m.draw_outcome() == Err::<Card, RequestError>(RequestError::DeckExhausted),
{
}

/// A legal play of the human puts the card on top of the pile, takes it out
/// of the hand, and passes the turn to the next seat unless the rules keep it.
pub proof fn lemma_legal_play(m: SessionModel, i: int)
    requires
        m.wf(),
        m.turn == 0,
        0 <= i < m.hands[0].len(),
        can_play(m.hands[0][i], m.pile.last()),
    ensures
        m.play_outcome(i) == Ok::<Card, RequestError>(m.hands[0][i]),
        m.after_play(i).pile == m.pile.push(m.hands[0][i]),
        m.after_play(i).hands[0] == m.hands[0].remove(i),
        m.after_play(i).hands[0].len() == m.hands[0].len() - 1,
        m.after_play(i).deck == m.deck,
        m.after_play(i).turn == (if play_keeps_turn(m.rules) {
            0
        } else {
            next_seat(0, m.num_players(), direction_of(m.rules))
        }),
{
}

/// Alone at the table the turn stays with the human after any legal play.
pub proof fn lemma_single_seat_keeps_turn(m: SessionModel, i: int)
    requires
        m.wf(),
        m.rules.num_players == 1,
        m.play_refusal(i) is None,
    ensures
        m.after_play(i).turn == 0,
{
}

/// After drawing on the human's turn, with someone else at the table, a pass
/// is accepted and the turn moves on, whatever the `no_skip` option says: the
/// option only decides whether a way to pass is shown.
pub proof fn lemma_pass_after_draw(m: SessionModel)
    requires
        m.turn == 0,
        m.drawn,
        m.rules.num_players > 1,
    ensures
        m.skip_refusal() is None,
        m.after_skip() == m.advanced(),
        !m.after_skip().drawn,
{
}

/// The automatic players do nothing on the human's turn, and their clock
/// does not run.
pub proof fn lemma_bot_waits_for_its_turn(m: SessionModel, delta: nat)
    requires
        m.turn == 0,
    ensures
        m.after_bot(delta) == m,
{
}

} // verus!
