//! A game session: deck, hands, pile and turn state, and every move that
//! changes them. `SessionModel` states what each move does; `GameSession`
//! carries it out.

use crate::bot::{timer_after, timer_fires, BotTimer, BOT_PERIOD_MS};
use crate::card::{
    can_play, distinct_ids, lemma_distinct_ids_unique, unique_ids, Card, RANK_COUNT, SUIT_COUNT,
};
use crate::deck::{ordered_cards, Deck, COPIES_PER_CARD};
use crate::hand::Hand;
use crate::pile::DiscardPile;
use crate::play::{execute, PlayError};
use crate::rules::{can_pass, direction_of, play_keeps_turn, skip_allowed, Rules};
use crate::turn::{next_seat, seat_of, GameplayState, PlayerName, MAX_PLAYERS};
use vstd::multiset::Multiset;
use vstd::prelude::*;

verus! {

broadcast use vstd::multiset::group_multiset_axioms, vstd::multiset::group_multiset_properties,
    vstd::seq_lib::group_to_multiset_ensures;

/// Cards dealt to each seat at the start.
pub const HAND_SIZE: usize = 7;

/// Why a request of the human had no effect.
#[derive(Clone, Copy, PartialEq, Eq, Debug, Structural)]
pub enum RequestError {
    /// It is not the human's turn.
    OutOfTurn,
    /// The slot index is not below the length of the human's hand.
    StaleIndex,
    /// The card shares neither rank nor suit with the top of the pile.
    IllegalPlay,
    /// The deck holds no card.
    DeckExhausted,
    /// The human is alone at the table, or has not drawn this turn.
    SkipNotAllowed,
}

/// Why a session could not be set up.
#[derive(Clone, Copy, PartialEq, Eq, Debug, Structural)]
pub enum SetupError {
    /// The number of seats is not between one and `MAX_PLAYERS`.
    PlayerCount,
    /// The deck cannot fill every hand and seed the pile.
    NotEnoughCards,
    /// Two cards of the deck share an id.
    DuplicateId,
}

/// A request of the human.
#[derive(Clone, Copy, PartialEq, Eq, Debug, Structural)]
pub enum Request {
    /// Take the top card of the deck.
    Draw,
    /// Play the card in this slot of the hand.
    Play(usize),
    /// Pass the turn after drawing.
    Skip,
}

/// What one tick did: the outcome of the human's request, if one came, and
/// what the automatic player did.
#[derive(Clone, Copy, PartialEq, Eq, Debug)]
pub struct TickReport {
    pub request: Option<Result<Option<Card>, RequestError>>,
    pub bot: BotOutcome,
}

/// What the automatic player did on a tick.
#[derive(Clone, Copy, PartialEq, Eq, Debug, Structural)]
pub enum BotOutcome {
    /// It is the human's turn: the clock does not run.
    Idle,
    /// The clock ran, but not a full period.
    Waiting,
    /// The seat played its last card onto the pile and the turn passed.
    Played { seat: usize, card: Card },
    /// The seat had no card, so the turn passed without a play.
    Passed { seat: usize },
}

/// Number of cards held by all the hands together.
pub open spec fn hands_len(hs: Seq<Seq<Card>>) -> nat
    decreases hs.len(),
{
    if hs.len() == 0 {
        0
    } else {
        hands_len(hs.drop_last()) + hs.last().len()
    }
}

/// The cards held by all the hands together.
pub open spec fn hands_pool(hs: Seq<Seq<Card>>) -> Multiset<Card>
    decreases hs.len(),
{
    if hs.len() == 0 {
        Multiset::empty()
    } else {
        hands_pool(hs.drop_last()).add(hs.last().to_multiset())
    }
}

/// Replacing hand `i` by `h` changes the hands' count and cards by the
/// difference between the two hands.
pub proof fn lemma_hands_update(hs: Seq<Seq<Card>>, i: int, h: Seq<Card>)
    requires
        0 <= i < hs.len(),
    ensures
        hands_len(hs.update(i, h)) + hs[i].len() == hands_len(hs) + h.len(),
        hands_pool(hs.update(i, h)).add(hs[i].to_multiset()) == hands_pool(hs).add(
            h.to_multiset(),
        ),
    decreases hs.len(),
{
    let hs2 = hs.update(i, h);
    assert(hands_pool(hs2) == hands_pool(hs2.drop_last()).add(hs2.last().to_multiset()));
    assert(hands_pool(hs) == hands_pool(hs.drop_last()).add(hs.last().to_multiset()));
    if i == hs.len() - 1 {
        assert(hs2.drop_last() =~= hs.drop_last());
        assert(hs2.last() == h);
        let a = hands_pool(hs.drop_last());
        assert(hands_pool(hs2) == a.add(h.to_multiset()));
        assert(hands_pool(hs) == a.add(hs[i].to_multiset()));
        assert forall|v: Card|
            #[trigger] hands_pool(hs2).add(hs[i].to_multiset()).count(v) == hands_pool(hs).add(
                h.to_multiset(),
            ).count(v) by {
            assert(hands_pool(hs2).count(v) == a.count(v) + h.to_multiset().count(v));
            assert(hands_pool(hs).count(v) == a.count(v) + hs[i].to_multiset().count(v));
        }
        assert(hands_pool(hs2).add(hs[i].to_multiset()) =~= hands_pool(hs).add(h.to_multiset()));
    } else {
        lemma_hands_update(hs.drop_last(), i, h);
        assert(hs2.drop_last() =~= hs.drop_last().update(i, h));
        assert(hs2.last() == hs.last());
        assert(hs.drop_last()[i] == hs[i]);
        let b = hands_pool(hs.drop_last().update(i, h));
        let a = hands_pool(hs.drop_last());
        let l = hs.last().to_multiset();
        assert(hands_pool(hs2) == b.add(l));
        assert(hands_pool(hs) == a.add(l));
        assert(b.add(hs[i].to_multiset()) == a.add(h.to_multiset()));
        assert forall|v: Card|
            #[trigger] hands_pool(hs2).add(hs[i].to_multiset()).count(v) == hands_pool(hs).add(
                h.to_multiset(),
            ).count(v) by {
            assert(b.add(hs[i].to_multiset()).count(v) == a.add(h.to_multiset()).count(v));
            assert(hands_pool(hs2).count(v) == b.count(v) + l.count(v));
            assert(hands_pool(hs).count(v) == a.count(v) + l.count(v));
        }
        assert(hands_pool(hs2).add(hs[i].to_multiset()) =~= hands_pool(hs).add(h.to_multiset()));
    }
}

/// A session as the rules see it.
pub struct SessionModel {
    pub rules: Rules,
    /// Undealt cards; the top is the end.
    pub deck: Seq<Card>,
    /// The hand of each seat, by seat index; seat 0 is the human's.
    pub hands: Seq<Seq<Card>>,
    /// Played cards; the top is the end.
    pub pile: Seq<Card>,
    /// Seat index of the player whose turn it is.
    pub turn: nat,
    /// The player whose turn it is has drawn during it.
    pub drawn: bool,
    /// Time run on the automatic players' clock, and its period.
    pub elapsed: nat,
    pub period: nat,
    /// Number of cards dealt out at setup.
    pub total: nat,
}

impl SessionModel {
    /// All the cards of the session: deck, hands and pile.
    pub open spec fn pool(self) -> Multiset<Card> {
        self.deck.to_multiset().add(hands_pool(self.hands)).add(self.pile.to_multiset())
    }

    /// `|deck| + Σ|hand| + |pile|`.
    pub open spec fn card_count(self) -> nat {
        self.deck.len() + hands_len(self.hands) + self.pile.len()
    }

    pub open spec fn num_players(self) -> nat {
        self.rules.num_players as nat
    }

    pub open spec fn wf(self) -> bool {
        &&& 1 <= self.rules.num_players <= MAX_PLAYERS
        &&& self.hands.len() == self.rules.num_players
        &&& self.turn < self.rules.num_players
        &&& self.pile.len() > 0
        &&& 0 < self.period
        &&& self.elapsed < self.period
        &&& self.card_count() == self.total
        &&& unique_ids(self.pool())
    }

    /// The turn passes to the next seat in the direction of play; nothing is
    /// drawn yet in the new turn.
    pub open spec fn advanced(self) -> SessionModel {
        SessionModel {
            turn: next_seat(self.turn, self.num_players(), direction_of(self.rules)),
            drawn: false,
            ..self
        }
    }

    pub open spec fn draw_refusal(self) -> Option<RequestError> {
        if self.turn != 0 {
            Some(RequestError::OutOfTurn)
        } else if self.deck.len() == 0 {
            Some(RequestError::DeckExhausted)
        } else {
            None
        }
    }

    /// The human's draw: the top card of the deck goes to the end of the
    /// human's hand.
    pub open spec fn after_draw(self) -> SessionModel {
        if self.draw_refusal() is Some {
            self
        } else {
            SessionModel {
                deck: self.deck.drop_last(),
                hands: self.hands.update(0, self.hands[0].push(self.deck.last())),
                drawn: true,
                ..self
            }
        }
    }

    pub open spec fn draw_outcome(self) -> Result<Card, RequestError> {
        match self.draw_refusal() {
            Some(e) => Err(e),
            None => Ok(self.deck.last()),
        }
    }

    pub open spec fn play_refusal(self, i: int) -> Option<RequestError> {
        if self.turn != 0 {
            Some(RequestError::OutOfTurn)
        } else if i < 0 || i >= self.hands[0].len() {
            Some(RequestError::StaleIndex)
        } else if !can_play(self.hands[0][i], self.pile.last()) {
            Some(RequestError::IllegalPlay)
        } else {
            None
        }
    }

    /// The human's play of slot `i`: the card moves from the hand to the top
    /// of the pile, and the turn passes unless the rules keep it.
    pub open spec fn after_play(self, i: int) -> SessionModel {
        if self.play_refusal(i) is Some {
            self
        } else {
            let moved = SessionModel {
                hands: self.hands.update(0, self.hands[0].remove(i)),
                pile: self.pile.push(self.hands[0][i]),
                ..self
            };
            if play_keeps_turn(self.rules) {
                moved
            } else {
                moved.advanced()
            }
        }
    }

    pub open spec fn play_outcome(self, i: int) -> Result<Card, RequestError> {
        match self.play_refusal(i) {
            Some(e) => Err(e),
            None => Ok(self.hands[0][i]),
        }
    }

    pub open spec fn skip_refusal(self) -> Option<RequestError> {
        if self.turn != 0 {
            Some(RequestError::OutOfTurn)
        } else if !can_pass(self.rules) || !self.drawn {
            Some(RequestError::SkipNotAllowed)
        } else {
            None
        }
    }

    /// The human passes the turn after drawing.
    pub open spec fn after_skip(self) -> SessionModel {
        if self.skip_refusal() is Some {
            self
        } else {
            self.advanced()
        }
    }

    pub open spec fn after_request(self, r: Request) -> SessionModel {
        match r {
            Request::Draw => self.after_draw(),
            Request::Play(i) => self.after_play(i as int),
            Request::Skip => self.after_skip(),
        }
    }

    /// What a request hands back: the card that moved, if one did.
    pub open spec fn request_outcome(self, r: Request) -> Result<Option<Card>, RequestError> {
        match r {
            Request::Draw => match self.draw_refusal() {
                Some(e) => Err(e),
                None => Ok(Some(self.deck.last())),
            },
            Request::Play(i) => match self.play_refusal(i as int) {
                Some(e) => Err(e),
                None => Ok(Some(self.hands[0][i as int])),
            },
            Request::Skip => match self.skip_refusal() {
                Some(e) => Err(e),
                None => Ok(None),
            },
        }
    }

    /// The clock after `delta` more passes.
    pub open spec fn timed(self, delta: nat) -> SessionModel {
        SessionModel { elapsed: timer_after(self.elapsed, delta, self.period), ..self }
    }

    /// A tick of the automatic players: on a seat other than the human's, the
    /// clock runs; when it completes a period the seat plays the last card of
    /// its hand onto the pile, without regard to the top, or passes when its
    /// hand is empty, and the turn moves on.
    pub open spec fn after_bot(self, delta: nat) -> SessionModel {
        if self.turn == 0 {
            self
        } else if !timer_fires(self.elapsed, delta, self.period) {
            self.timed(delta)
        } else if self.hands[self.turn as int].len() == 0 {
            self.timed(delta).advanced()
        } else {
            SessionModel {
                hands: self.hands.update(self.turn as int, self.hands[self.turn as int].drop_last()),
                pile: self.pile.push(self.hands[self.turn as int].last()),
                ..self.timed(delta)
            }.advanced()
        }
    }

    pub open spec fn bot_outcome(self, delta: nat) -> BotOutcome {
        if self.turn == 0 {
            BotOutcome::Idle
        } else if !timer_fires(self.elapsed, delta, self.period) {
            BotOutcome::Waiting
        } else if self.hands[self.turn as int].len() == 0 {
            BotOutcome::Passed { seat: self.turn as usize }
        } else {
            BotOutcome::Played {
                seat: self.turn as usize,
                card: self.hands[self.turn as int].last(),
            }
        }
    }

    /// One tick of the session: the human's request first, if any, then the
    /// automatic players.
    pub open spec fn after_tick(self, r: Option<Request>, delta: nat) -> SessionModel {
        match r {
            Some(req) => self.after_request(req).after_bot(delta),
            None => self.after_bot(delta),
        }
    }
}

/// Passing the turn keeps the session well formed and its cards.
proof fn lemma_advanced(m: SessionModel)
    requires
        m.wf(),
    ensures
        m.advanced().wf(),
        m.advanced().pool() == m.pool(),
        m.advanced().turn < m.num_players(),
{
}

/// Moving the top card of the deck to the end of hand `seat`.
proof fn lemma_deck_to_hand(m: SessionModel, seat: int)
    requires
        0 <= seat < m.hands.len(),
        m.deck.len() > 0,
    ensures
        ({
            let n = SessionModel {
                deck: m.deck.drop_last(),
                hands: m.hands.update(seat, m.hands[seat].push(m.deck.last())),
                ..m
            };
            n.pool() == m.pool() && n.card_count() == m.card_count()
        }),
{
    let c = m.deck.last();
    let h = m.hands[seat].push(c);
    lemma_hands_update(m.hands, seat, h);
    assert(m.deck =~= m.deck.drop_last().push(c));
    assert(m.deck.drop_last().to_multiset().insert(c) == m.deck.to_multiset());
    assert(h.to_multiset() == m.hands[seat].to_multiset().insert(c));
    let n = SessionModel { deck: m.deck.drop_last(), hands: m.hands.update(seat, h), ..m };
    assert forall|v: Card| #[trigger] n.pool().count(v) == m.pool().count(v) by {
        assert(hands_pool(n.hands).add(m.hands[seat].to_multiset()).count(v) == hands_pool(
            m.hands,
        ).add(h.to_multiset()).count(v));
        assert(m.deck.drop_last().to_multiset().insert(c).count(v) == m.deck.to_multiset().count(
            v,
        ));
        assert(m.hands[seat].to_multiset().insert(c).count(v) == h.to_multiset().count(v));
        if v == c {
            assert(m.hands[seat].to_multiset().insert(c).count(v) == m.hands[seat].to_multiset().count(v) + 1);
            assert(m.deck.drop_last().to_multiset().insert(c).count(v) == m.deck.drop_last().to_multiset().count(v) + 1);
        } else {
            assert(m.hands[seat].to_multiset().insert(c).count(v) == m.hands[seat].to_multiset().count(v));
            assert(m.deck.drop_last().to_multiset().insert(c).count(v) == m.deck.drop_last().to_multiset().count(v));
        }
    }
    assert(n.pool() =~= m.pool());
}

/// Moving the card in slot `i` of hand `seat` to the top of the pile.
proof fn lemma_hand_to_pile(m: SessionModel, seat: int, i: int)
    requires
        0 <= seat < m.hands.len(),
        0 <= i < m.hands[seat].len(),
    ensures
        ({
            let n = SessionModel {
                hands: m.hands.update(seat, m.hands[seat].remove(i)),
                pile: m.pile.push(m.hands[seat][i]),
                ..m
            };
            n.pool() == m.pool() && n.card_count() == m.card_count()
        }),
{
    let c = m.hands[seat][i];
    let h = m.hands[seat].remove(i);
    lemma_hands_update(m.hands, seat, h);
    m.hands[seat].remove_ensures(i);
    assert(h.to_multiset() == m.hands[seat].to_multiset().remove(c));
    assert(m.pile.push(c).to_multiset() == m.pile.to_multiset().insert(c));
    assert(m.hands[seat].to_multiset().count(c) > 0) by {
        assert(m.hands[seat].contains(c));
    }
    let n = SessionModel { hands: m.hands.update(seat, h), pile: m.pile.push(c), ..m };
    assert forall|v: Card| #[trigger] n.pool().count(v) == m.pool().count(v) by {
        assert(hands_pool(n.hands).add(m.hands[seat].to_multiset()).count(v) == hands_pool(
            m.hands,
        ).add(h.to_multiset()).count(v));
        assert(m.pile.to_multiset().insert(c).count(v) == n.pile.to_multiset().count(v));
        assert(m.hands[seat].to_multiset().remove(c).count(v) == h.to_multiset().count(v));
        if v == c {
            assert(m.pile.to_multiset().insert(c).count(v) == m.pile.to_multiset().count(v) + 1);
            assert(m.hands[seat].to_multiset().remove(c).count(v) == m.hands[seat].to_multiset().count(v) - 1);
        } else {
            assert(m.pile.to_multiset().insert(c).count(v) == m.pile.to_multiset().count(v));
            assert(m.hands[seat].to_multiset().remove(c).count(v) == m.hands[seat].to_multiset().count(v));
        }
    }
    assert(n.pool() =~= m.pool());
}

/// Every request keeps the session well formed and keeps its cards.
pub proof fn lemma_request_keeps_cards(m: SessionModel, r: Request)
    requires
        m.wf(),
    ensures
        m.after_request(r).wf(),
        m.after_request(r).pool() == m.pool(),
        m.after_request(r).total == m.total,
        m.after_request(r).rules == m.rules,
{
    match r {
        Request::Draw => {
            if m.draw_refusal() is None {
                lemma_deck_to_hand(m, 0);
            }
        },
        Request::Play(i) => {
            if m.play_refusal(i as int) is None {
                lemma_hand_to_pile(m, 0, i as int);
                let moved = SessionModel {
                    hands: m.hands.update(0, m.hands[0].remove(i as int)),
                    pile: m.pile.push(m.hands[0][i as int]),
                    ..m
                };
                lemma_advanced(moved);
            }
        },
        Request::Skip => {
            if m.skip_refusal() is None {
                lemma_advanced(m);
            }
        },
    }
}

/// Every tick of the automatic players keeps the session well formed and
/// keeps its cards.
pub proof fn lemma_bot_keeps_cards(m: SessionModel, delta: nat)
    requires
        m.wf(),
    ensures
        m.after_bot(delta).wf(),
        m.after_bot(delta).pool() == m.pool(),
        m.after_bot(delta).total == m.total,
        m.after_bot(delta).rules == m.rules,
{
    if m.turn != 0 {
        let t = m.timed(delta);
        assert(t.elapsed < t.period) by {
            vstd::arithmetic::div_mod::lemma_mod_bound((m.elapsed + delta) as int, m.period as int);
        }
        assert(t.wf());
        if timer_fires(m.elapsed, delta, m.period) {
            let s = m.turn as int;
            if m.hands[s].len() == 0 {
                lemma_advanced(t);
            } else {
                let last = m.hands[s].len() - 1;
                assert(m.hands[s].remove(last) =~= m.hands[s].drop_last());
                lemma_hand_to_pile(t, s, last);
                let moved = SessionModel {
                    hands: t.hands.update(s, t.hands[s].remove(last)),
                    pile: t.pile.push(t.hands[s][last]),
                    ..t
                };
                lemma_advanced(moved);
            }
        }
    }
}

/// Moving the top card of a deck to the end of a hand keeps the cards of the
/// two together.
proof fn lemma_top_to_hand(d: Seq<Card>, h: Seq<Card>)
    requires
        d.len() > 0,
    ensures
        d.drop_last().to_multiset().add(h.push(d.last()).to_multiset()) == d.to_multiset().add(
            h.to_multiset(),
        ),
{
    let c = d.last();
    assert(d =~= d.drop_last().push(c));
    assert forall|v: Card|
        #[trigger] d.drop_last().to_multiset().add(h.push(c).to_multiset()).count(v)
            == d.to_multiset().add(h.to_multiset()).count(v) by {
        if v == c {
            assert(d.drop_last().to_multiset().insert(c).count(v) == d.drop_last().to_multiset().count(v) + 1);
            assert(h.to_multiset().insert(c).count(v) == h.to_multiset().count(v) + 1);
        } else {
            assert(d.drop_last().to_multiset().insert(c).count(v) == d.drop_last().to_multiset().count(v));
            assert(h.to_multiset().insert(c).count(v) == h.to_multiset().count(v));
        }
    }
    assert(d.drop_last().to_multiset().add(h.push(c).to_multiset()) =~= d.to_multiset().add(
        h.to_multiset(),
    ));
}

/// The session dealt from deck `d`: seat after seat, each takes `HAND_SIZE`
/// cards off the top, one at a time to the end of its hand; then the next
/// card off the top seeds the pile.
pub open spec fn dealt(rules: Rules, d: Seq<Card>) -> SessionModel {
    let n = rules.num_players as int;
    let len = d.len() as int;
    SessionModel {
        rules,
        deck: d.subrange(0, len - n * HAND_SIZE - 1),
        hands: Seq::new(
            n as nat,
            |i: int| Seq::new(HAND_SIZE as nat, |j: int| d[len - 1 - (i * HAND_SIZE + j)]),
        ),
        pile: seq![d[len - 1 - n * HAND_SIZE]],
        turn: 0,
        drawn: false,
        elapsed: 0,
        period: BOT_PERIOD_MS as nat,
        total: d.len(),
    }
}

/// The first `k` cards dealt from `d` to seat `i`.
spec fn dealt_hand(d: Seq<Card>, i: int, k: int) -> Seq<Card> {
    Seq::new(k as nat, |j: int| d[d.len() - 1 - (i * HAND_SIZE + j)])
}

/// The state of a game: deck, hands, discard pile, whose turn it is, and the
/// clock of the automatic players.
pub struct GameSession {
    rules: Rules,
    deck: Deck,
    hands: Vec<Hand>,
    pile: DiscardPile,
    state: GameplayState,
    timer: BotTimer,
    total: usize,
}

impl View for GameSession {
    type V = SessionModel;

    closed spec fn view(&self) -> SessionModel {
        SessionModel {
            rules: self.rules,
            deck: self.deck@,
            hands: self.hands@.map_values(|h: Hand| h@),
            pile: self.pile@,
            turn: seat_of(self.state.current_turn),
            drawn: self.state.player_has_drawn,
            elapsed: self.timer.elapsed(),
            period: self.timer.period(),
            total: self.total as nat,
        }
    }
}

impl GameSession {
    /// The turn state passes the turn in the direction that the rules set.
    pub closed spec fn agrees(&self) -> bool {
        self.state.direction == direction_of(self.rules)
    }

    pub open spec fn wf(&self) -> bool {
        self@.wf() && self.agrees()
    }

    /// Deals a game from `deck` as it lies (see `dealt`).
    pub fn with_deck(rules: Rules, deck: Deck) -> (r: Result<GameSession, SetupError>)
        ensures
            !(1 <= rules.num_players <= MAX_PLAYERS) ==> r == Err::<GameSession, SetupError>(
                SetupError::PlayerCount,
            ),
            1 <= rules.num_players <= MAX_PLAYERS && deck@.len() < rules.num_players * HAND_SIZE + 1
                ==> r == Err::<GameSession, SetupError>(SetupError::NotEnoughCards),
            1 <= rules.num_players <= MAX_PLAYERS && deck@.len() >= rules.num_players * HAND_SIZE
                + 1 && !distinct_ids(deck@) ==> r == Err::<GameSession, SetupError>(
                SetupError::DuplicateId,
            ),
            1 <= rules.num_players <= MAX_PLAYERS && deck@.len() >= rules.num_players * HAND_SIZE
                + 1 && distinct_ids(deck@) ==> (r matches Ok(s) && s.wf() && s@ == dealt(
                rules,
                deck@,
            ) && s@.pool() == deck@.to_multiset()),
    {
        let n: usize = rules.num_players;
        if n < 1 || n > MAX_PLAYERS {
            return Err(SetupError::PlayerCount);
        }
        let total: usize = deck.remaining();
        if total < n * HAND_SIZE + 1 {
            return Err(SetupError::NotEnoughCards);
        }
        if !deck.has_distinct_ids() {
            return Err(SetupError::DuplicateId);
        }
        let ghost d0 = deck@;
        let mut deck = deck;
        let mut hands: Vec<Hand> = Vec::new();
        let mut seat: usize = 0;
        while seat < n
            invariant
                seat <= n,
                n == rules.num_players,
                1 <= n <= MAX_PLAYERS,
                total == d0.len(),
                total >= n * HAND_SIZE + 1,
                deck@ == d0.subrange(0, total - seat * HAND_SIZE),
                hands@.len() == seat,
                forall|i: int| 0 <= i < seat ==> #[trigger] hands@[i]@ == dealt_hand(d0, i, HAND_SIZE as int),
                deck@.to_multiset().add(hands_pool(hands@.map_values(|h: Hand| h@)))
                    == d0.to_multiset(),
                hands_len(hands@.map_values(|h: Hand| h@)) == seat * HAND_SIZE,
            decreases n - seat,
        {
            let ghost hv = hands@.map_values(|h: Hand| h@);
            let mut hand = Hand::new();
            let mut k: usize = 0;
            assert(deck@.to_multiset().add(hand@.to_multiset()) =~= deck@.to_multiset());
            while k < HAND_SIZE
                invariant
                    k <= HAND_SIZE,
                    seat < n,
                    total == d0.len(),
                    total >= n * HAND_SIZE + 1,
                    deck@ == d0.subrange(0, total - seat * HAND_SIZE - k),
                    hand@ == dealt_hand(d0, seat as int, k as int),
                    deck@.to_multiset().add(hand@.to_multiset()).add(hands_pool(hv)) == d0.to_multiset(),
                decreases HAND_SIZE - k,
            {
                assert(seat * HAND_SIZE + k < total) by (nonlinear_arith)
                    requires
                        seat < n,
                        k < HAND_SIZE,
                        total >= n * HAND_SIZE + 1,
                ;
                proof {
                    lemma_top_to_hand(deck@, hand@);
                }
                let c = deck.draw().unwrap();
                hand.add_card(c);
                assert(hand@ =~= dealt_hand(d0, seat as int, k + 1));
                assert(deck@ =~= d0.subrange(0, total - seat * HAND_SIZE - (k + 1)));
                k = k + 1;
            }
            let ghost hview = hand@;
            hands.push(hand);
            proof {
                let hv2 = hands@.map_values(|h: Hand| h@);
                assert(hv2 =~= hv.push(hview));
                assert(hv2.drop_last() =~= hv);
                assert(hands_pool(hv2) == hands_pool(hv).add(hview.to_multiset()));
                assert forall|v: Card|
                    #[trigger] deck@.to_multiset().add(hands_pool(hv2)).count(v)
                        == d0.to_multiset().count(v) by {
                    assert(deck@.to_multiset().add(hview.to_multiset()).add(hands_pool(hv)).count(v)
                        == d0.to_multiset().count(v));
                }
                assert(deck@.to_multiset().add(hands_pool(hv2)) =~= d0.to_multiset());
                assert(seat * HAND_SIZE + HAND_SIZE == (seat + 1) * HAND_SIZE) by (nonlinear_arith);
            }
            seat = seat + 1;
        }
        assert(n * HAND_SIZE < total);
        let ghost before = deck@;
        let seed = deck.draw().unwrap();
        let pile = DiscardPile::seeded(seed);
        let state = GameplayState::new(rules.direction());
        let timer = BotTimer::new(BOT_PERIOD_MS);
        let s = GameSession { rules, deck, hands, pile, state, timer, total };
        proof {
            let m = s@;
            let e = dealt(rules, d0);
            assert(m.deck =~= e.deck);
            assert(m.pile =~= e.pile);
            assert forall|i: int| 0 <= i < n implies #[trigger] m.hands[i] == e.hands[i] by {
                assert(m.hands[i] == hands@[i]@);
                assert(m.hands[i] =~= e.hands[i]);
            }
            assert(m.hands =~= e.hands);
            assert(m == e);
            assert(before =~= m.deck.push(seed));
            assert forall|v: Card| #[trigger] m.pool().count(v) == d0.to_multiset().count(v) by {
                assert(before.to_multiset().add(hands_pool(m.hands)).count(v) == d0.to_multiset().count(v));
                assert(m.deck.push(seed).to_multiset() == m.deck.to_multiset().insert(seed));
                assert(m.pile =~= seq![seed]);
                assert(seq![seed] =~= Seq::<Card>::empty().push(seed));
                assert(m.pile.to_multiset() =~= Multiset::<Card>::empty().insert(seed));
            }
            assert(m.pool() =~= d0.to_multiset());
            lemma_distinct_ids_unique(d0);
        }
        Ok(s)
    }

    /// A game with the standard deck (every suit and rank, `COPIES_PER_CARD`
    /// times each), shuffled, then dealt as `with_deck` deals.
    pub fn new(rules: Rules) -> (r: Result<GameSession, SetupError>)
        ensures
            !(1 <= rules.num_players <= MAX_PLAYERS) ==> r == Err::<GameSession, SetupError>(
                SetupError::PlayerCount,
            ),
            1 <= rules.num_players <= MAX_PLAYERS ==> (r matches Ok(s) && s.wf() && (exists|
                d: Seq<Card>,
            |
                d.to_multiset() == ordered_cards(
                    SUIT_COUNT as nat,
                    RANK_COUNT as nat,
                    COPIES_PER_CARD as nat,
                ).to_multiset() && #[trigger] dealt(rules, d) == s@) && s@.pool() == ordered_cards(
                SUIT_COUNT as nat,
                RANK_COUNT as nat,
                COPIES_PER_CARD as nat,
            ).to_multiset() && s@.total == SUIT_COUNT * RANK_COUNT * COPIES_PER_CARD),
    {
        let deck = Deck::build(SUIT_COUNT, RANK_COUNT, COPIES_PER_CARD);
        let ghost d = deck@;
        let r = GameSession::with_deck(rules, deck);
        proof {
            if 1 <= rules.num_players <= MAX_PLAYERS {
                assert(dealt(rules, d) == r->Ok_0@);
            }
        }
        r
    }

    pub fn rules(&self) -> (r: Rules)
        ensures
            r == self@.rules,
    {
        self.rules
    }

    /// Cards left in the deck.
    pub fn deck_remaining(&self) -> (r: usize)
        ensures
            r == self@.deck.len(),
    {
        self.deck.remaining()
    }

    /// The hand of seat `seat`, if the table has that seat.
    pub fn hand(&self, seat: usize) -> (r: Option<&Hand>)
        ensures
            seat < self@.hands.len() ==> (r matches Some(h) && h@ == self@.hands[seat as int]),
            seat >= self@.hands.len() ==> r is None,
    {
        if seat < self.hands.len() {
            Some(&self.hands[seat])
        } else {
            None
        }
    }

    /// The human's hand.
    pub fn main_hand(&self) -> (r: &Hand)
        requires
            self.wf(),
        ensures
            r@ == self@.hands[0],
    {
        &self.hands[0]
    }

    /// The card to match.
    pub fn pile_top(&self) -> (r: Card)
        requires
            self.wf(),
        ensures
            r == self@.pile.last(),
    {
        self.pile.top().ok().unwrap()
    }

    /// Cards in the discard pile.
    pub fn pile_len(&self) -> (r: usize)
        ensures
            r == self@.pile.len(),
    {
        self.pile.len()
    }

    /// Whose turn it is, which way the turn passes, and whether the player
    /// has drawn this turn.
    pub fn state(&self) -> (r: GameplayState)
        requires
            self.wf(),
        ensures
            seat_of(r.current_turn) == self@.turn,
            r.direction == direction_of(self@.rules),
            r.player_has_drawn == self@.drawn,
    {
        self.state
    }

    pub fn current_turn(&self) -> (r: PlayerName)
        ensures
            seat_of(r) == self@.turn,
    {
        self.state.current_turn
    }

    /// Whether requests of the human are accepted now.
    pub fn is_human_turn(&self) -> (r: bool)
        ensures
            r == (self@.turn == 0),
    {
        self.state.is_human_turn()
    }

    /// Whether the human may be offered to pass the turn after drawing.
    pub fn skip_offered(&self) -> (r: bool)
        ensures
            r == skip_allowed(self@.rules),
    {
        self.rules.skip_offered()
    }

    /// Number of cards dealt out at setup.
    pub fn total_cards(&self) -> (r: usize)
        ensures
            r == self@.total,
    {
        self.total
    }

    /// The human draws the top card of the deck (see `SessionModel::after_draw`).
    pub fn request_draw(&mut self) -> (r: Result<Card, RequestError>)
        requires
            old(self).wf(),
        ensures
            final(self).wf(),
            final(self)@ == old(self)@.after_draw(),
            r == old(self)@.draw_outcome(),
    {
        proof {
            lemma_request_keeps_cards(self@, Request::Draw);
        }
        if !self.state.is_human_turn() {
            return Err(RequestError::OutOfTurn);
        }
        let card = match self.deck.draw() {
            Some(c) => c,
            None => {
                return Err(RequestError::DeckExhausted);
            },
        };
        self.hands[0].add_card(card);
        self.state.player_has_drawn = true;
        proof {
            let e = old(self)@.after_draw();
            assert(self@.hands =~= e.hands);
            assert(self@ == e);
        }
        Ok(card)
    }

    /// The human plays the card in slot `index` (see `SessionModel::after_play`).
    pub fn request_play(&mut self, index: usize) -> (r: Result<Card, RequestError>)
        requires
            old(self).wf(),
        ensures
            final(self).wf(),
            final(self)@ == old(self)@.after_play(index as int),
            r == old(self)@.play_outcome(index as int),
    {
        proof {
            lemma_request_keeps_cards(self@, Request::Play(index));
        }
        if !self.state.is_human_turn() {
            return Err(RequestError::OutOfTurn);
        }
        let card = match execute(&mut self.hands[0], index, &mut self.pile) {
            Ok(c) => c,
            Err(PlayError::StaleIndex) => {
                proof {
                    assert(self.hands@.map_values(|h: Hand| h@) =~= old(self)@.hands);
                }
                return Err(RequestError::StaleIndex);
            },
            Err(PlayError::IllegalPlay) => {
                proof {
                    assert(self.hands@.map_values(|h: Hand| h@) =~= old(self)@.hands);
                }
                return Err(RequestError::IllegalPlay);
            },
        };
        proof {
            assert(self@.hands =~= old(self)@.hands.update(0, old(self)@.hands[0].remove(index as int)));
        }
        if !self.rules.play_keeps_turn() {
            self.state.advance(self.rules.num_players);
        }
        proof {
            let e = old(self)@.after_play(index as int);
            assert(self@.hands =~= e.hands);
            assert(self@.pile =~= e.pile);
            assert(self@ == e);
        }
        Ok(card)
    }

    /// The human passes the turn after drawing (see `SessionModel::after_skip`).
    /// Accepted whether or not the rules show a way to do it.
    pub fn request_skip(&mut self) -> (r: Result<(), RequestError>)
        requires
            old(self).wf(),
        ensures
            final(self).wf(),
            final(self)@ == old(self)@.after_skip(),
            r == (match old(self)@.skip_refusal() {
                Some(e) => Err(e),
                None => Ok(()),
            }),
    {
        proof {
            lemma_request_keeps_cards(self@, Request::Skip);
        }
        if !self.state.is_human_turn() {
            return Err(RequestError::OutOfTurn);
        }
        if self.rules.num_players <= 1 || !self.state.player_has_drawn {
            return Err(RequestError::SkipNotAllowed);
        }
        self.state.advance(self.rules.num_players);
        proof {
            assert(self@ == old(self)@.after_skip());
        }
        Ok(())
    }

    /// Carries out one request of the human; returns the card that moved, if
    /// one did.
    pub fn handle(&mut self, request: Request) -> (r: Result<Option<Card>, RequestError>)
        requires
            old(self).wf(),
        ensures
            final(self).wf(),
            final(self)@ == old(self)@.after_request(request),
            r == old(self)@.request_outcome(request),
    {
        match request {
            Request::Draw => match self.request_draw() {
                Ok(c) => Ok(Some(c)),
                Err(e) => Err(e),
            },
            Request::Play(i) => match self.request_play(i) {
                Ok(c) => Ok(Some(c)),
                Err(e) => Err(e),
            },
            Request::Skip => match self.request_skip() {
                Ok(()) => Ok(None),
                Err(e) => Err(e),
            },
        }
    }

    /// Lets `delta_ms` pass for the automatic players (see
    /// `SessionModel::after_bot`).
    pub fn bot_tick(&mut self, delta_ms: u64) -> (r: BotOutcome)
        requires
            old(self).wf(),
        ensures
            final(self).wf(),
            final(self)@ == old(self)@.after_bot(delta_ms as nat),
            r == old(self)@.bot_outcome(delta_ms as nat),
    {
        proof {
            lemma_bot_keeps_cards(self@, delta_ms as nat);
        }
        if self.state.is_human_turn() {
            return BotOutcome::Idle;
        }
        let fired = self.timer.tick(delta_ms);
        if !fired {
            proof {
                assert(self@ == old(self)@.after_bot(delta_ms as nat));
            }
            return BotOutcome::Waiting;
        }
        let seat: usize = self.state.current_turn.seat().unwrap();
        let taken = self.hands[seat].take_last();
        match taken {
            Some(card) => {
                self.pile.push_top(card);
                self.state.advance(self.rules.num_players);
                proof {
                    let e = old(self)@.after_bot(delta_ms as nat);
                    assert(self@.hands =~= e.hands);
                    assert(self@.pile =~= e.pile);
                    assert(self@ == e);
                }
                BotOutcome::Played { seat, card }
            },
            None => {
                self.state.advance(self.rules.num_players);
                proof {
                    let e = old(self)@.after_bot(delta_ms as nat);
                    assert(self@.hands =~= e.hands);
                    assert(self@ == e);
                }
                BotOutcome::Passed { seat }
            },
        }
    }

    /// One tick of the game: the human's request first, if one came, then the
    /// automatic players, so that they see the turn as the request left it.
    pub fn tick(&mut self, request: Option<Request>, delta_ms: u64) -> (r: TickReport)
        requires
            old(self).wf(),
        ensures
            final(self).wf(),
            final(self)@ == old(self)@.after_tick(request, delta_ms as nat),
            r.request == (match request {
                Some(q) => Some(old(self)@.request_outcome(q)),
                None => None,
            }),
            r.bot == (match request {
                Some(q) => old(self)@.after_request(q),
                None => old(self)@,
            }).bot_outcome(delta_ms as nat),
    {
        let outcome = match request {
            Some(q) => Some(self.handle(q)),
            None => None,
        };
        let bot = self.bot_tick(delta_ms);
        TickReport { request: outcome, bot }
    }
}

} // verus!
