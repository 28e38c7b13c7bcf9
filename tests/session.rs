use dos_game::{
    BotOutcome, Card, Deck, GameSession, PlayerName, Rank, Request, RequestError, Rules,
    SetupError, Suit, HAND_SIZE,
};

fn card(rank: Rank, suit: Suit, id: usize) -> Card {
    Card::new(rank, suit, id)
}

/// A deck that deals `hands[i]` to seat `i`, then `seed` to the pile, and
/// keeps `rest` (its first card on top).
fn stacked(hands: Vec<Vec<Card>>, seed: Card, rest: Vec<Card>) -> Deck {
    let mut top_first: Vec<Card> = Vec::new();
    for h in hands {
        assert_eq!(h.len(), HAND_SIZE);
        top_first.extend(h);
    }
    top_first.push(seed);
    top_first.extend(rest);
    top_first.reverse();
    Deck::from_cards(top_first)
}

/// Seven cards of `suit`, ranks Zero to Six, ids from `first_id`.
fn seven(suit: Suit, first_id: usize) -> Vec<Card> {
    (0..7).map(|i| card(Rank::from_index(i).unwrap(), suit, first_id + i)).collect()
}

fn rules(num_players: usize, clockwise: bool) -> Rules {
    Rules { num_players, stackable_cards: false, clockwise, no_skip: false }
}

fn count_cards(s: &GameSession) -> usize {
    let mut n = s.deck_remaining() + s.pile_len();
    for seat in 0..s.rules().num_players {
        n += s.hand(seat).unwrap().len();
    }
    n
}

fn held_and_played_ids(s: &GameSession, pile_ids: &[usize]) -> Vec<usize> {
    let mut ids: Vec<usize> = pile_ids.to_vec();
    for seat in 0..s.rules().num_players {
        let h = s.hand(seat).unwrap();
        for i in 0..h.len() {
            ids.push(h.get(i).unwrap().id);
        }
    }
    ids
}

#[test]
fn deal_96_cards_to_five_seats_leaves_60() {
    let deck = Deck::build(4, 12, 2);
    assert_eq!(deck.remaining(), 96);
    let s = GameSession::with_deck(rules(5, false), deck).unwrap();
    assert_eq!(s.deck_remaining(), 96 - 35 - 1);
    assert_eq!(s.deck_remaining(), 60);
    assert_eq!(s.pile_len(), 1);
    for seat in 0..5 {
        assert_eq!(s.hand(seat).unwrap().len(), 7);
    }
    assert!(s.hand(5).is_none());
    assert_eq!(s.current_turn(), PlayerName::MainPlayer);
    assert_eq!(count_cards(&s), 96);
    assert_eq!(s.total_cards(), 96);
}

#[test]
fn deal_order_from_top() {
    let h0 = seven(Suit::Red, 0);
    let h1 = seven(Suit::Blue, 10);
    let seed = card(Rank::Nine, Suit::Green, 20);
    let rest = vec![card(Rank::Eight, Suit::Yellow, 30), card(Rank::Seven, Suit::Yellow, 31)];
    let s = GameSession::with_deck(rules(2, false), stacked(vec![h0.clone(), h1.clone(), ], seed, rest)).unwrap();
    for i in 0..7 {
        assert_eq!(s.main_hand().get(i), Some(h0[i]));
        assert_eq!(s.hand(1).unwrap().get(i), Some(h1[i]));
    }
    assert_eq!(s.pile_top(), seed);
    assert_eq!(s.deck_remaining(), 2);
}

#[test]
fn new_session_uses_standard_deck() {
    let s = GameSession::new(Rules::default_rules()).unwrap();
    assert_eq!(s.total_cards(), 104);
    assert_eq!(s.deck_remaining(), 104 - 5 * 7 - 1);
    assert!(s.is_human_turn());
    assert!(!s.state().player_has_drawn);
    let r = rules(12, true);
    let s = GameSession::new(r).unwrap();
    assert_eq!(s.deck_remaining(), 104 - 12 * 7 - 1);
}

#[test]
fn setup_errors() {
    assert_eq!(GameSession::new(rules(0, false)).err(), Some(SetupError::PlayerCount));
    assert_eq!(GameSession::new(rules(13, false)).err(), Some(SetupError::PlayerCount));
    let small = Deck::ordered(1, 13, 1);
    assert_eq!(GameSession::with_deck(rules(2, false), small).err(), Some(SetupError::NotEnoughCards));
    let dup = Deck::from_cards((0..20).map(|i| card(Rank::One, Suit::Red, i % 19)).collect());
    assert_eq!(GameSession::with_deck(rules(2, false), dup).err(), Some(SetupError::DuplicateId));
    let exact = Deck::ordered(1, 13, 2);
    assert!(GameSession::with_deck(rules(3, false), exact).is_ok());
}

#[test]
fn play_matching_suit_only_passes_turn() {
    let mut h0 = seven(Suit::Red, 0);
    h0[0] = card(Rank::Five, Suit::Red, 0);
    let seed = card(Rank::Nine, Suit::Red, 20);
    let mut s = GameSession::with_deck(
        rules(5, false),
        stacked(vec![h0.clone(), seven(Suit::Blue, 30), seven(Suit::Blue, 40), seven(Suit::Green, 50), seven(Suit::Green, 60)], seed, vec![]),
    )
    .unwrap();
    assert_eq!(s.request_play(0), Ok(h0[0]));
    assert_eq!(s.pile_top(), h0[0]);
    assert_eq!(s.pile_len(), 2);
    assert_eq!(s.main_hand().len(), 6);
    assert_eq!(s.main_hand().get(0), Some(h0[1]));
    assert_eq!(s.current_turn(), PlayerName::Player2);
}

#[test]
fn play_clockwise_passes_to_last_seat() {
    let seed = card(Rank::Nine, Suit::Red, 20);
    let mut s = GameSession::with_deck(
        rules(5, true),
        stacked(vec![seven(Suit::Red, 0), seven(Suit::Blue, 30), seven(Suit::Blue, 40), seven(Suit::Green, 50), seven(Suit::Green, 60)], seed, vec![]),
    )
    .unwrap();
    assert_eq!(s.request_play(3), Ok(card(Rank::Three, Suit::Red, 3)));
    assert_eq!(s.current_turn(), PlayerName::Player5);
}

#[test]
fn play_matching_neither_changes_nothing() {
    let seed = card(Rank::Nine, Suit::Red, 20);
    let h0 = seven(Suit::Blue, 0);
    let mut s = GameSession::with_deck(rules(2, false), stacked(vec![h0.clone(), seven(Suit::Green, 30)], seed, vec![card(Rank::Skip, Suit::Red, 90)])).unwrap();
    assert_eq!(s.request_play(2), Err(RequestError::IllegalPlay));
    assert_eq!(s.main_hand().len(), 7);
    for i in 0..7 {
        assert_eq!(s.main_hand().get(i), Some(h0[i]));
    }
    assert_eq!(s.pile_top(), seed);
    assert_eq!(s.pile_len(), 1);
    assert_eq!(s.deck_remaining(), 1);
    assert_eq!(s.current_turn(), PlayerName::MainPlayer);
}

#[test]
fn single_player_keeps_turn_after_play() {
    let seed = card(Rank::Zero, Suit::Green, 20);
    let mut s = GameSession::with_deck(rules(1, false), stacked(vec![seven(Suit::Green, 0)], seed, vec![])).unwrap();
    for _ in 0..7 {
        assert!(s.request_play(0).is_ok());
        assert_eq!(s.current_turn(), PlayerName::MainPlayer);
    }
    assert_eq!(s.main_hand().len(), 0);
    assert_eq!(s.pile_len(), 8);
    assert_eq!(s.request_play(0), Err(RequestError::StaleIndex));
}

#[test]
fn stackable_keeps_turn_after_play() {
    let seed = card(Rank::Zero, Suit::Green, 20);
    let r = Rules { num_players: 2, stackable_cards: true, clockwise: false, no_skip: false };
    let mut s = GameSession::with_deck(r, stacked(vec![seven(Suit::Green, 0), seven(Suit::Red, 30)], seed, vec![])).unwrap();
    assert!(s.request_play(1).is_ok());
    assert!(s.request_play(1).is_ok());
    assert_eq!(s.current_turn(), PlayerName::MainPlayer);
}

#[test]
fn stale_index_rejected() {
    let seed = card(Rank::Zero, Suit::Green, 20);
    let mut s = GameSession::with_deck(rules(2, false), stacked(vec![seven(Suit::Green, 0), seven(Suit::Red, 30)], seed, vec![])).unwrap();
    assert_eq!(s.request_play(7), Err(RequestError::StaleIndex));
    assert_eq!(s.main_hand().len(), 7);
    assert!(s.is_human_turn());
}

#[test]
fn draw_moves_top_card_to_hand() {
    let seed = card(Rank::Zero, Suit::Green, 20);
    let top = card(Rank::Skip, Suit::Yellow, 90);
    let mut s = GameSession::with_deck(rules(2, false), stacked(vec![seven(Suit::Green, 0), seven(Suit::Red, 30)], seed, vec![top, card(Rank::Reverse, Suit::Yellow, 91)])).unwrap();
    assert_eq!(s.request_draw(), Ok(top));
    assert_eq!(s.main_hand().len(), 8);
    assert_eq!(s.main_hand().get(7), Some(top));
    assert_eq!(s.deck_remaining(), 1);
    assert!(s.state().player_has_drawn);
    assert!(s.is_human_turn());
}

#[test]
fn draw_from_empty_deck_changes_nothing() {
    let seed = card(Rank::Zero, Suit::Green, 20);
    let mut s = GameSession::with_deck(rules(2, false), stacked(vec![seven(Suit::Green, 0), seven(Suit::Red, 30)], seed, vec![])).unwrap();
    assert_eq!(s.deck_remaining(), 0);
    assert_eq!(s.request_draw(), Err(RequestError::DeckExhausted));
    assert_eq!(s.deck_remaining(), 0);
    assert_eq!(s.main_hand().len(), 7);
    assert!(s.is_human_turn());
    assert!(!s.state().player_has_drawn);
}

#[test]
fn requests_ignored_out_of_turn() {
    let seed = card(Rank::Zero, Suit::Green, 20);
    let mut s = GameSession::with_deck(rules(2, false), stacked(vec![seven(Suit::Green, 0), seven(Suit::Red, 30)], seed, vec![card(Rank::Skip, Suit::Yellow, 90)])).unwrap();
    assert!(s.request_play(0).is_ok());
    assert_eq!(s.current_turn(), PlayerName::Player2);
    assert_eq!(s.request_draw(), Err(RequestError::OutOfTurn));
    assert_eq!(s.request_play(0), Err(RequestError::OutOfTurn));
    assert_eq!(s.request_skip(), Err(RequestError::OutOfTurn));
    assert_eq!(s.handle(Request::Play(1)), Err(RequestError::OutOfTurn));
    assert_eq!(s.deck_remaining(), 1);
    assert_eq!(s.main_hand().len(), 6);
    assert_eq!(s.pile_len(), 2);
    assert_eq!(s.current_turn(), PlayerName::Player2);
}

#[test]
fn skip_only_after_draw() {
    let seed = card(Rank::Zero, Suit::Green, 20);
    let mut s = GameSession::with_deck(rules(3, false), stacked(vec![seven(Suit::Green, 0), seven(Suit::Red, 30), seven(Suit::Red, 40)], seed, vec![card(Rank::Skip, Suit::Yellow, 90)])).unwrap();
    assert!(s.skip_offered());
    assert_eq!(s.request_skip(), Err(RequestError::SkipNotAllowed));
    assert!(s.is_human_turn());
    assert!(s.request_draw().is_ok());
    assert_eq!(s.request_skip(), Ok(()));
    assert_eq!(s.current_turn(), PlayerName::Player2);
    assert!(!s.state().player_has_drawn);
}

#[test]
fn skip_not_offered_but_accepted_with_no_skip_rule() {
    let seed = card(Rank::Zero, Suit::Green, 20);
    let r = Rules { num_players: 2, stackable_cards: false, clockwise: false, no_skip: true };
    let mut s = GameSession::with_deck(r, stacked(vec![seven(Suit::Green, 0), seven(Suit::Red, 30)], seed, vec![card(Rank::Skip, Suit::Yellow, 90)])).unwrap();
    assert!(!s.skip_offered());
    assert_eq!(s.request_skip(), Err(RequestError::SkipNotAllowed));
    assert!(s.request_draw().is_ok());
    assert_eq!(s.request_skip(), Ok(()));
    assert_eq!(s.current_turn(), PlayerName::Player2);
    assert!(!s.state().player_has_drawn);
}

#[test]
fn skip_refused_when_alone() {
    let seed = card(Rank::Zero, Suit::Green, 20);
    let mut s = GameSession::with_deck(rules(1, false), stacked(vec![seven(Suit::Green, 0)], seed, vec![card(Rank::Skip, Suit::Yellow, 90)])).unwrap();
    assert!(!s.skip_offered());
    assert!(s.request_draw().is_ok());
    assert_eq!(s.request_skip(), Err(RequestError::SkipNotAllowed));
    assert!(s.is_human_turn());
    assert!(s.state().player_has_drawn);
}

#[test]
fn bot_waits_then_plays_last_card() {
    let seed = card(Rank::Zero, Suit::Green, 20);
    let h1 = seven(Suit::Red, 30);
    let mut s = GameSession::with_deck(rules(2, false), stacked(vec![seven(Suit::Green, 0), h1.clone()], seed, vec![])).unwrap();
    assert_eq!(s.bot_tick(5000), BotOutcome::Idle);
    assert!(s.request_play(0).is_ok());
    assert_eq!(s.bot_tick(1500), BotOutcome::Waiting);
    assert_eq!(s.current_turn(), PlayerName::Player2);
    assert_eq!(s.bot_tick(500), BotOutcome::Played { seat: 1, card: h1[6] });
    assert_eq!(s.pile_top(), h1[6]);
    assert_eq!(s.hand(1).unwrap().len(), 6);
    assert_eq!(s.current_turn(), PlayerName::MainPlayer);
}

#[test]
fn bot_with_empty_hand_passes() {
    let seed = card(Rank::Zero, Suit::Green, 20);
    let mut s = GameSession::with_deck(rules(2, false), stacked(vec![seven(Suit::Green, 0), seven(Suit::Green, 30)], seed, vec![])).unwrap();
    for _ in 0..7 {
        assert!(s.request_play(0).is_ok());
        assert!(matches!(s.bot_tick(2000), BotOutcome::Played { seat: 1, .. }));
    }
    assert_eq!(s.hand(1).unwrap().len(), 0);
    assert_eq!(s.main_hand().len(), 0);
    assert!(s.request_draw().is_err());
    assert!(s.request_skip().is_err());
    assert!(s.is_human_turn());
}

#[test]
fn bot_empty_hand_skip_policy() {
    let seed = card(Rank::Zero, Suit::Green, 20);
    let mut s = GameSession::with_deck(rules(3, false), stacked(vec![seven(Suit::Green, 0), seven(Suit::Green, 30), seven(Suit::Green, 40)], seed, vec![card(Rank::One, Suit::Blue, 90)])).unwrap();
    for _ in 0..7 {
        assert!(s.request_play(0).is_ok());
        assert!(matches!(s.bot_tick(2000), BotOutcome::Played { seat: 1, .. }));
        assert!(matches!(s.bot_tick(2000), BotOutcome::Played { seat: 2, .. }));
    }
    assert!(s.request_draw().is_ok());
    assert_eq!(s.request_skip(), Ok(()));
    assert_eq!(s.bot_tick(2000), BotOutcome::Passed { seat: 1 });
    assert_eq!(s.current_turn(), PlayerName::Player3);
    assert_eq!(s.bot_tick(2000), BotOutcome::Passed { seat: 2 });
    assert!(s.is_human_turn());
}

#[test]
fn tick_handles_request_before_bot() {
    let seed = card(Rank::Zero, Suit::Green, 20);
    let h1 = seven(Suit::Red, 30);
    let mut s = GameSession::with_deck(rules(2, false), stacked(vec![seven(Suit::Green, 0), h1.clone()], seed, vec![])).unwrap();
    let report = s.tick(Some(Request::Play(0)), 2000);
    assert_eq!(report.request, Some(Ok(Some(card(Rank::Zero, Suit::Green, 0)))));
    assert_eq!(report.bot, BotOutcome::Played { seat: 1, card: h1[6] });
    assert!(s.is_human_turn());
    let report = s.tick(None, 2000);
    assert_eq!(report.request, None);
    assert_eq!(report.bot, BotOutcome::Idle);
}

#[test]
fn card_count_and_ids_kept_through_a_game() {
    let mut s = GameSession::new(Rules::default_rules()).unwrap();
    let total = s.total_cards();
    assert_eq!(count_cards(&s), total);
    let mut pile_ids: Vec<usize> = vec![s.pile_top().id];
    for step in 0..200 {
        let before_top = s.pile_top();
        let req = if step % 3 == 0 { Request::Draw } else { Request::Play(step % 5) };
        let report = s.tick(Some(req), 700);
        if let Some(Ok(Some(c))) = report.request {
            if let Request::Play(_) = req {
                pile_ids.push(c.id);
            }
        }
        if let BotOutcome::Played { card, .. } = report.bot {
            pile_ids.push(card.id);
        }
        if s.pile_top() != before_top {
            assert_eq!(*pile_ids.last().unwrap(), s.pile_top().id);
        }
        assert_eq!(count_cards(&s), total);
        assert_eq!(pile_ids.len(), s.pile_len());
    }
    let d = s.deck_remaining();
    let mut deck_ids: Vec<usize> = Vec::new();
    // Drain the deck into the human's hand, so that every card is in a hand
    // or on the pile.
    while !s.is_human_turn() {
        s.bot_tick(2000);
    }
    for _ in 0..d {
        let c = s.request_draw().unwrap();
        deck_ids.push(c.id);
    }
    assert_eq!(s.deck_remaining(), 0);
    let mut ids = held_and_played_ids(&s, &pile_ids);
    ids.sort();
    let n = ids.len();
    ids.dedup();
    assert_eq!(ids.len(), n);
    assert_eq!(n, total);
    assert_eq!(deck_ids.len(), d);
}
