use guinyot::behaviour::Behaviour;
use guinyot::board::{Board, GameError, GameState};
use guinyot::card::{Card, Pal};
use guinyot::deck::Deck;
use guinyot::driver::{play_game, play_round, post_baza_actions, Bot};
use guinyot::random_bot::RandomBot;
use guinyot::smart_bot::SmartBot;

fn card(pal: Pal, number: u8) -> Card {
    Card::new(pal, number)
}

/// A round dealt from the unshuffled deck; seat 0 leads and the marker is the 6 of Copes.
fn ordered_board() -> Board {
    Board::from_deck(Deck::ordered(), 0)
}

/// Moves `c` into slot `slot` of `seat`'s hand, swapping it with whatever card was there.
fn give(b: &mut Board, seat: usize, slot: usize, c: Card) {
    let old = b.hands[seat][slot];
    if old == c {
        return;
    }
    for i in 0..b.deck.cards.len() {
        if b.deck.cards[i] == c {
            b.deck.cards[i] = old;
            b.hands[seat][slot] = c;
            return;
        }
    }
    for s in 0..4 {
        for i in 0..b.hands[s].len() {
            if b.hands[s][i] == c {
                b.hands[s][i] = old;
                b.hands[seat][slot] = c;
                return;
            }
        }
    }
    for t in 0..2 {
        for i in 0..b.won[t].len() {
            if b.won[t][i] == c {
                b.won[t][i] = old;
                b.hands[seat][slot] = c;
                return;
            }
        }
    }
    if b.current_trumfo == c && !b.trumfo_dealt {
        b.current_trumfo = old;
        b.hands[seat][slot] = c;
        return;
    }
    panic!("card not found");
}

/// Empties the deck into team 0's pile and hands out the marker there too.
fn exhaust_deck(b: &mut Board) {
    let rest: Vec<Card> = b.deck.cards.drain(..).collect();
    b.won[0].extend(rest);
    b.won[0].push(b.current_trumfo);
    b.trumfo_dealt = true;
}

fn total_cards(b: &Board) -> usize {
    let mut n = b.deck.cards.len();
    for h in &b.hands {
        n += h.len();
    }
    for w in &b.won {
        n += w.len();
    }
    n += b.baza.iter().filter(|s| s.is_some()).count();
    if !b.trumfo_dealt {
        n += 1;
    }
    n
}

#[test]
fn points_of_each_rank() {
    let expected = [(1, 11), (2, 0), (3, 10), (4, 0), (5, 0), (6, 0), (7, 0), (10, 3), (11, 2), (12, 4)];
    for (rank, pts) in expected {
        assert_eq!(card(Pal::Orus, rank).points(), pts);
    }
}

#[test]
fn comparator_same_suit_and_trump() {
    let t = Pal::Copes;
    assert!(card(Pal::Orus, 1).is_better_than(card(Pal::Orus, 3), t));
    assert!(!card(Pal::Orus, 3).is_better_than(card(Pal::Orus, 1), t));
    // equal value: the higher rank wins
    assert!(card(Pal::Orus, 7).is_better_than(card(Pal::Orus, 2), t));
    assert!(!card(Pal::Orus, 2).is_better_than(card(Pal::Orus, 7), t));
    // a trump beats any other suit, and not the other way round
    assert!(card(Pal::Copes, 2).is_better_than(card(Pal::Orus, 1), t));
    assert!(!card(Pal::Orus, 1).is_better_than(card(Pal::Copes, 2), t));
    // two different non-trump suits: neither wins
    assert!(!card(Pal::Orus, 1).is_better_than(card(Pal::Bastos, 2), t));
    assert!(!card(Pal::Bastos, 2).is_better_than(card(Pal::Orus, 1), t));
}

#[test]
fn comparator_exactly_one_wins() {
    let pals = [Pal::Orus, Pal::Copes, Pal::Espases, Pal::Bastos];
    let ranks = [1u8, 2, 3, 4, 5, 6, 7, 10, 11, 12];
    let t = Pal::Espases;
    for &pa in &pals {
        for &ra in &ranks {
            for &pb in &pals {
                for &rb in &ranks {
                    let a = card(pa, ra);
                    let b = card(pb, rb);
                    if a != b && (pa == pb || pa == t || pb == t) {
                        assert_ne!(a.is_better_than(b, t), b.is_better_than(a, t));
                    }
                }
            }
        }
    }
}

#[test]
fn new_deck_holds_each_card_once() {
    let d = Deck::new();
    assert_eq!(d.len(), 40);
    let ordered = Deck::ordered();
    for c in &ordered.cards {
        assert_eq!(d.cards.iter().filter(|x| *x == c).count(), 1);
    }
}

#[test]
fn shuffled_decks_differ_from_canonical_order() {
    let ordered = Deck::ordered();
    let mut differs = false;
    for _ in 0..5 {
        if Deck::new().cards != ordered.cards {
            differs = true;
        }
    }
    assert!(differs);
}

#[test]
fn draw_takes_from_the_end_until_empty() {
    let mut d = Deck::ordered();
    assert_eq!(d.draw(), Some(card(Pal::Bastos, 12)));
    assert_eq!(d.len(), 39);
    for _ in 0..39 {
        assert!(d.draw().is_some());
    }
    assert!(d.is_empty());
    assert_eq!(d.draw(), None);
}

#[test]
fn dealing_gives_six_each_and_a_marker() {
    let b = ordered_board();
    for h in &b.hands {
        assert_eq!(h.len(), 6);
    }
    assert_eq!(b.deck.len(), 15);
    assert_eq!(b.current_trumfo, card(Pal::Copes, 6));
    assert_eq!(b.hands[0][0], card(Pal::Bastos, 12));
    assert_eq!(b.hands[1][0], card(Pal::Bastos, 11));
    assert_eq!(b.hands[0][1], card(Pal::Bastos, 6));
    assert_eq!(total_cards(&b), 40);
    let fresh = Board::new(2);
    assert_eq!(fresh.current_player, 2);
    assert_eq!(total_cards(&fresh), 40);
}

#[test]
fn draw_phase_allows_every_card() {
    let b = ordered_board();
    assert_eq!(b.get_legal_cards(), b.get_current_player_hand());
}

#[test]
fn invalid_index_is_refused_without_change() {
    let mut b = ordered_board();
    assert_eq!(b.play_card(6), Err(GameError::InvalidCardIndex));
    assert_eq!(b.hands[0].len(), 6);
    assert_eq!(b.current_player, 0);
}

#[test]
fn declaring_trump_suit_scores_forty() {
    let mut b = ordered_board();
    give(&mut b, 0, 0, card(Pal::Copes, 10));
    give(&mut b, 0, 1, card(Pal::Copes, 12));
    assert_eq!(b.get_available_cantes(0), vec![Pal::Copes]);
    assert_eq!(b.cantar(0, Pal::Copes), Ok(()));
    assert_eq!(b.scores[0], 40);
    assert_eq!(b.scores[1], 0);
    assert_eq!(total_cards(&b), 40);
}

#[test]
fn declaring_other_suit_scores_twenty() {
    let mut b = ordered_board();
    give(&mut b, 2, 0, card(Pal::Orus, 10));
    give(&mut b, 2, 1, card(Pal::Orus, 12));
    assert_eq!(b.cantar(2, Pal::Orus), Ok(()));
    assert_eq!(b.scores[0], 20);
}

#[test]
fn second_declaration_of_a_suit_fails() {
    let mut b = ordered_board();
    give(&mut b, 0, 0, card(Pal::Orus, 10));
    give(&mut b, 0, 1, card(Pal::Orus, 12));
    assert_eq!(b.cantar(0, Pal::Orus), Ok(()));
    assert_eq!(b.cantar(0, Pal::Orus), Err(GameError::IneligibleCante));
    assert_eq!(b.cantar(2, Pal::Orus), Err(GameError::IneligibleCante));
    assert_eq!(b.scores[0], 20);
    assert!(b.get_available_cantes(0).is_empty());
}

#[test]
fn declaration_needs_team_timing_and_cards() {
    let mut b = ordered_board();
    give(&mut b, 1, 0, card(Pal::Orus, 10));
    give(&mut b, 1, 1, card(Pal::Orus, 12));
    // seat 1 is not on the team to act
    assert_eq!(b.cantar(1, Pal::Orus), Err(GameError::IneligibleCante));
    // seat 0 lacks the cards
    assert_eq!(b.cantar(0, Pal::Orus), Err(GameError::IneligibleCante));
    assert_eq!(b.cantar(4, Pal::Orus), Err(GameError::InvalidPlayer));
    // not at the start of a trick
    give(&mut b, 0, 0, card(Pal::Espases, 10));
    give(&mut b, 0, 1, card(Pal::Espases, 12));
    assert_eq!(b.play_card(5), Ok(GameState::Continuation));
    assert_eq!(b.cantar(0, Pal::Espases), Err(GameError::IneligibleCante));
    assert_eq!(b.scores, vec![0, 0]);
}

#[test]
fn exchanging_the_seven_of_trumps() {
    let mut b = ordered_board();
    give(&mut b, 0, 3, card(Pal::Copes, 7));
    assert_eq!(b.is_canvi_trumfo_available(0), Ok(()));
    assert_eq!(b.is_canvi_trumfo_available(1), Err(GameError::IneligibleTrumfoChange));
    assert_eq!(b.is_canvi_trumfo_available(9), Err(GameError::InvalidPlayer));
    assert_eq!(b.change_trumfo_card(0), Ok(()));
    assert_eq!(b.current_trumfo, card(Pal::Copes, 7));
    assert_eq!(b.hands[0][3], card(Pal::Copes, 6));
    assert_eq!(b.change_trumfo_card(0), Err(GameError::IneligibleTrumfoChange));
    assert_eq!(total_cards(&b), 40);
}

#[test]
fn no_exchange_once_the_deck_is_out() {
    let mut b = ordered_board();
    give(&mut b, 0, 3, card(Pal::Copes, 7));
    exhaust_deck(&mut b);
    assert_eq!(b.change_trumfo_card(0), Err(GameError::IneligibleTrumfoChange));
}

#[test]
fn leading_after_deck_is_out_allows_any_card() {
    let mut b = ordered_board();
    exhaust_deck(&mut b);
    let hand = b.get_current_player_hand();
    assert_eq!(b.get_legal_cards(), hand);
    assert_eq!(b.play_card(4), Ok(GameState::Continuation));
    assert_eq!(b.baza[0], Some(hand[4]));
    assert_eq!(b.current_player, 1);
}

/// Deck out, seat 3 (team 1) has led the 4 of Orus, seat 0 to act.
fn forced_follow_board(hand0: Vec<Card>) -> Board {
    let mut b = ordered_board();
    exhaust_deck(&mut b);
    for (i, c) in hand0.iter().enumerate() {
        give(&mut b, 0, i, *c);
    }
    give(&mut b, 3, 0, card(Pal::Orus, 4));
    let led = b.hands[3].remove(0);
    b.baza[3] = Some(led);
    b.baza_starter = 3;
    b.current_player = 0;
    b
}

#[test]
fn forced_follow_no_led_suit_plays_trumps() {
    let b = forced_follow_board(vec![
        card(Pal::Bastos, 1),
        card(Pal::Copes, 2),
        card(Pal::Espases, 3),
        card(Pal::Copes, 11),
        card(Pal::Bastos, 5),
        card(Pal::Espases, 6),
    ]);
    assert_eq!(b.get_legal_cards(), vec![card(Pal::Copes, 2), card(Pal::Copes, 11)]);
}

#[test]
fn forced_follow_no_led_suit_no_trumps_plays_anything() {
    let hand = vec![
        card(Pal::Bastos, 1),
        card(Pal::Bastos, 2),
        card(Pal::Espases, 3),
        card(Pal::Espases, 11),
        card(Pal::Bastos, 5),
        card(Pal::Espases, 6),
    ];
    let mut b = forced_follow_board(hand.clone());
    assert_eq!(b.get_legal_cards(), hand);
    assert_eq!(b.play_card(0), Ok(GameState::Continuation));
}

#[test]
fn forced_follow_must_beat_in_led_suit() {
    let mut b = forced_follow_board(vec![
        card(Pal::Orus, 2),
        card(Pal::Orus, 1),
        card(Pal::Copes, 3),
        card(Pal::Orus, 5),
        card(Pal::Bastos, 5),
        card(Pal::Espases, 6),
    ]);
    assert_eq!(b.get_legal_cards(), vec![card(Pal::Orus, 1), card(Pal::Orus, 5)]);
    assert_eq!(b.play_card(2), Err(GameError::IllegalCard));
    assert_eq!(b.play_card(0), Err(GameError::IllegalCard));
    assert_eq!(b.hands[0].len(), 6);
    assert_eq!(b.play_card(1), Ok(GameState::Continuation));
}

#[test]
fn forced_follow_cannot_beat_follows_suit() {
    let b = forced_follow_board(vec![
        card(Pal::Orus, 2),
        card(Pal::Copes, 1),
        card(Pal::Copes, 3),
        card(Pal::Bastos, 5),
        card(Pal::Bastos, 4),
        card(Pal::Espases, 6),
    ]);
    assert_eq!(b.get_legal_cards(), vec![card(Pal::Orus, 2)]);
}

#[test]
fn forced_follow_partner_winning_follows_suit_only() {
    let mut b = forced_follow_board(vec![
        card(Pal::Orus, 2),
        card(Pal::Copes, 1),
        card(Pal::Orus, 1),
        card(Pal::Bastos, 5),
        card(Pal::Bastos, 4),
        card(Pal::Espases, 6),
    ]);
    // seat 0 plays the ace of Orus; seat 1 (team 1) holds Orus only below it
    assert_eq!(b.play_card(2), Ok(GameState::Continuation));
    assert_eq!(b.current_player, 1);
    give(&mut b, 1, 0, card(Pal::Orus, 3));
    give(&mut b, 1, 1, card(Pal::Orus, 6));
    give(&mut b, 1, 2, card(Pal::Copes, 4));
    let legal = b.get_legal_cards();
    assert_eq!(legal, vec![card(Pal::Orus, 3), card(Pal::Orus, 6)]);
    assert_eq!(b.play_card(0), Ok(GameState::Continuation));
    // seat 2: its partner (seat 0) is winning; it must follow suit, need not beat
    give(&mut b, 2, 0, card(Pal::Orus, 7));
    give(&mut b, 2, 1, card(Pal::Copes, 12));
    let legal2 = b.get_legal_cards();
    assert!(legal2.iter().all(|c| c.pal == Pal::Orus));
    assert!(legal2.contains(&card(Pal::Orus, 7)));
}

#[test]
fn last_draw_hands_out_the_marker() {
    let mut b = ordered_board();
    let extra: Vec<Card> = b.deck.cards.split_off(3);
    b.won[0].extend(extra);
    assert_eq!(b.deck.len(), 3);
    let marker = b.current_trumfo;
    assert_eq!(b.play_card(0), Ok(GameState::Continuation));
    assert_eq!(b.play_card(0), Ok(GameState::Continuation));
    assert_eq!(b.play_card(0), Ok(GameState::Continuation));
    assert_eq!(b.play_card(0), Ok(GameState::BazaEnded));
    let w = b.current_player;
    assert!(b.deck.is_empty());
    assert!(b.trumfo_dealt);
    let last = (w + 3) % 4;
    assert_eq!(*b.hands[last].last().unwrap(), marker);
    for h in &b.hands {
        assert_eq!(h.len(), 6);
    }
    assert!(b.baza.iter().all(|s| s.is_none()));
    assert_eq!(total_cards(&b), 40);
}

#[test]
fn trick_resolution_moves_cards_and_draws() {
    let mut b = ordered_board();
    give(&mut b, 0, 0, card(Pal::Orus, 4));
    give(&mut b, 1, 0, card(Pal::Orus, 1));
    give(&mut b, 2, 0, card(Pal::Bastos, 3));
    give(&mut b, 3, 0, card(Pal::Orus, 2));
    for _ in 0..3 {
        assert_eq!(b.play_card(0), Ok(GameState::Continuation));
    }
    assert_eq!(b.play_card(0), Ok(GameState::BazaEnded));
    assert_eq!(b.current_player, 1);
    assert_eq!(b.baza_starter, 1);
    assert_eq!(b.won[1].len(), 4);
    assert!(b.won[1].contains(&card(Pal::Orus, 1)));
    assert_eq!(b.deck.len(), 11);
    for h in &b.hands {
        assert_eq!(h.len(), 6);
    }
    assert_eq!(total_cards(&b), 40);
}

#[test]
fn trump_wins_the_trick() {
    let mut b = ordered_board();
    give(&mut b, 0, 0, card(Pal::Orus, 1));
    give(&mut b, 1, 0, card(Pal::Orus, 3));
    give(&mut b, 2, 0, card(Pal::Copes, 2));
    give(&mut b, 3, 0, card(Pal::Bastos, 1));
    for _ in 0..4 {
        assert!(b.play_card(0).is_ok());
    }
    assert_eq!(b.current_player, 2);
    assert_eq!(b.won[0].len(), 4);
    assert!(b.won[0].contains(&card(Pal::Copes, 2)));
}

#[test]
fn empty_hands_end_the_round_with_scores() {
    let mut b = ordered_board();
    exhaust_deck(&mut b);
    let finals = [card(Pal::Orus, 1), card(Pal::Orus, 3), card(Pal::Orus, 12), card(Pal::Orus, 10)];
    for s in 0..4 {
        give(&mut b, s, 0, finals[s]);
        let rest: Vec<Card> = b.hands[s].drain(1..).collect();
        b.won[1].extend(rest);
    }
    let team0: Vec<Card> = b.won[0].drain(..).collect();
    b.won[1].extend(team0);
    assert_eq!(total_cards(&b), 40);
    assert_eq!(b.play_card(0), Ok(GameState::Continuation));
    assert_eq!(b.get_legal_cards(), vec![card(Pal::Orus, 3)]);
    assert_eq!(b.play_card(0), Ok(GameState::Continuation));
    assert_eq!(b.play_card(0), Ok(GameState::Continuation));
    assert_eq!(b.play_card(0), Ok(GameState::Team1Won));
    assert!(b.finished);
    assert_eq!(b.current_player, 0);
    assert_eq!(b.scores, vec![38, 92]);
    assert_eq!(b.play_card(0), Err(GameError::InvalidCardIndex));
}

#[test]
fn bots_play_a_round_to_the_end() {
    let bots: Vec<Box<dyn Behaviour>> = vec![
        Box::new(RandomBot::new()),
        Box::new(SmartBot::new()),
        Box::new(RandomBot::new()),
        Box::new(SmartBot::new()),
    ];
    for start in 0..4 {
        let mut b = Board::new(start);
        let mut plays = 0;
        loop {
            let r = bots[b.current_player].play_card(&mut b);
            plays += 1;
            match r {
                Ok(GameState::BazaEnded) => {
                    for p in 0..4 {
                        bots[p].post_baza_actions(&mut b, p);
                    }
                }
                Ok(GameState::Team0Won) | Ok(GameState::Team1Won) => break,
                Ok(_) => {}
                Err(e) => panic!("bot move refused: {:?}", e),
            }
            assert_eq!(total_cards(&b), 40);
        }
        assert_eq!(plays, 40);
        assert!(b.finished);
        let won_points: u32 = b.won.iter().flatten().map(|c| c.points() as u32).sum();
        assert_eq!(won_points, 120);
    }
}

#[test]
fn bot_names() {
    assert_eq!(RandomBot::new().name(), "RandomBot");
    assert_eq!(SmartBot::new().name(), "SmartBot");
}

#[test]
fn smart_bot_picks_strongest() {
    let cards = vec![card(Pal::Orus, 2), card(Pal::Orus, 1), card(Pal::Orus, 3)];
    assert_eq!(guinyot::smart_bot::best_card(&cards, Pal::Copes), card(Pal::Orus, 1));
    let with_trump = vec![card(Pal::Orus, 1), card(Pal::Copes, 2)];
    assert_eq!(guinyot::smart_bot::best_card(&with_trump, Pal::Copes), card(Pal::Copes, 2));
}

#[test]
fn intersect_keeps_common_cards_once() {
    let a = vec![card(Pal::Orus, 1), card(Pal::Copes, 2), card(Pal::Orus, 1), card(Pal::Bastos, 7)];
    let b = vec![card(Pal::Bastos, 7), card(Pal::Orus, 1), card(Pal::Espases, 3)];
    let r = guinyot::utils::intersect(&a, &b);
    assert_eq!(r, vec![card(Pal::Orus, 1), card(Pal::Bastos, 7)]);
    assert!(guinyot::utils::intersect(&a, &vec![]).is_empty());
}

#[test]
fn play_game_ends_with_a_winner() {
    let bots = vec![
        Bot::Random(RandomBot::new()),
        Bot::Smart(SmartBot::new()),
        Bot::Smart(SmartBot::new()),
        Bot::Random(RandomBot::new()),
    ];
    assert_eq!(bots[1].name(), "SmartBot");
    assert_eq!(bots[0].name(), "RandomBot");
    for _ in 0..4 {
        let (r, b) = play_game(&bots);
        assert!(b.finished);
        let expected = if b.scores[0] > b.scores[1] { GameState::Team0Won } else { GameState::Team1Won };
        assert_eq!(r, expected);
        assert_eq!(total_cards(&b), 40);
    }
}

#[test]
fn play_round_from_a_given_board() {
    let bots = vec![
        Bot::Smart(SmartBot::new()),
        Bot::Smart(SmartBot::new()),
        Bot::Smart(SmartBot::new()),
        Bot::Smart(SmartBot::new()),
    ];
    let mut b = ordered_board();
    let r = play_round(&bots, &mut b);
    assert!(b.finished);
    assert!(b.hands.iter().all(|h| h.is_empty()));
    let won_points: u32 = b.won.iter().flatten().map(|c| c.points() as u32).sum();
    assert_eq!(won_points, 120);
    let expected = if b.scores[0] > b.scores[1] { GameState::Team0Won } else { GameState::Team1Won };
    assert_eq!(r, expected);
}

#[test]
fn post_trick_actions_declare_and_exchange() {
    let mut b = ordered_board();
    give(&mut b, 0, 0, card(Pal::Orus, 10));
    give(&mut b, 0, 1, card(Pal::Orus, 12));
    give(&mut b, 0, 2, card(Pal::Copes, 10));
    give(&mut b, 0, 3, card(Pal::Copes, 12));
    give(&mut b, 0, 4, card(Pal::Copes, 7));
    let before_hand = b.hands[0].clone();
    RandomBot::new().post_baza_actions(&mut b, 0);
    assert_eq!(b.scores, vec![60, 0]);
    assert_eq!(b.cantes, vec![true, true, false, false]);
    assert_eq!(b.current_trumfo, card(Pal::Copes, 7));
    let mut expected_hand = before_hand;
    expected_hand[4] = card(Pal::Copes, 6);
    assert_eq!(b.hands[0], expected_hand);
    assert_eq!(b.deck.len(), 15);
    assert_eq!(total_cards(&b), 40);
}

#[test]
fn post_trick_actions_do_nothing_when_nothing_is_due() {
    let mut b = ordered_board();
    give(&mut b, 1, 0, card(Pal::Orus, 10));
    give(&mut b, 1, 1, card(Pal::Orus, 12));
    let hands = b.hands.clone();
    SmartBot::new().post_baza_actions(&mut b, 1);
    SmartBot::new().post_baza_actions(&mut b, 0);
    SmartBot::new().post_baza_actions(&mut b, 7);
    assert_eq!(b.scores, vec![0, 0]);
    assert_eq!(b.cantes, vec![false, false, false, false]);
    assert_eq!(b.hands, hands);
    assert_eq!(b.current_trumfo, card(Pal::Copes, 6));
}

#[test]
fn repeated_post_trick_actions_add_no_second_bonus() {
    let mut b = ordered_board();
    give(&mut b, 2, 0, card(Pal::Bastos, 10));
    give(&mut b, 2, 1, card(Pal::Bastos, 12));
    let bots = vec![
        Bot::Random(RandomBot::new()),
        Bot::Smart(SmartBot::new()),
        Bot::Random(RandomBot::new()),
        Bot::Smart(SmartBot::new()),
    ];
    post_baza_actions(&bots, &mut b);
    assert_eq!(b.scores, vec![20, 0]);
    post_baza_actions(&bots, &mut b);
    assert_eq!(b.scores, vec![20, 0]);
}

#[test]
fn smart_bot_plays_the_strongest_legal_card() {
    let mut b = forced_follow_board(vec![
        card(Pal::Orus, 2),
        card(Pal::Orus, 1),
        card(Pal::Copes, 3),
        card(Pal::Orus, 3),
        card(Pal::Bastos, 5),
        card(Pal::Espases, 6),
    ]);
    assert_eq!(SmartBot::new().play_card(&mut b), Ok(GameState::Continuation));
    assert_eq!(b.baza[0], Some(card(Pal::Orus, 1)));
}

#[test]
fn smart_bot_prefers_trump_in_draw_phase() {
    let mut b = ordered_board();
    give(&mut b, 0, 0, card(Pal::Orus, 1));
    give(&mut b, 0, 1, card(Pal::Copes, 2));
    give(&mut b, 0, 2, card(Pal::Bastos, 2));
    give(&mut b, 0, 3, card(Pal::Bastos, 4));
    give(&mut b, 0, 4, card(Pal::Espases, 2));
    give(&mut b, 0, 5, card(Pal::Espases, 4));
    assert_eq!(SmartBot::new().play_card(&mut b), Ok(GameState::Continuation));
    assert_eq!(b.baza[0], Some(card(Pal::Copes, 2)));
}

#[test]
fn random_bot_plays_a_legal_card() {
    let hand = vec![
        card(Pal::Orus, 2),
        card(Pal::Orus, 1),
        card(Pal::Copes, 3),
        card(Pal::Orus, 5),
        card(Pal::Bastos, 5),
        card(Pal::Espases, 6),
    ];
    let mut b = forced_follow_board(hand);
    assert_eq!(RandomBot::new().play_card(&mut b), Ok(GameState::Continuation));
    let played = b.baza[0].unwrap();
    assert!(played == card(Pal::Orus, 1) || played == card(Pal::Orus, 5));
}

#[test]
fn exchange_can_complete_a_trump_declaration() {
    let mut b = ordered_board();
    give(&mut b, 0, 0, card(Pal::Copes, 12));
    let m = b.current_trumfo;
    b.current_trumfo = b.hands[0][0];
    b.hands[0][0] = m;
    give(&mut b, 0, 1, card(Pal::Copes, 10));
    give(&mut b, 0, 2, card(Pal::Copes, 7));
    assert_eq!(total_cards(&b), 40);
    SmartBot::new().post_baza_actions(&mut b, 0);
    assert_eq!(b.scores, vec![0, 0]);
    assert_eq!(b.current_trumfo, card(Pal::Copes, 7));
    assert_eq!(b.hands[0][2], card(Pal::Copes, 12));
    SmartBot::new().post_baza_actions(&mut b, 0);
    assert_eq!(b.scores, vec![40, 0]);
    SmartBot::new().post_baza_actions(&mut b, 0);
    assert_eq!(b.scores, vec![40, 0]);
}
