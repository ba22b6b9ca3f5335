use blackjack::card::{Card, Rank, Suit, DECK_SIZE};
use blackjack::deck::Deck;
use blackjack::engine::{GameState, GameUI, Intent, Key, Outcome};

fn card(rank: Rank, suit: Suit) -> Card {
    Card::new(rank, suit)
}

/// A full deck that starts with the cards given and goes on with the others
/// in canonical order.
fn stacked(top: &[Card]) -> Deck {
    let mut order: Vec<Card> = top.to_vec();
    for i in 0..DECK_SIZE {
        let c = Card::from_index(i).unwrap();
        if !top.contains(&c) {
            order.push(c);
        }
    }
    Deck::from_cards(order).unwrap()
}

fn game_on(top: &[Card]) -> GameUI {
    GameUI::with_deck(stacked(top))
}

#[test]
fn a_round_starts_with_two_cards_each_dealt_in_turn() {
    let top = [
        card(Rank::Two, Suit::Spades),
        card(Rank::Three, Suit::Hearts),
        card(Rank::Four, Suit::Diamonds),
        card(Rank::Five, Suit::Clubs),
    ];
    let game = game_on(&top);
    assert_eq!(game.state(), GameState::PlayerTurn);
    assert_eq!(game.player_hand().cards(), &vec![top[0], top[2]]);
    assert_eq!(game.dealer_hand().cards(), &vec![top[1], top[3]]);
    assert_eq!(game.deck().dealt(), 4);
    assert_eq!(game.outcome(), None);
    assert_eq!(game.round_result(), "");
}

#[test]
fn a_new_game_deals_four_cards_from_a_full_deck() {
    let game = GameUI::new();
    assert_eq!(game.state(), GameState::PlayerTurn);
    assert_eq!(game.player_hand().len(), 2);
    assert_eq!(game.dealer_hand().len(), 2);
    assert_eq!(game.deck().dealt(), 4);
    assert_eq!(game.deck().remaining(), 48);
    assert_eq!(game.outcome(), None);
    let order = game.deck().cards();
    assert_eq!(game.player_hand().cards(), &vec![order[0], order[2]]);
    assert_eq!(game.dealer_hand().cards(), &vec![order[1], order[3]]);
    let mut indices: Vec<usize> = order.iter().map(|c| c.index()).collect();
    indices.sort();
    assert_eq!(indices, (0..52).collect::<Vec<usize>>());
}

#[test]
fn new_games_are_shuffled() {
    let canonical: Vec<Card> = (0..DECK_SIZE).map(|i| Card::from_index(i).unwrap()).collect();
    let mut moved = false;
    for _ in 0..8 {
        if GameUI::new().deck().cards() != &canonical {
            moved = true;
        }
    }
    assert!(moved);
}

#[test]
fn stand_on_17_against_a_dealer_drawing_to_18_loses() {
    let mut game = game_on(&[
        card(Rank::Ten, Suit::Spades),
        card(Rank::Ten, Suit::Hearts),
        card(Rank::Seven, Suit::Spades),
        card(Rank::Six, Suit::Hearts),
        card(Rank::Two, Suit::Clubs),
    ]);
    assert_eq!(game.player_hand().value(), 17);
    assert_eq!(game.dealer_hand().value(), 16);
    assert!(game.apply_intent(Intent::Stand));
    assert_eq!(game.state(), GameState::RoundEnd);
    assert_eq!(game.player_hand().value(), 17);
    assert_eq!(game.dealer_hand().value(), 18);
    assert_eq!(game.dealer_hand().len(), 3);
    assert_eq!(game.outcome(), Some(Outcome::DealerWins { player: 17, dealer: 18 }));
    assert_eq!(game.round_result(), "You lose. (17 vs 18)");
    assert!(!game.outcome().unwrap().player_won());
}

#[test]
fn hitting_into_22_is_an_immediate_bust() {
    let mut game = game_on(&[
        card(Rank::Ten, Suit::Spades),
        card(Rank::Ten, Suit::Hearts),
        card(Rank::Five, Suit::Spades),
        card(Rank::Six, Suit::Hearts),
        card(Rank::Seven, Suit::Diamonds),
    ]);
    assert!(game.apply_intent(Intent::Hit));
    assert_eq!(game.player_hand().value(), 22);
    assert_eq!(game.state(), GameState::RoundEnd);
    assert_eq!(game.outcome(), Some(Outcome::PlayerBust));
    assert_eq!(game.round_result(), "BUST! You lose this round.");
    assert_eq!(game.dealer_hand().len(), 2);
    assert_eq!(game.dealer_hand().value(), 16);
    assert_eq!(game.deck().dealt(), 5);
}

#[test]
fn dealer_on_16_draws_once_to_17_and_stops() {
    let mut game = game_on(&[
        card(Rank::Ten, Suit::Spades),
        card(Rank::Ten, Suit::Hearts),
        card(Rank::Nine, Suit::Spades),
        card(Rank::Six, Suit::Hearts),
        card(Rank::Ace, Suit::Clubs),
        card(Rank::Two, Suit::Clubs),
    ]);
    assert_eq!(game.dealer_hand().value(), 16);
    assert!(game.apply_intent(Intent::Stand));
    assert_eq!(game.dealer_hand().value(), 17);
    assert_eq!(game.dealer_hand().len(), 3);
    assert_eq!(game.deck().dealt(), 5);
    assert_eq!(game.state(), GameState::RoundEnd);
    assert_eq!(game.outcome(), Some(Outcome::PlayerWins { player: 19, dealer: 17 }));
    assert_eq!(game.round_result(), "You win! (19 vs 17)");
    assert!(game.outcome().unwrap().player_won());
}

#[test]
fn two_hands_of_20_push() {
    let mut game = game_on(&[
        card(Rank::Ten, Suit::Spades),
        card(Rank::King, Suit::Hearts),
        card(Rank::Queen, Suit::Spades),
        card(Rank::Jack, Suit::Hearts),
    ]);
    assert!(game.apply_intent(Intent::Stand));
    assert_eq!(game.state(), GameState::RoundEnd);
    assert_eq!(game.outcome(), Some(Outcome::Push { score: 20 }));
    assert_eq!(game.round_result(), "Push! It's a tie at 20");
    assert_eq!(game.dealer_hand().len(), 2);
}

#[test]
fn dealer_bust_wins_the_round_for_the_player() {
    let mut game = game_on(&[
        card(Rank::Ten, Suit::Spades),
        card(Rank::Ten, Suit::Hearts),
        card(Rank::Two, Suit::Spades),
        card(Rank::Six, Suit::Hearts),
        card(Rank::King, Suit::Clubs),
    ]);
    assert!(game.apply_intent(Intent::Stand));
    assert_eq!(game.dealer_hand().value(), 26);
    assert_eq!(game.outcome(), Some(Outcome::DealerBust));
    assert_eq!(game.round_result(), "Dealer busts! You win!");
    assert!(game.outcome().unwrap().player_won());
}

#[test]
fn dealer_stands_on_soft_17() {
    let mut game = game_on(&[
        card(Rank::Ten, Suit::Spades),
        card(Rank::Ace, Suit::Hearts),
        card(Rank::Eight, Suit::Spades),
        card(Rank::Six, Suit::Hearts),
        card(Rank::Four, Suit::Clubs),
    ]);
    assert!(game.apply_intent(Intent::Stand));
    assert_eq!(game.dealer_hand().len(), 2);
    assert_eq!(game.dealer_hand().value(), 17);
    assert_eq!(game.outcome(), Some(Outcome::PlayerWins { player: 18, dealer: 17 }));
}

#[test]
fn dealer_keeps_drawing_below_17() {
    let mut game = game_on(&[
        card(Rank::Ten, Suit::Spades),
        card(Rank::Two, Suit::Hearts),
        card(Rank::Nine, Suit::Spades),
        card(Rank::Three, Suit::Hearts),
        card(Rank::Four, Suit::Clubs),
        card(Rank::Five, Suit::Clubs),
        card(Rank::Six, Suit::Clubs),
        card(Rank::Seven, Suit::Clubs),
    ]);
    assert!(game.apply_intent(Intent::Stand));
    assert_eq!(game.dealer_hand().len(), 5);
    assert_eq!(game.dealer_hand().value(), 20);
    assert_eq!(game.deck().dealt(), 7);
    assert_eq!(game.outcome(), Some(Outcome::DealerWins { player: 19, dealer: 20 }));
    assert_eq!(game.round_result(), "You lose. (19 vs 20)");
}

#[test]
fn hitting_to_exactly_21_passes_the_turn_at_once() {
    let mut game = game_on(&[
        card(Rank::Ten, Suit::Spades),
        card(Rank::Ten, Suit::Hearts),
        card(Rank::Five, Suit::Spades),
        card(Rank::Eight, Suit::Hearts),
        card(Rank::Six, Suit::Diamonds),
    ]);
    assert!(game.apply_intent(Intent::Hit));
    assert_eq!(game.player_hand().value(), 21);
    assert_eq!(game.state(), GameState::RoundEnd);
    assert_eq!(game.dealer_hand().value(), 18);
    assert_eq!(game.outcome(), Some(Outcome::PlayerWins { player: 21, dealer: 18 }));
    assert_eq!(game.round_result(), "You win! (21 vs 18)");
}

#[test]
fn a_hit_below_21_leaves_the_player_to_move() {
    let mut game = game_on(&[
        card(Rank::Two, Suit::Spades),
        card(Rank::Ten, Suit::Hearts),
        card(Rank::Three, Suit::Spades),
        card(Rank::Eight, Suit::Hearts),
        card(Rank::Four, Suit::Diamonds),
    ]);
    assert!(game.apply_intent(Intent::Hit));
    assert_eq!(game.player_hand().value(), 9);
    assert_eq!(game.state(), GameState::PlayerTurn);
    assert_eq!(game.outcome(), None);
    assert_eq!(game.round_result(), "");
    assert_eq!(game.dealer_hand().len(), 2);
}

#[test]
fn handle_player_turn_does_not_play_the_dealer() {
    let mut game = game_on(&[
        card(Rank::Ten, Suit::Spades),
        card(Rank::Ten, Suit::Hearts),
        card(Rank::Seven, Suit::Spades),
        card(Rank::Six, Suit::Hearts),
        card(Rank::Two, Suit::Clubs),
    ]);
    game.handle_player_turn(Intent::Stand);
    assert_eq!(game.state(), GameState::DealerTurn);
    assert_eq!(game.dealer_hand().len(), 2);
    assert_eq!(game.outcome(), None);
    game.resolve_dealer_turn();
    assert_eq!(game.state(), GameState::RoundEnd);
    assert_eq!(game.dealer_hand().value(), 18);
    assert_eq!(game.round_result(), "You lose. (17 vs 18)");
}

#[test]
fn new_round_during_the_players_turn_changes_nothing() {
    let mut game = game_on(&[
        card(Rank::Two, Suit::Spades),
        card(Rank::Ten, Suit::Hearts),
        card(Rank::Three, Suit::Spades),
        card(Rank::Eight, Suit::Hearts),
    ]);
    let before = game.clone();
    assert!(game.apply_intent(Intent::NewRound));
    assert_eq!(game, before);
    assert!(game.handle_input(Key::Char('n')));
    assert_eq!(game, before);
    assert!(game.apply_intent(Intent::Unrecognized));
    assert_eq!(game, before);
}

#[test]
fn quit_ends_the_game_from_every_phase() {
    let top = [
        card(Rank::Ten, Suit::Spades),
        card(Rank::Ten, Suit::Hearts),
        card(Rank::Seven, Suit::Spades),
        card(Rank::Six, Suit::Hearts),
        card(Rank::Two, Suit::Clubs),
    ];
    let mut in_play = game_on(&top);
    assert!(!in_play.apply_intent(Intent::Quit));
    assert_eq!(in_play.state(), GameState::GameOver);

    let mut passing = game_on(&top);
    passing.handle_player_turn(Intent::Stand);
    assert_eq!(passing.state(), GameState::DealerTurn);
    assert!(!passing.apply_intent(Intent::Quit));
    assert_eq!(passing.state(), GameState::GameOver);

    let mut ended = game_on(&top);
    ended.apply_intent(Intent::Stand);
    assert_eq!(ended.state(), GameState::RoundEnd);
    assert!(!ended.apply_intent(Intent::Quit));
    assert_eq!(ended.state(), GameState::GameOver);
    assert_eq!(ended.round_result(), "You lose. (17 vs 18)");

    assert!(!ended.apply_intent(Intent::Quit));
    assert_eq!(ended.state(), GameState::GameOver);
}

#[test]
fn nothing_changes_once_the_game_is_over() {
    let mut game = game_on(&[
        card(Rank::Two, Suit::Spades),
        card(Rank::Ten, Suit::Hearts),
        card(Rank::Three, Suit::Spades),
        card(Rank::Eight, Suit::Hearts),
    ]);
    game.apply_intent(Intent::Quit);
    let over = game.clone();
    for intent in [Intent::Hit, Intent::Stand, Intent::NewRound, Intent::Unrecognized] {
        assert!(game.apply_intent(intent));
        assert_eq!(game, over);
    }
    assert!(!game.apply_intent(Intent::Quit));
    assert_eq!(game, over);
}

#[test]
fn quit_keeps_hands_and_deck() {
    let mut game = game_on(&[
        card(Rank::Two, Suit::Spades),
        card(Rank::Ten, Suit::Hearts),
        card(Rank::Three, Suit::Spades),
        card(Rank::Eight, Suit::Hearts),
    ]);
    let before = game.clone();
    game.apply_intent(Intent::Quit);
    assert_eq!(game.player_hand(), before.player_hand());
    assert_eq!(game.dealer_hand(), before.dealer_hand());
    assert_eq!(game.deck(), before.deck());
    assert_eq!(game.outcome(), None);
}

#[test]
fn hit_and_stand_are_ignored_once_the_round_is_over() {
    let mut game = game_on(&[
        card(Rank::Ten, Suit::Spades),
        card(Rank::King, Suit::Hearts),
        card(Rank::Queen, Suit::Spades),
        card(Rank::Jack, Suit::Hearts),
    ]);
    game.apply_intent(Intent::Stand);
    let ended = game.clone();
    for intent in [Intent::Hit, Intent::Stand, Intent::Unrecognized] {
        assert!(game.apply_intent(intent));
        assert_eq!(game, ended);
    }
}

#[test]
fn new_round_after_the_end_deals_afresh() {
    let mut game = game_on(&[
        card(Rank::Ten, Suit::Spades),
        card(Rank::King, Suit::Hearts),
        card(Rank::Queen, Suit::Spades),
        card(Rank::Jack, Suit::Hearts),
    ]);
    game.apply_intent(Intent::Stand);
    assert_eq!(game.state(), GameState::RoundEnd);
    assert!(game.apply_intent(Intent::NewRound));
    assert_eq!(game.state(), GameState::PlayerTurn);
    assert_eq!(game.outcome(), None);
    assert_eq!(game.round_result(), "");
    assert_eq!(game.player_hand().len(), 2);
    assert_eq!(game.dealer_hand().len(), 2);
    assert_eq!(game.deck().dealt(), 4);
    let order = game.deck().cards();
    assert_eq!(game.player_hand().cards(), &vec![order[0], order[2]]);
    assert_eq!(game.dealer_hand().cards(), &vec![order[1], order[3]]);
}

#[test]
fn reset_round_works_from_any_phase() {
    let mut game = game_on(&[
        card(Rank::Two, Suit::Spades),
        card(Rank::Ten, Suit::Hearts),
        card(Rank::Three, Suit::Spades),
        card(Rank::Eight, Suit::Hearts),
        card(Rank::Four, Suit::Hearts),
    ]);
    game.apply_intent(Intent::Hit);
    assert_eq!(game.player_hand().len(), 3);
    game.reset_round();
    assert_eq!(game.state(), GameState::PlayerTurn);
    assert_eq!(game.player_hand().len(), 2);
    assert_eq!(game.dealer_hand().len(), 2);
    assert_eq!(game.deck().dealt(), 4);
    let mut indices: Vec<usize> = game.deck().cards().iter().map(|c| c.index()).collect();
    indices.sort();
    assert_eq!(indices, (0..52).collect::<Vec<usize>>());
}

#[test]
fn keys_map_to_intents() {
    assert_eq!(Intent::from_key(Key::Char('h')), Intent::Hit);
    assert_eq!(Intent::from_key(Key::Char('H')), Intent::Hit);
    assert_eq!(Intent::from_key(Key::Char('s')), Intent::Stand);
    assert_eq!(Intent::from_key(Key::Char('S')), Intent::Stand);
    assert_eq!(Intent::from_key(Key::Char('n')), Intent::NewRound);
    assert_eq!(Intent::from_key(Key::Char('N')), Intent::NewRound);
    assert_eq!(Intent::from_key(Key::Char('q')), Intent::Quit);
    assert_eq!(Intent::from_key(Key::Char('Q')), Intent::Quit);
    assert_eq!(Intent::from_key(Key::Esc), Intent::Quit);
    assert_eq!(Intent::from_key(Key::Char('x')), Intent::Unrecognized);
    assert_eq!(Intent::from_key(Key::Char(' ')), Intent::Unrecognized);
    assert_eq!(Intent::from_key(Key::Other), Intent::Unrecognized);
}

#[test]
fn handle_input_plays_by_key() {
    let mut game = game_on(&[
        card(Rank::Ten, Suit::Spades),
        card(Rank::Ten, Suit::Hearts),
        card(Rank::Five, Suit::Spades),
        card(Rank::Six, Suit::Hearts),
        card(Rank::Two, Suit::Diamonds),
        card(Rank::Nine, Suit::Diamonds),
    ]);
    assert!(game.handle_input(Key::Char('x')));
    assert_eq!(game.player_hand().len(), 2);
    assert!(game.handle_input(Key::Char('H')));
    assert_eq!(game.player_hand().value(), 17);
    assert_eq!(game.state(), GameState::PlayerTurn);
    assert!(game.handle_input(Key::Char('s')));
    assert_eq!(game.state(), GameState::RoundEnd);
    assert_eq!(game.dealer_hand().value(), 25);
    assert_eq!(game.round_result(), "Dealer busts! You win!");
    assert!(!game.handle_input(Key::Esc));
    assert_eq!(game.state(), GameState::GameOver);
}

#[test]
fn every_card_stays_in_exactly_one_place() {
    let mut game = GameUI::new();
    for _ in 0..3 {
        if game.state() == GameState::PlayerTurn {
            game.apply_intent(Intent::Hit);
        }
    }
    if game.state() == GameState::PlayerTurn {
        game.apply_intent(Intent::Stand);
    }
    let dealt = game.deck().dealt();
    assert_eq!(dealt, game.player_hand().len() + game.dealer_hand().len());
    let mut held: Vec<usize> = game
        .player_hand()
        .cards()
        .iter()
        .chain(game.dealer_hand().cards().iter())
        .map(|c| c.index())
        .collect();
    held.sort();
    let mut gone: Vec<usize> = game.deck().cards()[..dealt].iter().map(|c| c.index()).collect();
    gone.sort();
    assert_eq!(held, gone);
}

#[test]
fn settle_follows_the_scores() {
    assert_eq!(Outcome::settle(17, 22), Outcome::DealerBust);
    assert_eq!(Outcome::settle(20, 19), Outcome::PlayerWins { player: 20, dealer: 19 });
    assert_eq!(Outcome::settle(18, 19), Outcome::DealerWins { player: 18, dealer: 19 });
    assert_eq!(Outcome::settle(21, 21), Outcome::Push { score: 21 });
    assert_eq!(Outcome::settle(4, 17), Outcome::DealerWins { player: 4, dealer: 17 });
}

#[test]
fn messages_carry_the_scores() {
    assert_eq!(Outcome::PlayerBust.message(), "BUST! You lose this round.");
    assert_eq!(Outcome::DealerBust.message(), "Dealer busts! You win!");
    assert_eq!(Outcome::PlayerWins { player: 21, dealer: 9 }.message(), "You win! (21 vs 9)");
    assert_eq!(Outcome::DealerWins { player: 5, dealer: 20 }.message(), "You lose. (5 vs 20)");
    assert_eq!(Outcome::Push { score: 17 }.message(), "Push! It's a tie at 17");
}

#[test]
fn intents_are_ignored_while_the_dealer_is_to_play() {
    let mut game = game_on(&[
        card(Rank::Ten, Suit::Spades),
        card(Rank::Ten, Suit::Hearts),
        card(Rank::Seven, Suit::Spades),
        card(Rank::Six, Suit::Hearts),
    ]);
    game.handle_player_turn(Intent::Stand);
    let waiting = game.clone();
    for intent in [Intent::Hit, Intent::Stand, Intent::NewRound, Intent::Unrecognized] {
        assert!(game.apply_intent(intent));
        assert_eq!(game, waiting);
    }
}

#[test]
fn a_player_on_21_from_the_deal_may_still_hit() {
    let mut game = game_on(&[
        card(Rank::Ace, Suit::Spades),
        card(Rank::Ten, Suit::Hearts),
        card(Rank::King, Suit::Spades),
        card(Rank::Nine, Suit::Hearts),
        card(Rank::Five, Suit::Diamonds),
    ]);
    assert_eq!(game.player_hand().value(), 21);
    assert_eq!(game.state(), GameState::PlayerTurn);
    assert!(game.apply_intent(Intent::Hit));
    assert_eq!(game.player_hand().value(), 16);
    assert_eq!(game.state(), GameState::PlayerTurn);
}

#[test]
fn a_long_run_of_small_cards_never_empties_the_deck() {
    let mut top: Vec<Card> = Vec::new();
    for rank in [Rank::Ace, Rank::Two, Rank::Three, Rank::Four] {
        for suit in [Suit::Spades, Suit::Hearts, Suit::Diamonds, Suit::Clubs] {
            top.push(card(rank, suit));
        }
    }
    let mut game = game_on(&top);
    let mut hits = 0;
    while game.state() == GameState::PlayerTurn {
        game.apply_intent(Intent::Hit);
        hits += 1;
        assert!(hits <= 21);
    }
    assert_eq!(game.state(), GameState::RoundEnd);
    assert!(game.outcome().is_some());
    assert_eq!(game.deck().dealt(), game.player_hand().len() + game.dealer_hand().len());
    assert!(game.deck().dealt() < 52);
}

#[test]
fn many_random_rounds_end_with_the_outcome_the_scores_give() {
    for _ in 0..200 {
        let mut game = GameUI::new();
        while game.state() == GameState::PlayerTurn {
            if game.player_hand().value() < 15 {
                game.apply_intent(Intent::Hit);
            } else {
                game.apply_intent(Intent::Stand);
            }
        }
        assert_eq!(game.state(), GameState::RoundEnd);
        let player = game.player_hand().value();
        let dealer = game.dealer_hand().value();
        let expected = if player > 21 {
            Outcome::PlayerBust
        } else if dealer > 21 {
            Outcome::DealerBust
        } else if player > dealer {
            Outcome::PlayerWins { player, dealer }
        } else if player < dealer {
            Outcome::DealerWins { player, dealer }
        } else {
            Outcome::Push { score: player }
        };
        assert_eq!(game.outcome(), Some(expected));
        if player <= 21 {
            assert!(dealer >= 17);
        } else {
            assert_eq!(game.dealer_hand().len(), 2);
        }
    }
}
