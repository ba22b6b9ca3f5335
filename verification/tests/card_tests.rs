use blackjack::card::{Card, Rank, Suit, DECK_SIZE, RANKS, SUITS};

#[test]
fn pip_cards_score_their_number() {
    assert_eq!(Rank::Two.value(), 2);
    assert_eq!(Rank::Three.value(), 3);
    assert_eq!(Rank::Four.value(), 4);
    assert_eq!(Rank::Five.value(), 5);
    assert_eq!(Rank::Six.value(), 6);
    assert_eq!(Rank::Seven.value(), 7);
    assert_eq!(Rank::Eight.value(), 8);
    assert_eq!(Rank::Nine.value(), 9);
    assert_eq!(Rank::Ten.value(), 10);
}

#[test]
fn court_cards_score_ten() {
    assert_eq!(Rank::Jack.value(), 10);
    assert_eq!(Rank::Queen.value(), 10);
    assert_eq!(Rank::King.value(), 10);
}

#[test]
fn an_ace_has_a_base_of_eleven() {
    assert_eq!(Rank::Ace.value(), 11);
    assert!(Rank::Ace.is_ace());
    assert!(!Rank::King.is_ace());
    assert!(Card::new(Rank::Ace, Suit::Clubs).is_ace());
}

#[test]
fn suit_does_not_change_the_value() {
    for suit in [Suit::Spades, Suit::Hearts, Suit::Diamonds, Suit::Clubs] {
        assert_eq!(Card::new(Rank::Seven, suit).value(), 7);
        assert_eq!(Card::new(Rank::Ace, suit).value(), 11);
    }
}

#[test]
fn a_card_exposes_rank_and_suit() {
    let card = Card::new(Rank::Queen, Suit::Diamonds);
    assert_eq!(card.rank(), Rank::Queen);
    assert_eq!(card.suit(), Suit::Diamonds);
    assert_eq!(card, Card { rank: Rank::Queen, suit: Suit::Diamonds });
}

#[test]
fn index_and_from_index_are_inverse() {
    for i in 0..DECK_SIZE {
        let card = Card::from_index(i).unwrap();
        assert_eq!(card.index(), i);
    }
    assert_eq!(Card::from_index(DECK_SIZE), None);
    assert_eq!(Card::from_index(usize::MAX), None);
}

#[test]
fn canonical_index_runs_suit_by_suit() {
    assert_eq!(Card::from_index(0), Some(Card::new(Rank::Ace, Suit::Spades)));
    assert_eq!(Card::from_index(12), Some(Card::new(Rank::King, Suit::Spades)));
    assert_eq!(Card::from_index(13), Some(Card::new(Rank::Ace, Suit::Hearts)));
    assert_eq!(Card::from_index(26), Some(Card::new(Rank::Ace, Suit::Diamonds)));
    assert_eq!(Card::from_index(51), Some(Card::new(Rank::King, Suit::Clubs)));
    assert_eq!(Card::new(Rank::Ten, Suit::Hearts).index(), 22);
}

#[test]
fn rank_and_suit_indices_round_trip() {
    for i in 0..RANKS {
        assert_eq!(Rank::from_index(i).unwrap().index(), i);
    }
    assert_eq!(Rank::from_index(RANKS), None);
    for i in 0..SUITS {
        assert_eq!(Suit::from_index(i).unwrap().index(), i);
    }
    assert_eq!(Suit::from_index(SUITS), None);
}

#[test]
fn labels_show_rank_then_suit() {
    assert_eq!(Card::new(Rank::Ace, Suit::Spades).label(), "A♠");
    assert_eq!(Card::new(Rank::Ten, Suit::Hearts).label(), "10♥");
    assert_eq!(Card::new(Rank::Jack, Suit::Diamonds).label(), "J♦");
    assert_eq!(Card::new(Rank::Two, Suit::Clubs).label(), "2♣");
    assert_eq!(Rank::Queen.label(), "Q");
    assert_eq!(Rank::King.label(), "K");
    assert_eq!(Suit::Hearts.symbol(), "♥");
}
