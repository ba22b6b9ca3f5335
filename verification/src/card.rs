//! Playing cards: ranks, suits and the fifty-two cards they form.

use vstd::prelude::*;

verus! {

/// The thirteen ranks, in ascending order with the ace low.
#[derive(Clone, Copy, Debug, PartialEq, Eq, Structural, Hash)]
pub enum Rank {
    Ace,
    Two,
    Three,
    Four,
    Five,
    Six,
    Seven,
    Eight,
    Nine,
    Ten,
    Jack,
    Queen,
    King,
}

/// The four suits. A suit never changes what a card is worth.
#[derive(Clone, Copy, Debug, PartialEq, Eq, Structural, Hash)]
pub enum Suit {
    Spades,
    Hearts,
    Diamonds,
    Clubs,
}

/// One of the fifty-two cards.
#[derive(Clone, Copy, Debug, PartialEq, Eq, Structural, Hash)]
pub struct Card {
    pub rank: Rank,
    pub suit: Suit,
}

/// How many ranks there are.
pub const RANKS: usize = 13;

/// How many suits there are.
pub const SUITS: usize = 4;

/// How many cards a full deck holds.
pub const DECK_SIZE: usize = 52;

impl Rank {
    /// Position of the rank among the thirteen, counted from the ace at 0.
    pub open spec fn spec_index(self) -> nat {
        match self {
            Rank::Ace => 0,
            Rank::Two => 1,
            Rank::Three => 2,
            Rank::Four => 3,
            Rank::Five => 4,
            Rank::Six => 5,
            Rank::Seven => 6,
            Rank::Eight => 7,
            Rank::Nine => 8,
            Rank::Ten => 9,
            Rank::Jack => 10,
            Rank::Queen => 11,
            Rank::King => 12,
        }
    }

    /// The rank at a position, or `None` from 13 on.
    pub open spec fn spec_from_index(i: nat) -> Option<Rank> {
        if i == 0 {
            Some(Rank::Ace)
        } else if i == 1 {
            Some(Rank::Two)
        } else if i == 2 {
            Some(Rank::Three)
        } else if i == 3 {
            Some(Rank::Four)
        } else if i == 4 {
            Some(Rank::Five)
        } else if i == 5 {
            Some(Rank::Six)
        } else if i == 6 {
            Some(Rank::Seven)
        } else if i == 7 {
            Some(Rank::Eight)
        } else if i == 8 {
            Some(Rank::Nine)
        } else if i == 9 {
            Some(Rank::Ten)
        } else if i == 10 {
            Some(Rank::Jack)
        } else if i == 11 {
            Some(Rank::Queen)
        } else if i == 12 {
            Some(Rank::King)
        } else {
            None
        }
    }

    /// What the rank scores before any ace is softened: pip cards their
    /// number, court cards 10, the ace 11.
    pub open spec fn spec_value(self) -> nat {
        match self {
            Rank::Ace => 11,
            Rank::Jack | Rank::Queen | Rank::King => 10,
            _ => self.spec_index() + 1,
        }
    }

    /// What the rank scores with the ace counted low.
    pub open spec fn spec_low_value(self) -> nat {
        if self == Rank::Ace {
            1
        } else {
            self.spec_value()
        }
    }

    /// The rank as it is printed on a card.
    pub open spec fn spec_label(self) -> Seq<char> {
        match self {
            Rank::Ace => seq!['A'],
            Rank::Two => seq!['2'],
            Rank::Three => seq!['3'],
            Rank::Four => seq!['4'],
            Rank::Five => seq!['5'],
            Rank::Six => seq!['6'],
            Rank::Seven => seq!['7'],
            Rank::Eight => seq!['8'],
            Rank::Nine => seq!['9'],
            Rank::Ten => seq!['1', '0'],
            Rank::Jack => seq!['J'],
            Rank::Queen => seq!['Q'],
            Rank::King => seq!['K'],
        }
    }

    /// Position of the rank among the thirteen, counted from the ace at 0.
    pub fn index(self) -> (i: usize)
        ensures
            i == self.spec_index(),
            i < RANKS,
    {
        match self {
            Rank::Ace => 0,
            Rank::Two => 1,
            Rank::Three => 2,
            Rank::Four => 3,
            Rank::Five => 4,
            Rank::Six => 5,
            Rank::Seven => 6,
            Rank::Eight => 7,
            Rank::Nine => 8,
            Rank::Ten => 9,
            Rank::Jack => 10,
            Rank::Queen => 11,
            Rank::King => 12,
        }
    }

    /// The rank at a position, or `None` from 13 on.
    pub fn from_index(i: usize) -> (r: Option<Rank>)
        ensures
            r == Rank::spec_from_index(i as nat),
            r is Some <==> i < RANKS,
    {
        match i {
            0 => Some(Rank::Ace),
            1 => Some(Rank::Two),
            2 => Some(Rank::Three),
            3 => Some(Rank::Four),
            4 => Some(Rank::Five),
            5 => Some(Rank::Six),
            6 => Some(Rank::Seven),
            7 => Some(Rank::Eight),
            8 => Some(Rank::Nine),
            9 => Some(Rank::Ten),
            10 => Some(Rank::Jack),
            11 => Some(Rank::Queen),
            12 => Some(Rank::King),
            _ => None,
        }
    }

    /// Whether this is the ace.
    pub fn is_ace(self) -> (b: bool)
        ensures
            b == (self == Rank::Ace),
    {
        match self {
            Rank::Ace => true,
            _ => false,
        }
    }

    /// What the rank scores before any ace is softened.
    pub fn value(self) -> (v: u32)
        ensures
            v == self.spec_value(),
            2 <= v <= 11,
    {
        match self {
            Rank::Ace => 11,
            Rank::Two => 2,
            Rank::Three => 3,
            Rank::Four => 4,
            Rank::Five => 5,
            Rank::Six => 6,
            Rank::Seven => 7,
            Rank::Eight => 8,
            Rank::Nine => 9,
            Rank::Ten | Rank::Jack | Rank::Queen | Rank::King => 10,
        }
    }

    /// The rank as it is printed on a card.
    pub fn label(self) -> (s: &'static str)
        ensures
            s@ == self.spec_label(),
    {
        proof {
            reveal_strlit("A");
            reveal_strlit("2");
            reveal_strlit("3");
            reveal_strlit("4");
            reveal_strlit("5");
            reveal_strlit("6");
            reveal_strlit("7");
            reveal_strlit("8");
            reveal_strlit("9");
            reveal_strlit("10");
            reveal_strlit("J");
            reveal_strlit("Q");
            reveal_strlit("K");
        }
        let s = match self {
            Rank::Ace => "A",
            Rank::Two => "2",
            Rank::Three => "3",
            Rank::Four => "4",
            Rank::Five => "5",
            Rank::Six => "6",
            Rank::Seven => "7",
            Rank::Eight => "8",
            Rank::Nine => "9",
            Rank::Ten => "10",
            Rank::Jack => "J",
            Rank::Queen => "Q",
            Rank::King => "K",
        };
        s
    }
}

impl Suit {
    /// Position of the suit among the four.
    pub open spec fn spec_index(self) -> nat {
        match self {
            Suit::Spades => 0,
            Suit::Hearts => 1,
            Suit::Diamonds => 2,
            Suit::Clubs => 3,
        }
    }

    /// The suit at a position, or `None` from 4 on.
    pub open spec fn spec_from_index(i: nat) -> Option<Suit> {
        if i == 0 {
            Some(Suit::Spades)
        } else if i == 1 {
            Some(Suit::Hearts)
        } else if i == 2 {
            Some(Suit::Diamonds)
        } else if i == 3 {
            Some(Suit::Clubs)
        } else {
            None
        }
    }

    /// The suit's pip.
    pub open spec fn spec_symbol(self) -> char {
        match self {
            Suit::Spades => '♠',
            Suit::Hearts => '♥',
            Suit::Diamonds => '♦',
            Suit::Clubs => '♣',
        }
    }

    /// Position of the suit among the four.
    pub fn index(self) -> (i: usize)
        ensures
            i == self.spec_index(),
            i < SUITS,
    {
        match self {
            Suit::Spades => 0,
            Suit::Hearts => 1,
            Suit::Diamonds => 2,
            Suit::Clubs => 3,
        }
    }

    /// The suit at a position, or `None` from 4 on.
    pub fn from_index(i: usize) -> (s: Option<Suit>)
        ensures
            s == Suit::spec_from_index(i as nat),
            s is Some <==> i < SUITS,
    {
        match i {
            0 => Some(Suit::Spades),
            1 => Some(Suit::Hearts),
            2 => Some(Suit::Diamonds),
            3 => Some(Suit::Clubs),
            _ => None,
        }
    }

    /// The suit's pip, as a text of one character.
    pub fn symbol(self) -> (s: &'static str)
        ensures
            s@ == seq![self.spec_symbol()],
    {
        proof {
            reveal_strlit("♠");
            reveal_strlit("♥");
            reveal_strlit("♦");
            reveal_strlit("♣");
        }
        let s = match self {
            Suit::Spades => "♠",
            Suit::Hearts => "♥",
            Suit::Diamonds => "♦",
            Suit::Clubs => "♣",
        };
        s
    }
}

impl Card {
    /// Position of the card in the canonical order: suit by suit, and within a
    /// suit from the ace up to the king.
    pub open spec fn spec_index(self) -> nat {
        self.suit.spec_index() * 13 + self.rank.spec_index()
    }

    /// The card at a position of the canonical order, or `None` from 52 on.
    pub open spec fn spec_from_index(i: nat) -> Option<Card> {
        if i < 52 {
            Some(
                Card {
                    rank: Rank::spec_from_index(i % 13).unwrap(),
                    suit: Suit::spec_from_index(i / 13).unwrap(),
                },
            )
        } else {
            None
        }
    }

    /// What the card scores before any ace is softened.
    pub open spec fn spec_value(self) -> nat {
        self.rank.spec_value()
    }

    /// What the card scores with the ace counted low.
    pub open spec fn spec_low_value(self) -> nat {
        self.rank.spec_low_value()
    }

    /// Whether the card is an ace.
    pub open spec fn spec_is_ace(self) -> bool {
        self.rank == Rank::Ace
    }

    /// The card as it is shown: its rank, then its suit's pip.
    pub open spec fn spec_label(self) -> Seq<char> {
        self.rank.spec_label().push(self.suit.spec_symbol())
    }

    /// The card of a rank and a suit.
    pub fn new(rank: Rank, suit: Suit) -> (c: Card)
        ensures
            c == (Card { rank, suit }),
    {
        Card { rank, suit }
    }

    /// The card's rank.
    pub fn rank(&self) -> (r: Rank)
        ensures
            r == self.rank,
    {
        self.rank
    }

    /// The card's suit.
    pub fn suit(&self) -> (s: Suit)
        ensures
            s == self.suit,
    {
        self.suit
    }

    /// Whether the card is an ace.
    pub fn is_ace(&self) -> (b: bool)
        ensures
            b == self.spec_is_ace(),
    {
        self.rank.is_ace()
    }

    /// The base value used for scoring; an ace counts 11 here, and a hand
    /// lowers it to 1 where it has to.
    pub fn value(&self) -> (v: u32)
        ensures
            v == self.spec_value(),
            2 <= v <= 11,
    {
        self.rank.value()
    }

    /// Position of the card in the canonical order.
    pub fn index(&self) -> (i: usize)
        ensures
            i == self.spec_index(),
            i < DECK_SIZE,
    {
        self.suit.index() * RANKS + self.rank.index()
    }

    /// The card at a position of the canonical order, or `None` from 52 on.
    pub fn from_index(i: usize) -> (c: Option<Card>)
        ensures
            c == Card::spec_from_index(i as nat),
            c is Some <==> i < DECK_SIZE,
    {
        if i < DECK_SIZE {
            let rank = Rank::from_index(i % RANKS);
            let suit = Suit::from_index(i / RANKS);
            match (rank, suit) {
                (Some(rank), Some(suit)) => Some(Card { rank, suit }),
                _ => None,
            }
        } else {
            None
        }
    }

    /// The card as it is shown: its rank, then its suit's pip.
    pub fn label(&self) -> (s: String)
        ensures
            s@ == self.spec_label(),
    {
        let mut s = String::from_str(self.rank.label());
        s.append(self.suit.symbol());
        s
    }
}

/// Every card sits at its own position of the canonical order.
pub proof fn lemma_index_round_trip(c: Card)
    ensures
        c.spec_index() < 52,
        Card::spec_from_index(c.spec_index()) == Some(c),
{
}

/// Every position below 52 holds a card, and that card knows its position.
pub proof fn lemma_from_index_round_trip(i: nat)
    requires
        i < 52,
    ensures
        Card::spec_from_index(i) is Some,
        Card::spec_from_index(i).unwrap().spec_index() == i,
{
}

} // verus!
