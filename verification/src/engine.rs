//! The round: whose turn it is, what each intent does, how the dealer plays
//! and who wins.

use crate::card::Card;
use crate::deck::{
    is_full_deck, is_shuffled_deck, lemma_full_deck_is_complete, Deck, DeckView,
};
use crate::hand::{display_of, hand_value, lemma_total_bounds, Hand, TARGET};
use crate::text::{decimal, u32_to_string};
use vstd::prelude::*;
use vstd::seq_lib::{lemma_multiset_commutative, to_multiset_build, to_multiset_len};

verus! {

/// The dealer draws while scoring less than this, and stands from here on.
pub const DEALER_STANDS: u32 = 17;

/// The phases of play.
#[derive(Clone, Copy, Debug, PartialEq, Eq, Structural)]
pub enum GameState {
    /// The player may hit or stand.
    PlayerTurn,
    /// The player is done and the dealer is about to play.
    DealerTurn,
    /// The round is decided; only a new round leads on.
    RoundEnd,
    /// The player has quit. Nothing leads on from here.
    GameOver,
}

/// What the player can ask for.
#[derive(Clone, Copy, Debug, PartialEq, Eq, Structural)]
pub enum Intent {
    Hit,
    Stand,
    NewRound,
    Quit,
    /// Anything else; it is ignored.
    Unrecognized,
}

/// A key press, as far as the game tells keys apart.
#[derive(Clone, Copy, Debug, PartialEq, Eq, Structural)]
pub enum Key {
    Char(char),
    Esc,
    Other,
}

/// How a round ended.
#[derive(Clone, Copy, Debug, PartialEq, Eq, Structural)]
pub enum Outcome {
    /// The player went over 21 and loses at once.
    PlayerBust,
    /// The dealer went over 21 and the player wins.
    DealerBust,
    /// Nobody bust and the player scored more.
    PlayerWins { player: u32, dealer: u32 },
    /// Nobody bust and the dealer scored more.
    DealerWins { player: u32, dealer: u32 },
    /// Nobody bust and both scored the same.
    Push { score: u32 },
}

/// The intent that a key stands for.
pub open spec fn intent_of(key: Key) -> Intent {
    match key {
        Key::Char(c) => if c == 'h' || c == 'H' {
            Intent::Hit
        } else if c == 's' || c == 'S' {
            Intent::Stand
        } else if c == 'n' || c == 'N' {
            Intent::NewRound
        } else if c == 'q' || c == 'Q' {
            Intent::Quit
        } else {
            Intent::Unrecognized
        },
        Key::Esc => Intent::Quit,
        Key::Other => Intent::Unrecognized,
    }
}

/// The outcome for a player who has not bust, from the two final scores.
pub open spec fn settle(player: u32, dealer: u32) -> Outcome {
    if dealer > 21 {
        Outcome::DealerBust
    } else if player > dealer {
        Outcome::PlayerWins { player, dealer }
    } else if player < dealer {
        Outcome::DealerWins { player, dealer }
    } else {
        Outcome::Push { score: player }
    }
}

/// The outcome of a round that is over, from the two final scores.
pub open spec fn outcome_of(player: u32, dealer: u32) -> Outcome {
    if player > 21 {
        Outcome::PlayerBust
    } else {
        settle(player, dealer)
    }
}

impl Intent {
    /// The intent that a key stands for: H hits, S stands, N asks for a new
    /// round, Q and Escape quit, in either case of the letter; no other key
    /// means anything.
    pub fn from_key(key: Key) -> (intent: Intent)
        ensures
            intent == intent_of(key),
    {
        match key {
            Key::Char(c) => {
                if c == 'h' || c == 'H' {
                    Intent::Hit
                } else if c == 's' || c == 'S' {
                    Intent::Stand
                } else if c == 'n' || c == 'N' {
                    Intent::NewRound
                } else if c == 'q' || c == 'Q' {
                    Intent::Quit
                } else {
                    Intent::Unrecognized
                }
            },
            Key::Esc => Intent::Quit,
            Key::Other => Intent::Unrecognized,
        }
    }
}

impl Outcome {
    /// The outcome in words, with the scores where they decided it.
    pub open spec fn spec_message(self) -> Seq<char> {
        match self {
            Outcome::PlayerBust => "BUST! You lose this round."@,
            Outcome::DealerBust => "Dealer busts! You win!"@,
            Outcome::PlayerWins { player, dealer } => "You win! ("@ + decimal(player as nat)
                + " vs "@ + decimal(dealer as nat) + ")"@,
            Outcome::DealerWins { player, dealer } => "You lose. ("@ + decimal(player as nat)
                + " vs "@ + decimal(dealer as nat) + ")"@,
            Outcome::Push { score } => "Push! It's a tie at "@ + decimal(score as nat),
        }
    }

    /// Whether the player won the round.
    pub open spec fn spec_player_won(self) -> bool {
        self is DealerBust || self is PlayerWins
    }

    /// The outcome for a player who has not bust, from the two final scores:
    /// a dealer over 21 loses, otherwise the higher score wins and equal
    /// scores tie.
    pub fn settle(player: u32, dealer: u32) -> (o: Outcome)
        ensures
            o == settle(player, dealer),
    {
        if dealer > TARGET {
            Outcome::DealerBust
        } else if player > dealer {
            Outcome::PlayerWins { player, dealer }
        } else if player < dealer {
            Outcome::DealerWins { player, dealer }
        } else {
            Outcome::Push { score: player }
        }
    }

    /// Whether the player won the round.
    pub fn player_won(&self) -> (b: bool)
        ensures
            b == self.spec_player_won(),
    {
        match self {
            Outcome::DealerBust => true,
            Outcome::PlayerWins { .. } => true,
            _ => false,
        }
    }

    /// The outcome in words, with the scores where they decided it.
    pub fn message(&self) -> (s: String)
        ensures
            s@ == self.spec_message(),
    {
        match self {
            Outcome::PlayerBust => String::from_str("BUST! You lose this round."),
            Outcome::DealerBust => String::from_str("Dealer busts! You win!"),
            Outcome::PlayerWins { player, dealer } => {
                let mut s = String::from_str("You win! (");
                s.append(u32_to_string(*player).as_str());
                s.append(" vs ");
                s.append(u32_to_string(*dealer).as_str());
                s.append(")");
                s
            },
            Outcome::DealerWins { player, dealer } => {
                let mut s = String::from_str("You lose. (");
                s.append(u32_to_string(*player).as_str());
                s.append(" vs ");
                s.append(u32_to_string(*dealer).as_str());
                s.append(")");
                s
            },
            Outcome::Push { score } => {
                let mut s = String::from_str("Push! It's a tie at ");
                s.append(u32_to_string(*score).as_str());
                s
            },
        }
    }
}

/// What a game is, seen from outside.
pub struct GameView {
    pub state: GameState,
    pub deck: DeckView,
    pub player: Seq<Card>,
    pub dealer: Seq<Card>,
    pub outcome: Option<Outcome>,
}

/// A hand's score as the machine holds it.
pub open spec fn score(cards: Seq<Card>) -> u32 {
    hand_value(cards) as u32
}

/// What is shown of the dealer's cards. While the player is to move only the
/// first card is shown and the second is masked; from the dealer's turn on
/// the whole hand is shown.
pub open spec fn shown_dealer_cards(v: GameView) -> Seq<char> {
    if v.state == GameState::PlayerTurn {
        v.dealer[0].spec_label() + " [??]"@
    } else {
        display_of(v.dealer)
    }
}

/// What is shown of the dealer's score: nothing while the player is to move.
pub open spec fn shown_dealer_value(v: GameView) -> Option<u32> {
    if v.state == GameState::PlayerTurn {
        None
    } else {
        Some(score(v.dealer))
    }
}

/// Whether the two hands together hold exactly the cards that have left the
/// deck, each as often as it was dealt.
pub open spec fn holds_dealt(deck: DeckView, player: Seq<Card>, dealer: Seq<Card>) -> bool {
    deck.dealt_cards().to_multiset() == (player + dealer).to_multiset()
}

/// Whether this is how a round starts: four cards dealt from a full deck, to
/// player and dealer in turn, the player to move and nothing decided.
pub open spec fn is_fresh_round(v: GameView) -> bool {
    &&& v.state == GameState::PlayerTurn
    &&& v.outcome is None
    &&& v.deck.wf()
    &&& v.deck.dealt == 4
    &&& v.player == seq![v.deck.order[0], v.deck.order[2]]
    &&& v.dealer == seq![v.deck.order[1], v.deck.order[3]]
}

/// The game after the player takes the next card: a score over 21 loses the
/// round at once, a score of 21 passes the turn to the dealer, and on less the
/// player stays to move.
pub open spec fn after_hit(v: GameView) -> GameView {
    let player = v.player.push(v.deck.order[v.deck.dealt as int]);
    GameView {
        state: if hand_value(player) > 21 {
            GameState::RoundEnd
        } else if hand_value(player) == 21 {
            GameState::DealerTurn
        } else {
            GameState::PlayerTurn
        },
        deck: v.deck.after_deal(),
        player,
        dealer: v.dealer,
        outcome: if hand_value(player) > 21 {
            Some(Outcome::PlayerBust)
        } else {
            None
        },
    }
}

/// The game after one intent during the player's turn, before the dealer
/// plays.
pub open spec fn after_player(v: GameView, intent: Intent) -> GameView {
    match intent {
        Intent::Hit => after_hit(v),
        Intent::Stand => GameView { state: GameState::DealerTurn, ..v },
        _ => v,
    }
}

/// How many cards the dealer takes: one after another while the hand scores
/// less than 17 and the deck has a card left.
pub open spec fn dealer_draws(deck: DeckView, dealer: Seq<Card>) -> nat
    decreases deck.order.len() - deck.dealt,
{
    if hand_value(dealer) < 17 && deck.dealt < deck.order.len() {
        1 + dealer_draws(deck.after_deal(), dealer.push(deck.order[deck.dealt as int]))
    } else {
        0
    }
}

/// The game after the dealer has played and the round is settled.
pub open spec fn after_dealer(v: GameView) -> GameView {
    let n = dealer_draws(v.deck, v.dealer);
    let dealer = v.dealer + v.deck.order.subrange(v.deck.dealt as int, (v.deck.dealt + n) as int);
    GameView {
        state: GameState::RoundEnd,
        deck: DeckView { order: v.deck.order, dealt: v.deck.dealt + n },
        player: v.player,
        dealer,
        outcome: Some(settle(score(v.player), score(dealer))),
    }
}

/// The game after an intent, for every intent but the one that starts a new
/// round: quitting ends the game from any phase; during the player's turn a
/// hit or a stand is carried out, and the dealer plays at once where the turn
/// passes; everything else is ignored.
pub open spec fn step(v: GameView, intent: Intent) -> GameView {
    if intent == Intent::Quit {
        GameView { state: GameState::GameOver, ..v }
    } else if v.state == GameState::PlayerTurn {
        let played = after_player(v, intent);
        if played.state == GameState::DealerTurn {
            after_dealer(played)
        } else {
            played
        }
    } else {
        v
    }
}

/// Whether `next` may follow `v` on an intent. Asking for a new round once
/// the round is over leads to a round freshly dealt from a shuffled deck,
/// whose order is left to chance; every other move is fixed by `step`.
pub open spec fn follows(v: GameView, intent: Intent, next: GameView) -> bool {
    if intent == Intent::NewRound && v.state == GameState::RoundEnd {
        is_fresh_round(next) && is_shuffled_deck(next.deck.order)
    } else {
        next == step(v, intent)
    }
}

/// How far a phase is along the round.
pub open spec fn phase_rank(state: GameState) -> nat {
    match state {
        GameState::PlayerTurn => 0,
        GameState::DealerTurn => 1,
        GameState::RoundEnd => 2,
        GameState::GameOver => 3,
    }
}

impl GameView {
    /// What every game upholds: the deck is full, the hands hold exactly what
    /// has been dealt, a player still in the round has not bust, and a round
    /// that is over has its outcome, which the final scores determine.
    pub open spec fn wf(self) -> bool {
        &&& self.deck.wf()
        &&& holds_dealt(self.deck, self.player, self.dealer)
        &&& self.state == GameState::PlayerTurn ==> self.dealer.len() == 2
        &&& self.state == GameState::PlayerTurn || self.state == GameState::DealerTurn ==> {
            &&& hand_value(self.player) <= 21
            &&& self.outcome is None
        }
        &&& self.state == GameState::RoundEnd ==> {
            &&& self.outcome == Some(outcome_of(score(self.player), score(self.dealer)))
            &&& hand_value(self.player) <= 21 ==> hand_value(self.dealer) >= 17
        }
    }
}

/// Cards in hand are cards dealt: together the hands hold as many cards as
/// have left the deck, and no hand holds more cards than it scores.
pub proof fn lemma_hands_are_dealt(deck: DeckView, player: Seq<Card>, dealer: Seq<Card>)
    requires
        deck.wf(),
        holds_dealt(deck, player, dealer),
    ensures
        player.len() + dealer.len() == deck.dealt,
        player.len() <= hand_value(player),
        dealer.len() <= hand_value(dealer),
{
    to_multiset_len(deck.dealt_cards());
    to_multiset_len(player + dealer);
    lemma_total_bounds(player);
    lemma_total_bounds(dealer);
}

/// Dealing the next card into either hand keeps the hands in step with the
/// deck.
pub proof fn lemma_deal_keeps_hands(deck: DeckView, player: Seq<Card>, dealer: Seq<Card>)
    requires
        deck.dealt < deck.order.len(),
        holds_dealt(deck, player, dealer),
    ensures
        holds_dealt(deck.after_deal(), player.push(deck.order[deck.dealt as int]), dealer),
        holds_dealt(deck.after_deal(), player, dealer.push(deck.order[deck.dealt as int])),
{
    broadcast use vstd::multiset::group_multiset_axioms;

    let card = deck.order[deck.dealt as int];
    assert(deck.after_deal().dealt_cards() =~= deck.dealt_cards().push(card));
    to_multiset_build(deck.dealt_cards(), card);
    to_multiset_build(player, card);
    to_multiset_build(dealer, card);
    lemma_multiset_commutative(player, dealer);
    lemma_multiset_commutative(player.push(card), dealer);
    lemma_multiset_commutative(player, dealer.push(card));
    assert((player.push(card) + dealer).to_multiset() =~= (player + dealer).to_multiset().insert(
        card,
    ));
    assert((player + dealer.push(card)).to_multiset() =~= (player + dealer).to_multiset().insert(
        card,
    ));
}

/// While both hands can still draw, the deck cannot be empty: a hand at 21 or
/// under holds at most 21 cards, and 42 cards are not a whole deck.
pub proof fn lemma_deck_lasts(deck: DeckView, player: Seq<Card>, dealer: Seq<Card>)
    requires
        deck.wf(),
        holds_dealt(deck, player, dealer),
        hand_value(player) <= 21,
        hand_value(dealer) <= 21,
    ensures
        deck.dealt <= 42,
{
    lemma_hands_are_dealt(deck, player, dealer);
}

/// A freshly dealt round upholds what every game upholds.
pub proof fn lemma_fresh_round_wf(v: GameView)
    requires
        is_fresh_round(v),
    ensures
        v.wf(),
{
    let o = v.deck.order;
    let d0 = DeckView { order: o, dealt: 0 };
    let e = Seq::<Card>::empty();
    assert(d0.dealt_cards() =~= e + e);
    lemma_deal_keeps_hands(d0, e, e);
    let d1 = d0.after_deal();
    lemma_deal_keeps_hands(d1, e.push(o[0]), e);
    let d2 = d1.after_deal();
    lemma_deal_keeps_hands(d2, e.push(o[0]), e.push(o[1]));
    let d3 = d2.after_deal();
    lemma_deal_keeps_hands(d3, e.push(o[0]).push(o[2]), e.push(o[1]));
    assert(e.push(o[0]).push(o[2]) =~= v.player);
    assert(e.push(o[1]).push(o[3]) =~= v.dealer);
    lemma_total_bounds(v.player);
}

/// The dealer's play never runs the deck dry and ends on 17 or more, with the
/// hands still holding exactly what has been dealt.
pub proof fn lemma_dealer_plays(deck: DeckView, player: Seq<Card>, dealer: Seq<Card>)
    requires
        deck.wf(),
        holds_dealt(deck, player, dealer),
        hand_value(player) <= 21,
    ensures
        deck.dealt + dealer_draws(deck, dealer) <= 52,
        hand_value(
            dealer + deck.order.subrange(
                deck.dealt as int,
                (deck.dealt + dealer_draws(deck, dealer)) as int,
            ),
        ) >= 17,
        holds_dealt(
            DeckView { order: deck.order, dealt: deck.dealt + dealer_draws(deck, dealer) },
            player,
            dealer + deck.order.subrange(
                deck.dealt as int,
                (deck.dealt + dealer_draws(deck, dealer)) as int,
            ),
        ),
    decreases 52 - deck.dealt,
{
    let n = dealer_draws(deck, dealer);
    if hand_value(dealer) < 17 {
        lemma_deck_lasts(deck, player, dealer);
        lemma_deal_keeps_hands(deck, player, dealer);
        let card = deck.order[deck.dealt as int];
        lemma_dealer_plays(deck.after_deal(), player, dealer.push(card));
        assert(dealer.push(card) + deck.order.subrange((deck.dealt + 1) as int, (deck.dealt + n) as int)
            =~= dealer + deck.order.subrange(deck.dealt as int, (deck.dealt + n) as int));
    } else {
        assert(dealer + deck.order.subrange(deck.dealt as int, deck.dealt as int) =~= dealer);
    }
}

/// Whatever is asked for, a game that upholds what every game upholds goes on
/// upholding it.
pub proof fn lemma_step_keeps_wf(v: GameView, intent: Intent)
    requires
        v.wf(),
    ensures
        step(v, intent).wf(),
{
    if intent != Intent::Quit && v.state == GameState::PlayerTurn {
        lemma_total_bounds(v.dealer);
        let played = after_player(v, intent);
        if intent == Intent::Hit {
            lemma_deck_lasts(v.deck, v.player, v.dealer);
            lemma_deal_keeps_hands(v.deck, v.player, v.dealer);
            lemma_total_bounds(played.player);
            lemma_hands_are_dealt(played.deck, played.player, played.dealer);
        }
        if played.state == GameState::DealerTurn {
            lemma_dealer_plays(played.deck, played.player, played.dealer);
            let ended = after_dealer(played);
            lemma_total_bounds(ended.player);
            lemma_total_bounds(ended.dealer);
            lemma_hands_are_dealt(ended.deck, ended.player, ended.dealer);
        }
    }
}

/// Every card is in exactly one place: the two hands and the cards still in
/// the deck together are the fifty-two cards, each once.
pub proof fn lemma_cards_accounted_for(v: GameView)
    requires
        v.wf(),
    ensures
        is_full_deck(v.player + v.dealer + v.deck.remaining_cards()),
        (v.player + v.dealer + v.deck.remaining_cards()).no_duplicates(),
        forall|c: Card| #[trigger] (v.player + v.dealer + v.deck.remaining_cards()).contains(c),
{
    let held = v.player + v.dealer;
    let dealt = v.deck.dealt_cards();
    let rest = v.deck.remaining_cards();
    lemma_multiset_commutative(held, rest);
    lemma_multiset_commutative(dealt, rest);
    assert(dealt + rest =~= v.deck.order);
    lemma_full_deck_is_complete(held + rest);
}

/// Asking for a new round while the player is still to move changes nothing.
pub proof fn lemma_new_round_ignored_in_play(v: GameView, next: GameView)
    requires
        v.state == GameState::PlayerTurn,
        follows(v, Intent::NewRound, next),
    ensures
        next == v,
{
}

/// Quitting ends the game from every phase, and leaves the cards and the
/// outcome as they are.
pub proof fn lemma_quit_ends_game(v: GameView, next: GameView)
    requires
        follows(v, Intent::Quit, next),
    ensures
        next == (GameView { state: GameState::GameOver, ..v }),
{
}

/// Once the game is over, no intent changes anything.
pub proof fn lemma_game_over_is_final(v: GameView, intent: Intent, next: GameView)
    requires
        v.state == GameState::GameOver,
        follows(v, intent, next),
    ensures
        next == v,
{
}

/// Within a round the phase never goes back: only the start of a new round
/// leads from a later phase to an earlier one.
pub proof fn lemma_phase_never_goes_back(v: GameView, intent: Intent, next: GameView)
    requires
        follows(v, intent, next),
        !(intent == Intent::NewRound && v.state == GameState::RoundEnd),
    ensures
        phase_rank(v.state) <= phase_rank(next.state),
{
}

/// What is ignored: during the player's turn everything but a hit, a stand
/// and quitting; once the round is over everything but a new round and
/// quitting.
pub proof fn lemma_ignored_intents(v: GameView, intent: Intent, next: GameView)
    requires
        follows(v, intent, next),
        intent != Intent::Quit,
        v.state == GameState::PlayerTurn ==> intent != Intent::Hit && intent != Intent::Stand,
        v.state == GameState::RoundEnd ==> intent != Intent::NewRound,
    ensures
        next == v,
{
}

/// One game of blackjack against the dealer: the deck, both hands, the phase
/// of play and, once a round is over, its outcome.
#[derive(Debug, PartialEq, Eq)]
pub struct GameUI {
    state: GameState,
    deck: Deck,
    player_hand: Hand,
    dealer_hand: Hand,
    outcome: Option<Outcome>,
}

impl Clone for GameUI {
    /// A game in the same phase with the same cards in the same places.
    fn clone(&self) -> (g: GameUI)
        ensures
            g@ == self@,
    {
        GameUI {
            state: self.state,
            deck: self.deck.clone(),
            player_hand: self.player_hand.clone(),
            dealer_hand: self.dealer_hand.clone(),
            outcome: self.outcome,
        }
    }
}

impl View for GameUI {
    type V = GameView;

    closed spec fn view(&self) -> GameView {
        GameView {
            state: self.state,
            deck: self.deck@,
            player: self.player_hand@,
            dealer: self.dealer_hand@,
            outcome: self.outcome,
        }
    }
}

impl GameUI {
    /// What every game upholds; see [`GameView::wf`].
    pub open spec fn wf(&self) -> bool {
        self@.wf()
    }

    /// Starts a round on the deck given, without shuffling it: the player
    /// gets the first and third card, the dealer the second and fourth.
    pub fn with_deck(deck: Deck) -> (g: GameUI)
        requires
            deck.wf(),
            deck@.dealt == 0,
        ensures
            g.wf(),
            is_fresh_round(g@),
            g@.deck.order == deck@.order,
    {
        let mut deck = deck;
        let mut player_hand = Hand::new();
        let mut dealer_hand = Hand::new();
        let ghost order = deck@.order;
        let mut round: usize = 0;
        while round < 2
            invariant
                round <= 2,
                deck.wf(),
                deck@.order == order,
                deck@.dealt == 2 * round,
                player_hand@ == Seq::new(round as nat, |k: int| order[2 * k]),
                dealer_hand@ == Seq::new(round as nat, |k: int| order[2 * k + 1]),
            decreases 2 - round,
        {
            let first = deck.deal().unwrap();
            player_hand.add_card(first);
            let second = deck.deal().unwrap();
            dealer_hand.add_card(second);
            round = round + 1;
        }
        let g = GameUI {
            state: GameState::PlayerTurn,
            deck,
            player_hand,
            dealer_hand,
            outcome: None,
        };
        proof {
            assert(g@.player =~= seq![order[0], order[2]]);
            assert(g@.dealer =~= seq![order[1], order[3]]);
            lemma_fresh_round_wf(g@);
        }
        g
    }

    /// Starts a game: a full deck, shuffled, and the first four cards dealt.
    pub fn new() -> (g: GameUI)
        ensures
            g.wf(),
            is_fresh_round(g@),
            is_shuffled_deck(g@.deck.order),
    {
        let mut deck = Deck::new();
        deck.shuffle();
        GameUI::with_deck(deck)
    }

    /// Throws the round away and starts the next one on a new deck, shuffled,
    /// with empty hands refilled and no outcome.
    pub fn reset_round(&mut self)
        ensures
            final(self).wf(),
            is_fresh_round(final(self)@),
            is_shuffled_deck(final(self)@.deck.order),
    {
        let mut deck = Deck::new();
        deck.shuffle();
        let fresh = GameUI::with_deck(deck);
        self.deck = fresh.deck;
        self.player_hand = fresh.player_hand;
        self.dealer_hand = fresh.dealer_hand;
        self.state = GameState::PlayerTurn;
        self.outcome = None;
    }

    /// Carries out one intent of the player during the player's turn. A hit
    /// takes the next card: over 21 the round is lost, on 21 the turn passes
    /// to the dealer, on less the player stays to move. A stand passes the
    /// turn. Anything else changes nothing. The dealer does not play here.
    pub fn handle_player_turn(&mut self, intent: Intent)
        requires
            old(self).wf(),
            old(self)@.state == GameState::PlayerTurn,
        ensures
            final(self).wf(),
            final(self)@ == after_player(old(self)@, intent),
    {
        match intent {
            Intent::Hit => {
                proof {
                    lemma_total_bounds(self@.dealer);
                    lemma_deck_lasts(self@.deck, self@.player, self@.dealer);
                    lemma_deal_keeps_hands(self@.deck, self@.player, self@.dealer);
                }
                let card = self.deck.deal().unwrap();
                self.player_hand.add_card(card);
                proof {
                    lemma_hands_are_dealt(self@.deck, self@.player, self@.dealer);
                }
                let value = self.player_hand.value();
                if value > TARGET {
                    self.outcome = Some(Outcome::PlayerBust);
                    self.state = GameState::RoundEnd;
                } else if value == TARGET {
                    self.state = GameState::DealerTurn;
                }
            },
            Intent::Stand => {
                self.state = GameState::DealerTurn;
            },
            _ => {},
        }
    }

    /// Plays the dealer and settles the round. The dealer takes one card
    /// after another while scoring less than 17 and stands on 17 or more,
    /// soft or hard. Then a dealer over 21 loses; otherwise the higher score
    /// wins and equal scores tie.
    pub fn resolve_dealer_turn(&mut self)
        requires
            old(self).wf(),
            old(self)@.state == GameState::DealerTurn,
        ensures
            final(self).wf(),
            final(self)@ == after_dealer(old(self)@),
            hand_value(final(self)@.dealer) >= 17,
            forall|m: int|
                0 <= m < final(self)@.deck.dealt - old(self)@.deck.dealt ==> hand_value(
                    #[trigger] (old(self)@.dealer + old(self)@.deck.order.subrange(
                        old(self)@.deck.dealt as int,
                        old(self)@.deck.dealt + m,
                    )),
                ) < 17,
    {
        let ghost start = self@;
        proof {
            lemma_hands_are_dealt(start.deck, start.player, start.dealer);
        }
        while self.dealer_hand.value() < DEALER_STANDS
            invariant
                self@.state == GameState::DealerTurn,
                self@.outcome is None,
                self@.player == start.player,
                self@.deck.order == start.deck.order,
                self@.deck.wf(),
                holds_dealt(self@.deck, self@.player, self@.dealer),
                hand_value(start.player) <= 21,
                start.deck.dealt <= self@.deck.dealt,
                self@.dealer.len() <= 52,
                self@.dealer == start.dealer + start.deck.order.subrange(
                    start.deck.dealt as int,
                    self@.deck.dealt as int,
                ),
                dealer_draws(start.deck, start.dealer) == (self@.deck.dealt - start.deck.dealt)
                    + dealer_draws(self@.deck, self@.dealer),
                forall|m: int|
                    0 <= m < self@.deck.dealt - start.deck.dealt ==> hand_value(
                        #[trigger] (start.dealer + start.deck.order.subrange(
                            start.deck.dealt as int,
                            start.deck.dealt + m,
                        )),
                    ) < 17,
            decreases 52 - self@.deck.dealt,
        {
            let ghost before = self@;
            proof {
                lemma_deck_lasts(before.deck, before.player, before.dealer);
                lemma_deal_keeps_hands(before.deck, before.player, before.dealer);
            }
            let card = self.deck.deal().unwrap();
            self.dealer_hand.add_card(card);
            proof {
                lemma_hands_are_dealt(self@.deck, self@.player, self@.dealer);
            }
        }
        proof {
            lemma_hands_are_dealt(self@.deck, self@.player, self@.dealer);
        }
        let player_score = self.player_hand.value();
        let dealer_score = self.dealer_hand.value();
        self.outcome = Some(Outcome::settle(player_score, dealer_score));
        self.state = GameState::RoundEnd;
    }

    /// Carries out one intent, whatever the phase. Quitting ends the game and
    /// answers `false`: the caller should stop asking. During the player's
    /// turn a hit or a stand is carried out, and where the turn passes to the
    /// dealer, the dealer plays at once. Once the round is over, asking for a
    /// new round starts one. Everything else is ignored.
    pub fn apply_intent(&mut self, intent: Intent) -> (keep_going: bool)
        requires
            old(self).wf(),
        ensures
            final(self).wf(),
            follows(old(self)@, intent, final(self)@),
            keep_going == (intent != Intent::Quit),
    {
        if intent == Intent::Quit {
            self.state = GameState::GameOver;
            return false;
        }
        match self.state {
            GameState::PlayerTurn => {
                self.handle_player_turn(intent);
                if self.state == GameState::DealerTurn {
                    self.resolve_dealer_turn();
                }
            },
            GameState::RoundEnd => {
                if intent == Intent::NewRound {
                    self.reset_round();
                }
            },
            _ => {},
        }
        true
    }

    /// Carries out what a key press asks for; see [`GameUI::apply_intent`].
    pub fn handle_input(&mut self, key: Key) -> (keep_going: bool)
        requires
            old(self).wf(),
        ensures
            final(self).wf(),
            follows(old(self)@, intent_of(key), final(self)@),
            keep_going == (intent_of(key) != Intent::Quit),
    {
        self.apply_intent(Intent::from_key(key))
    }

    /// The phase the game is in.
    pub fn state(&self) -> (s: GameState)
        ensures
            s == self@.state,
    {
        self.state
    }

    /// The deck that the round is dealt from.
    pub fn deck(&self) -> (d: &Deck)
        ensures
            d@ == self@.deck,
    {
        &self.deck
    }

    /// The player's hand.
    pub fn player_hand(&self) -> (h: &Hand)
        ensures
            h@ == self@.player,
    {
        &self.player_hand
    }

    /// The dealer's whole hand, also while part of it is not shown.
    pub fn dealer_hand(&self) -> (h: &Hand)
        ensures
            h@ == self@.dealer,
    {
        &self.dealer_hand
    }

    /// How the round ended, once it has.
    pub fn outcome(&self) -> (o: Option<Outcome>)
        ensures
            o == self@.outcome,
    {
        self.outcome
    }

    /// The player's score.
    pub fn player_value(&self) -> (v: u32)
        requires
            self.wf(),
        ensures
            v == hand_value(self@.player),
            v == score(self@.player),
    {
        proof {
            lemma_hands_are_dealt(self@.deck, self@.player, self@.dealer);
        }
        self.player_hand.value()
    }

    /// The dealer's score, as far as it is shown: `None` while the player is
    /// to move.
    pub fn dealer_value(&self) -> (v: Option<u32>)
        requires
            self.wf(),
        ensures
            v == shown_dealer_value(self@),
            v matches Some(n) ==> n == hand_value(self@.dealer),
    {
        proof {
            lemma_hands_are_dealt(self@.deck, self@.player, self@.dealer);
        }
        match self.state {
            GameState::PlayerTurn => None,
            _ => Some(self.dealer_hand.value()),
        }
    }

    /// The player's cards as text.
    pub fn player_display(&self) -> (s: String)
        ensures
            s@ == display_of(self@.player),
    {
        self.player_hand.display_str()
    }

    /// The dealer's cards as text, as far as they are shown: the first card
    /// and a mask for the second while the player is to move, the whole hand
    /// after that.
    pub fn dealer_display(&self) -> (s: String)
        requires
            self.wf(),
        ensures
            s@ == shown_dealer_cards(self@),
    {
        match self.state {
            GameState::PlayerTurn => {
                let mut s = self.dealer_hand.cards()[0].label();
                s.append(" [??]");
                s
            },
            _ => self.dealer_hand.display_str(),
        }
    }

    /// The outcome in words, empty while there is none.
    pub fn round_result(&self) -> (s: String)
        ensures
            s@ == match self@.outcome {
                Some(o) => o.spec_message(),
                None => Seq::<char>::empty(),
            },
    {
        match &self.outcome {
            Some(o) => o.message(),
            None => String::new(),
        }
    }
}

} // verus!
