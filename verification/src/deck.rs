//! The deck: fifty-two distinct cards in some order, dealt from the front.

use crate::card::{lemma_from_index_round_trip, lemma_index_round_trip, Card, DECK_SIZE};
use crate::random::random_below;
use vstd::prelude::*;
use vstd::seq_lib::{
    lemma_multiset_commutative, to_multiset_contains, to_multiset_len, to_multiset_update,
};
use vstd::set_lib::lemma_subset_equality;

verus! {

/// Why a deck could not hand out a card.
#[derive(Clone, Copy, Debug, PartialEq, Eq, Structural)]
pub enum DeckError {
    /// Every card has been dealt already.
    OutOfCards,
}

/// The fifty-two cards in canonical order.
pub open spec fn canonical_order() -> Seq<Card> {
    Seq::new(52, |i: int| Card::spec_from_index(i as nat).unwrap())
}

/// Whether the cards are the fifty-two of a full deck in some order: each
/// card as often as the canonical order holds it, which is once.
pub open spec fn is_full_deck(order: Seq<Card>) -> bool {
    order.to_multiset() == canonical_order().to_multiset()
}

/// The canonical order holds each card exactly once.
pub proof fn lemma_canonical_order()
    ensures
        canonical_order().len() == 52,
        canonical_order().no_duplicates(),
        forall|c: Card| #[trigger] canonical_order().contains(c),
        forall|c: Card| #[trigger] canonical_order().to_multiset().count(c) == 1,
{
    let canon = canonical_order();
    assert forall|i: int, j: int| 0 <= i < 52 && 0 <= j < 52 && i != j implies canon[i]
        != canon[j] by {
        lemma_from_index_round_trip(i as nat);
        lemma_from_index_round_trip(j as nat);
    }
    assert forall|c: Card| #[trigger] canon.contains(c) by {
        lemma_index_round_trip(c);
        assert(canon[c.spec_index() as int] == c);
    }
    canon.lemma_multiset_has_no_duplicates();
    assert forall|c: Card| #[trigger] canon.to_multiset().count(c) == 1 by {
        to_multiset_contains(canon, c);
    }
}

/// A full deck in any order holds fifty-two cards, no card twice, and every
/// card there is.
pub proof fn lemma_full_deck_is_complete(order: Seq<Card>)
    requires
        is_full_deck(order),
    ensures
        order.len() == 52,
        order.no_duplicates(),
        forall|c: Card| #[trigger] order.contains(c),
{
    lemma_canonical_order();
    to_multiset_len(order);
    to_multiset_len(canonical_order());
    order.lemma_multiset_has_no_duplicates_conv();
    assert forall|c: Card| #[trigger] order.contains(c) by {
        to_multiset_contains(order, c);
    }
}

/// Fifty-two cards with no card twice are a full deck.
pub proof fn lemma_distinct_is_full_deck(order: Seq<Card>)
    requires
        order.len() == 52,
        order.no_duplicates(),
    ensures
        is_full_deck(order),
{
    let canon = canonical_order();
    lemma_canonical_order();
    order.unique_seq_to_set();
    canon.unique_seq_to_set();
    lemma_subset_equality(order.to_set(), canon.to_set());
    order.lemma_multiset_has_no_duplicates();
    assert forall|c: Card| order.to_multiset().count(c) == canon.to_multiset().count(c) by {
        assert(order.to_set().contains(c));
        to_multiset_contains(order, c);
    }
    assert(order.to_multiset() =~= canon.to_multiset());
}

/// The order with the cards at `i` and `j` exchanged.
pub open spec fn swapped(order: Seq<Card>, i: int, j: int) -> Seq<Card> {
    order.update(i, order[j]).update(j, order[i])
}

/// The position that the `k`-th draw picks as partner for position `i`, among
/// the positions from `lo` up to `i`. A draw is reduced into that span; where
/// the draws have run out, the card stays where it is.
pub open spec fn pick_index(picks: Seq<usize>, k: int, lo: int, i: int) -> int {
    if 0 <= k < picks.len() {
        lo + (picks[k] as int) % (i - lo + 1)
    } else {
        i
    }
}

/// The order after the first `steps` exchanges of a shuffle of the positions
/// from `lo` on: the last position first, each with the partner that its draw
/// picks at or before it.
pub open spec fn shuffled(order: Seq<Card>, lo: int, picks: Seq<usize>, steps: nat) -> Seq<Card>
    decreases steps,
{
    if steps == 0 {
        order
    } else {
        let before = shuffled(order, lo, picks, (steps - 1) as nat);
        let i = order.len() - steps;
        swapped(before, i, pick_index(picks, steps - 1, lo, i))
    }
}

/// How many exchanges a shuffle of the positions from `lo` on makes: one for
/// each position but the first.
pub open spec fn shuffle_steps(len: nat, lo: int) -> nat {
    if len - lo >= 2 {
        (len - lo - 1) as nat
    } else {
        0
    }
}

/// The order after a whole shuffle of the positions from `lo` on with the
/// given draws.
pub open spec fn fisher_yates(order: Seq<Card>, lo: int, picks: Seq<usize>) -> Seq<Card> {
    shuffled(order, lo, picks, shuffle_steps(order.len(), lo))
}

/// Whether the draws are what a shuffle of `count` cards takes: one for each
/// exchange, the `k`-th of them an index into the `count - k` positions that
/// its exchange picks from, so that no draw has to be reduced.
pub open spec fn is_draw_for(picks: Seq<usize>, count: nat) -> bool {
    &&& picks.len() == shuffle_steps(count, 0)
    &&& forall|k: int| 0 <= k < picks.len() ==> #[trigger] picks[k] < count - k
}

/// Whether the order is what a shuffle of the whole canonical deck gives for
/// some draws.
pub open spec fn is_shuffled_deck(order: Seq<Card>) -> bool {
    exists|picks: Seq<usize>| order == #[trigger] fisher_yates(canonical_order(), 0, picks)
}

/// Exchanging two cards keeps every card, each as often as before.
pub proof fn lemma_swapped_permutes(order: Seq<Card>, i: int, j: int)
    requires
        0 <= i < order.len(),
        0 <= j < order.len(),
    ensures
        swapped(order, i, j).len() == order.len(),
        swapped(order, i, j).to_multiset() == order.to_multiset(),
{
    broadcast use vstd::multiset::group_multiset_axioms;

    let once = order.update(i, order[j]);
    to_multiset_update(order, i, order[j]);
    to_multiset_update(once, j, order[i]);
    to_multiset_contains(order, order[i]);
    to_multiset_contains(order, order[j]);
}

/// However the draws fall, the exchanges of a shuffle leave the cards before
/// `lo` where they were and keep every card, each as often as before.
pub proof fn lemma_shuffled_permutes(order: Seq<Card>, lo: int, picks: Seq<usize>, steps: nat)
    requires
        0 <= lo <= order.len(),
        steps <= shuffle_steps(order.len(), lo),
    ensures
        shuffled(order, lo, picks, steps).len() == order.len(),
        shuffled(order, lo, picks, steps).take(lo) == order.take(lo),
        shuffled(order, lo, picks, steps).to_multiset() == order.to_multiset(),
        shuffled(order, lo, picks, steps).skip(lo).to_multiset() == order.skip(lo).to_multiset(),
    decreases steps,
{
    let after = shuffled(order, lo, picks, steps);
    if steps > 0 {
        let before = shuffled(order, lo, picks, (steps - 1) as nat);
        lemma_shuffled_permutes(order, lo, picks, (steps - 1) as nat);
        let i = order.len() - steps;
        let j = pick_index(picks, steps - 1, lo, i);
        assert(lo <= j <= i);
        lemma_swapped_permutes(before, i, j);
        assert(after.take(lo) =~= before.take(lo));
    }
    lemma_multiset_commutative(after.take(lo), after.skip(lo));
    lemma_multiset_commutative(order.take(lo), order.skip(lo));
    assert(after.take(lo) + after.skip(lo) =~= after);
    assert(order.take(lo) + order.skip(lo) =~= order);
    assert(after.skip(lo).to_multiset() =~= order.skip(lo).to_multiset()) by {
        broadcast use vstd::multiset::group_multiset_axioms;

        assert forall|c: Card|
            after.skip(lo).to_multiset().count(c) == order.skip(lo).to_multiset().count(c) by {
            assert(order.to_multiset().count(c) == order.take(lo).to_multiset().count(c)
                + order.skip(lo).to_multiset().count(c));
        }
    }
}

/// What a deck is, seen from outside: the order of all its cards, and how
/// many of them, counted from the front, have been dealt.
pub struct DeckView {
    pub order: Seq<Card>,
    pub dealt: nat,
}

impl DeckView {
    /// The cards are a full deck and the count of dealt ones is within it.
    pub open spec fn wf(self) -> bool {
        &&& is_full_deck(self.order)
        &&& self.order.len() == 52
        &&& self.dealt <= 52
    }

    /// The cards already dealt, first dealt first.
    pub open spec fn dealt_cards(self) -> Seq<Card> {
        self.order.take(self.dealt as int)
    }

    /// The cards still to come, next one first.
    pub open spec fn remaining_cards(self) -> Seq<Card> {
        self.order.skip(self.dealt as int)
    }

    /// The same deck with one more card dealt.
    pub open spec fn after_deal(self) -> DeckView {
        DeckView { order: self.order, dealt: self.dealt + 1 }
    }
}

/// What one deal gives and leaves: the next card and the deck one further,
/// or the failure and the deck as it was once nothing is left.
pub open spec fn deal_of(deck: DeckView) -> (Result<Card, DeckError>, DeckView) {
    if deck.dealt < deck.order.len() {
        (Ok(deck.order[deck.dealt as int]), deck.after_deal())
    } else {
        (Err(DeckError::OutOfCards), deck)
    }
}

/// The deck after `n` deals in a row.
pub open spec fn deck_after(deck: DeckView, n: nat) -> DeckView
    decreases n,
{
    if n == 0 {
        deck
    } else {
        deal_of(deck_after(deck, (n - 1) as nat)).1
    }
}

/// What the `n`-th deal of a row gives, counted from 0.
pub open spec fn nth_deal(deck: DeckView, n: nat) -> Result<Card, DeckError> {
    deal_of(deck_after(deck, n)).0
}

/// Whether one of the first `limit` deals of a row gives the card.
pub open spec fn comes_within(deck: DeckView, c: Card, limit: nat) -> bool {
    exists|n: nat| n < limit && #[trigger] nth_deal(deck, n) == Ok::<Card, DeckError>(c)
}

/// Dealing a whole deck, one card after another, gives its cards in their
/// order: fifty-two cards, no two the same, every card there is among them.
/// Each deal after that fails for want of cards.
pub proof fn lemma_deal_whole_deck(deck: DeckView)
    requires
        deck.wf(),
        deck.dealt == 0,
    ensures
        forall|n: nat| n < 52 ==> #[trigger] nth_deal(deck, n) == Ok::<Card, DeckError>(
            deck.order[n as int],
        ),
        forall|n: nat| n >= 52 ==> #[trigger] nth_deal(deck, n) == Err::<Card, DeckError>(
            DeckError::OutOfCards,
        ),
        forall|m: nat, n: nat| m < n < 52 ==> nth_deal(deck, m) != nth_deal(deck, n),
        forall|c: Card| #[trigger] comes_within(deck, c, 52),
{
    lemma_full_deck_is_complete(deck.order);
    assert forall|n: nat| true implies (#[trigger] deck_after(deck, n)) == (DeckView {
        order: deck.order,
        dealt: if n < 52 {
            n
        } else {
            52
        },
    }) by {
        lemma_deck_after(deck, n);
    }
    assert forall|n: nat| n < 52 implies #[trigger] nth_deal(deck, n) == Ok::<Card, DeckError>(
        deck.order[n as int],
    ) by {
    }
    assert forall|n: nat| n >= 52 implies #[trigger] nth_deal(deck, n) == Err::<Card, DeckError>(
        DeckError::OutOfCards,
    ) by {
    }
    assert forall|c: Card| #[trigger] comes_within(deck, c, 52) by {
        assert(deck.order.contains(c));
        let i = choose|i: int| 0 <= i < deck.order.len() && deck.order[i] == c;
        assert(nth_deal(deck, i as nat) == Ok::<Card, DeckError>(c));
    }
}

/// After `n` deals from the start, `n` cards are gone, and never more than
/// all fifty-two.
proof fn lemma_deck_after(deck: DeckView, n: nat)
    requires
        deck.order.len() == 52,
        deck.dealt == 0,
    ensures
        deck_after(deck, n) == (DeckView {
            order: deck.order,
            dealt: if n < 52 {
                n
            } else {
                52
            },
        }),
    decreases n,
{
    if n > 0 {
        lemma_deck_after(deck, (n - 1) as nat);
    }
}

/// A deck of fifty-two cards and a cursor that moves through it.
#[derive(Debug, PartialEq, Eq)]
pub struct Deck {
    cards: Vec<Card>,
    next: usize,
}

impl Clone for Deck {
    /// A deck with the same cards in the same order, dealt as far.
    fn clone(&self) -> (d: Deck)
        ensures
            d@ == self@,
    {
        Deck { cards: self.cards.clone(), next: self.next }
    }
}

impl View for Deck {
    type V = DeckView;

    closed spec fn view(&self) -> DeckView {
        DeckView { order: self.cards@, dealt: self.next as nat }
    }
}

impl Deck {
    /// The deck holds a full set of cards and its cursor is within it.
    pub open spec fn wf(&self) -> bool {
        self@.wf()
    }

    /// The cards already dealt, first dealt first.
    pub open spec fn spec_dealt(&self) -> Seq<Card> {
        self@.dealt_cards()
    }

    /// The cards still to come, next one first.
    pub open spec fn spec_remaining(&self) -> Seq<Card> {
        self@.remaining_cards()
    }

    /// A full deck in canonical order, nothing dealt.
    pub fn new() -> (d: Deck)
        ensures
            d.wf(),
            d@.order == canonical_order(),
            d@.dealt == 0,
    {
        let mut cards: Vec<Card> = Vec::new();
        let mut i: usize = 0;
        while i < DECK_SIZE
            invariant
                i <= DECK_SIZE,
                cards@.len() == i,
                forall|k: int| 0 <= k < i ==> cards@[k] == #[trigger] canonical_order()[k],
            decreases DECK_SIZE - i,
        {
            match Card::from_index(i) {
                Some(card) => {
                    cards.push(card);
                },
                None => {},
            }
            i = i + 1;
        }
        assert(cards@ =~= canonical_order());
        Deck { cards, next: 0 }
    }

    /// A deck in the order given, nothing dealt; `None` unless the cards are
    /// fifty-two with no card twice.
    pub fn from_cards(cards: Vec<Card>) -> (r: Option<Deck>)
        ensures
            r is Some <==> cards@.len() == 52 && cards@.no_duplicates(),
            r matches Some(d) ==> d.wf() && d@.order == cards@ && d@.dealt == 0,
    {
        if cards.len() != DECK_SIZE {
            return None;
        }
        let mut seen: Vec<bool> = vec![false; DECK_SIZE];
        let mut i: usize = 0;
        while i < DECK_SIZE
            invariant
                i <= DECK_SIZE,
                cards@.len() == 52,
                seen@.len() == 52,
                forall|k: int|
                    0 <= k < 52 ==> (#[trigger] seen@[k] <==> exists|m: int|
                        0 <= m < i && (#[trigger] cards@[m]).spec_index() == k),
                forall|a: int, b: int| 0 <= a < b < i ==> cards@[a] != cards@[b],
            decreases DECK_SIZE - i,
        {
            let at: usize = cards[i].index();
            if seen[at] {
                proof {
                    let m = choose|m: int| 0 <= m < i && (#[trigger] cards@[m]).spec_index() == at;
                    lemma_index_round_trip(cards@[m]);
                    lemma_index_round_trip(cards@[i as int]);
                }
                return None;
            }
            seen.set(at, true);
            i = i + 1;
        }
        proof {
            lemma_distinct_is_full_deck(cards@);
        }
        Some(Deck { cards, next: 0 })
    }

    /// Exchanges the cards at two positions.
    fn swap(&mut self, i: usize, j: usize)
        requires
            i < old(self)@.order.len(),
            j < old(self)@.order.len(),
        ensures
            final(self)@.order == swapped(old(self)@.order, i as int, j as int),
            final(self)@.dealt == old(self)@.dealt,
    {
        let a = self.cards[i];
        let b = self.cards[j];
        self.cards.set(i, b);
        self.cards.set(j, a);
    }

    /// Shuffles the cards still to come with the draws given, leaving the
    /// dealt ones in place: from the last position down to the second one to
    /// come, each card changes places with the one that its draw picks at or
    /// before it. The `k`-th draw is reduced into the span it picks from; a
    /// position whose draw is missing keeps its card.
    pub fn shuffle_with(&mut self, picks: &Vec<usize>)
        requires
            old(self).wf(),
        ensures
            final(self).wf(),
            final(self)@.dealt == old(self)@.dealt,
            final(self)@.order == fisher_yates(
                old(self)@.order,
                old(self)@.dealt as int,
                picks@,
            ),
    {
        let lo: usize = self.next;
        let mut i: usize = self.cards.len();
        let mut k: usize = 0;
        while i > lo + 1
            invariant
                lo == old(self)@.dealt,
                lo <= 52,
                old(self)@.order.len() == 52,
                self@.dealt == lo,
                k + i == 52,
                k <= shuffle_steps(52, lo as int),
                i <= lo + 1 ==> k == shuffle_steps(52, lo as int),
                self@.order == shuffled(old(self)@.order, lo as int, picks@, k as nat),
                self@.order.len() == 52,
            decreases i,
        {
            i = i - 1;
            let span: usize = i - lo + 1;
            let j: usize = if k < picks.len() {
                lo + picks[k] % span
            } else {
                i
            };
            self.swap(i, j);
            k = k + 1;
            proof {
                lemma_shuffled_permutes(old(self)@.order, lo as int, picks@, k as nat);
            }
        }
        proof {
            lemma_shuffled_permutes(old(self)@.order, lo as int, picks@, k as nat);
        }
    }

    /// Draws what a shuffle of `count` cards needs: for each position from the
    /// last down to the second, an index into the span that ends there. That
    /// is one draw less than there are cards, and none where there are fewer
    /// than two.
    fn draw_picks(count: usize) -> (picks: Vec<usize>)
        ensures
            is_draw_for(picks@, count as nat),
    {
        let mut picks: Vec<usize> = Vec::new();
        let mut k: usize = 0;
        while count - k > 1
            invariant
                k == picks@.len(),
                k <= shuffle_steps(count as nat, 0),
                forall|m: int| 0 <= m < picks@.len() ==> #[trigger] picks@[m] < count - m,
            decreases count - k,
        {
            let pick: usize = random_below(count - k);
            picks.push(pick);
            k = k + 1;
        }
        picks
    }

    /// Shuffles the cards still to come into an order drawn at random,
    /// leaving the dealt ones in place. Whatever is drawn, no card is lost and
    /// none is doubled.
    pub fn shuffle(&mut self)
        requires
            old(self).wf(),
        ensures
            final(self).wf(),
            final(self)@.dealt == old(self)@.dealt,
            final(self).spec_dealt() == old(self).spec_dealt(),
            final(self).spec_remaining().to_multiset() == old(self).spec_remaining().to_multiset(),
            final(self)@.order.to_multiset() == old(self)@.order.to_multiset(),
            exists|picks: Seq<usize>|
                is_draw_for(picks, (52 - old(self)@.dealt) as nat) && final(self)@.order
                    == #[trigger] fisher_yates(old(self)@.order, old(self)@.dealt as int, picks),
    {
        let picks = Deck::draw_picks(self.remaining());
        self.shuffle_with(&picks);
        proof {
            lemma_shuffled_permutes(
                old(self)@.order,
                old(self)@.dealt as int,
                picks@,
                shuffle_steps(52, old(self)@.dealt as int),
            );
        }
    }

    /// How many cards are still to come.
    pub fn remaining(&self) -> (n: usize)
        requires
            self.wf(),
        ensures
            n == 52 - self@.dealt,
            n == self.spec_remaining().len(),
    {
        self.cards.len() - self.next
    }

    /// How many cards have been dealt.
    pub fn dealt(&self) -> (n: usize)
        ensures
            n == self@.dealt,
    {
        self.next
    }

    /// The deck's cards in their current order, dealt ones included.
    pub fn cards(&self) -> (cards: &Vec<Card>)
        ensures
            cards@ == self@.order,
    {
        &self.cards
    }

    /// Hands out the next card. Once all fifty-two are gone the deck stays as
    /// it is and the call fails.
    pub fn deal(&mut self) -> (r: Result<Card, DeckError>)
        requires
            old(self).wf(),
        ensures
            final(self).wf(),
            (r, final(self)@) == deal_of(old(self)@),
            r is Ok <==> old(self)@.dealt < 52,
    {
        if self.next < self.cards.len() {
            let card = self.cards[self.next];
            self.next = self.next + 1;
            Ok(card)
        } else {
            Err(DeckError::OutOfCards)
        }
    }
}

} // verus!
