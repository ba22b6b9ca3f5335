//! Hands of cards and what they score.

use crate::card::Card;
use vstd::prelude::*;

verus! {

/// The highest score that is not a bust.
pub const TARGET: u32 = 21;

/// The sum of the cards with every ace counted as 1.
pub open spec fn low_total(cards: Seq<Card>) -> nat
    decreases cards.len(),
{
    if cards.len() == 0 {
        0
    } else {
        low_total(cards.drop_last()) + cards.last().spec_low_value()
    }
}

/// The sum of the cards with every ace counted as 11.
pub open spec fn high_total(cards: Seq<Card>) -> nat
    decreases cards.len(),
{
    if cards.len() == 0 {
        0
    } else {
        high_total(cards.drop_last()) + cards.last().spec_value()
    }
}

/// How many aces there are among the cards.
pub open spec fn ace_count(cards: Seq<Card>) -> nat
    decreases cards.len(),
{
    if cards.len() == 0 {
        0
    } else {
        ace_count(cards.drop_last()) + (if cards.last().spec_is_ace() {
            1nat
        } else {
            0nat
        })
    }
}

/// Whether one ace can be counted as 11 without going over 21.
pub open spec fn is_soft(cards: Seq<Card>) -> bool {
    ace_count(cards) > 0 && low_total(cards) + 10 <= 21
}

/// What the cards score: the best total that stays at or under 21, and the
/// all-aces-low total where there is none.
pub open spec fn hand_value(cards: Seq<Card>) -> nat {
    if is_soft(cards) {
        low_total(cards) + 10
    } else {
        low_total(cards)
    }
}

/// A choice, card by card, of which aces count as 11. Only an ace can be
/// counted high.
pub open spec fn is_assignment(cards: Seq<Card>, high: Seq<bool>) -> bool {
    &&& high.len() == cards.len()
    &&& forall|i: int| 0 <= i < cards.len() && high[i] ==> (#[trigger] cards[i]).spec_is_ace()
}

/// The sum of the cards under a choice of high aces.
pub open spec fn assigned_total(cards: Seq<Card>, high: Seq<bool>) -> nat
    decreases cards.len(),
{
    if cards.len() == 0 || high.len() != cards.len() {
        0
    } else {
        assigned_total(cards.drop_last(), high.drop_last()) + (if high.last() {
            11nat
        } else {
            cards.last().spec_low_value()
        })
    }
}

/// The choice that counts the card at `k` high and every other card low.
pub open spec fn one_high(n: nat, k: int) -> Seq<bool> {
    Seq::new(n, |i: int| i == k)
}

/// The cards' labels, one space between neighbours.
pub open spec fn display_of(cards: Seq<Card>) -> Seq<char>
    decreases cards.len(),
{
    if cards.len() == 0 {
        Seq::empty()
    } else if cards.len() == 1 {
        cards[0].spec_label()
    } else {
        display_of(cards.drop_last()) + seq![' '] + cards.last().spec_label()
    }
}

/// Counting every ace high adds 10 for each ace to the all-low sum.
pub proof fn lemma_high_total(cards: Seq<Card>)
    ensures
        high_total(cards) == low_total(cards) + 10 * ace_count(cards),
    decreases cards.len(),
{
    if cards.len() > 0 {
        lemma_high_total(cards.drop_last());
    }
}

/// Each card adds at least 1 and at most 10 to the all-low sum, and there are
/// no more aces than cards.
pub proof fn lemma_total_bounds(cards: Seq<Card>)
    ensures
        cards.len() <= low_total(cards) <= 10 * cards.len(),
        ace_count(cards) <= cards.len(),
        low_total(cards) <= hand_value(cards) <= high_total(cards) <= 11 * cards.len(),
    decreases cards.len(),
{
    if cards.len() > 0 {
        lemma_total_bounds(cards.drop_last());
    }
    lemma_high_total(cards);
}

/// What one more card does to the sums.
pub proof fn lemma_totals_push(cards: Seq<Card>, c: Card)
    ensures
        low_total(cards.push(c)) == low_total(cards) + c.spec_low_value(),
        high_total(cards.push(c)) == high_total(cards) + c.spec_value(),
        ace_count(cards.push(c)) == ace_count(cards) + (if c.spec_is_ace() {
            1nat
        } else {
            0nat
        }),
{
    assert(cards.push(c).drop_last() =~= cards);
}

/// A choice of high aces adds 10 to the all-low sum for each ace it counts high.
proof fn lemma_assigned_total(cards: Seq<Card>, high: Seq<bool>) -> (k: nat)
    requires
        is_assignment(cards, high),
    ensures
        k <= ace_count(cards),
        assigned_total(cards, high) == low_total(cards) + 10 * k,
    decreases cards.len(),
{
    if cards.len() == 0 {
        0
    } else {
        let k = lemma_assigned_total(cards.drop_last(), high.drop_last());
        if high.last() {
            k + 1
        } else {
            k
        }
    }
}

/// Counting exactly the ace at `k` high adds 10 to the all-low sum; counting
/// no card high adds nothing.
proof fn lemma_one_high_total(cards: Seq<Card>, k: int)
    requires
        0 <= k < cards.len() ==> cards[k].spec_is_ace(),
    ensures
        is_assignment(cards, one_high(cards.len(), k)),
        assigned_total(cards, one_high(cards.len(), k)) == low_total(cards) + (if 0 <= k
            < cards.len() {
            10nat
        } else {
            0nat
        }),
    decreases cards.len(),
{
    if cards.len() > 0 {
        let rest = cards.drop_last();
        assert(one_high(cards.len(), k).drop_last() =~= one_high(rest.len(), k));
        lemma_one_high_total(rest, k);
    }
}

/// Where there is an ace, it stands at some position.
proof fn lemma_find_ace(cards: Seq<Card>) -> (k: int)
    requires
        ace_count(cards) > 0,
    ensures
        0 <= k < cards.len(),
        cards[k].spec_is_ace(),
    decreases cards.len(),
{
    if cards.last().spec_is_ace() {
        cards.len() - 1
    } else {
        lemma_find_ace(cards.drop_last())
    }
}

/// The score is the best that any choice of high aces gives: no choice that
/// stays at or under 21 beats it, and while one such choice exists the score
/// stays at or under 21 too. A score over 21 is the all-aces-low sum, which no
/// choice undercuts.
pub proof fn lemma_value_is_best(cards: Seq<Card>, high: Seq<bool>)
    requires
        is_assignment(cards, high),
    ensures
        assigned_total(cards, high) <= 21 ==> assigned_total(cards, high) <= hand_value(cards)
            <= 21,
        hand_value(cards) > 21 ==> hand_value(cards) == low_total(cards) && hand_value(cards)
            <= assigned_total(cards, high),
{
    let k = lemma_assigned_total(cards, high);
    lemma_total_bounds(cards);
    if assigned_total(cards, high) <= 21 && k >= 2 {
    }
}

/// The score is itself reached by a choice of high aces.
pub proof fn lemma_value_is_reached(cards: Seq<Card>) -> (high: Seq<bool>)
    ensures
        is_assignment(cards, high),
        assigned_total(cards, high) == hand_value(cards),
{
    if is_soft(cards) {
        let k = lemma_find_ace(cards);
        lemma_one_high_total(cards, k);
        one_high(cards.len(), k)
    } else {
        lemma_one_high_total(cards, -1);
        one_high(cards.len(), -1)
    }
}

/// A hand is bust exactly when no choice of high aces keeps it at or under 21.
pub proof fn lemma_bust_iff_no_choice_fits(cards: Seq<Card>)
    ensures
        hand_value(cards) > 21 <==> (forall|high: Seq<bool>|
            is_assignment(cards, high) ==> #[trigger] assigned_total(cards, high) > 21),
{
    if hand_value(cards) > 21 {
        assert forall|high: Seq<bool>| is_assignment(cards, high) implies #[trigger] assigned_total(
            cards,
            high,
        ) > 21 by {
            lemma_value_is_best(cards, high);
        }
    } else {
        let reached = lemma_value_is_reached(cards);
    }
}

/// The cards one party holds, in the order they came.
#[derive(Debug, PartialEq, Eq)]
pub struct Hand {
    cards: Vec<Card>,
}

impl Clone for Hand {
    /// A hand that holds the same cards in the same order.
    fn clone(&self) -> (h: Hand)
        ensures
            h@ == self@,
    {
        Hand { cards: self.cards.clone() }
    }
}

impl View for Hand {
    type V = Seq<Card>;

    closed spec fn view(&self) -> Seq<Card> {
        self.cards@
    }
}

impl Hand {
    /// What the hand scores.
    pub open spec fn spec_value(&self) -> nat {
        hand_value(self@)
    }

    /// Whether the hand is over 21 however its aces are counted.
    pub open spec fn spec_is_bust(&self) -> bool {
        hand_value(self@) > 21
    }

    /// A hand without cards.
    pub fn new() -> (h: Hand)
        ensures
            h@ == Seq::<Card>::empty(),
    {
        Hand { cards: Vec::new() }
    }

    /// Puts a card behind the ones already held.
    pub fn add_card(&mut self, card: Card)
        ensures
            final(self)@ == old(self)@.push(card),
    {
        self.cards.push(card);
    }

    /// How many cards the hand holds.
    pub fn len(&self) -> (n: usize)
        ensures
            n == self@.len(),
    {
        self.cards.len()
    }

    /// The cards in the order they came.
    pub fn cards(&self) -> (cards: &Vec<Card>)
        ensures
            cards@ == self@,
    {
        &self.cards
    }

    /// The best score at or under 21 that the cards allow, or the lowest
    /// score over 21 where they allow none. Every ace starts at 11, and one
    /// ace at a time is lowered to 1 while the total is over 21.
    pub fn value(&self) -> (v: u32)
        requires
            11 * self@.len() <= u32::MAX,
        ensures
            v == self.spec_value(),
    {
        let n: usize = self.cards.len();
        let mut total: u32 = 0;
        let mut aces: usize = 0;
        let mut i: usize = 0;
        while i < n
            invariant
                n == self.cards@.len(),
                11 * n <= u32::MAX,
                i <= n,
                total == high_total(self.cards@.take(i as int)),
                aces == ace_count(self.cards@.take(i as int)),
                total <= 11 * i,
                aces <= i,
            decreases n - i,
        {
            let card = self.cards[i];
            proof {
                lemma_totals_push(self.cards@.take(i as int), card);
                assert(self.cards@.take(i as int).push(card) =~= self.cards@.take(i + 1));
            }
            total = total + card.value();
            if card.is_ace() {
                aces = aces + 1;
            }
            i = i + 1;
        }
        proof {
            assert(self.cards@.take(n as int) =~= self@);
            lemma_high_total(self@);
            lemma_total_bounds(self@);
        }
        while total > TARGET && aces > 0
            invariant
                aces <= ace_count(self@) <= low_total(self@),
                total == low_total(self@) + 10 * aces,
                aces < ace_count(self@) ==> total + 10 > 21,
            decreases aces,
        {
            total = total - 10;
            aces = aces - 1;
        }
        total
    }

    /// Whether the hand is over 21 however its aces are counted.
    pub fn is_bust(&self) -> (b: bool)
        requires
            11 * self@.len() <= u32::MAX,
        ensures
            b == self.spec_is_bust(),
    {
        self.value() > TARGET
    }

    /// The cards' labels in the order held, one space between neighbours.
    pub fn display_str(&self) -> (s: String)
        ensures
            s@ == display_of(self@),
    {
        let mut s = String::new();
        let n: usize = self.cards.len();
        let mut i: usize = 0;
        while i < n
            invariant
                n == self.cards@.len(),
                i <= n,
                s@ == display_of(self.cards@.take(i as int)),
            decreases n - i,
        {
            let label = self.cards[i].label();
            proof {
                reveal_strlit(" ");
                assert(self.cards@.take(i + 1).drop_last() =~= self.cards@.take(i as int));
            }
            if i > 0 {
                s.append(" ");
            }
            s.append(label.as_str());
            i = i + 1;
        }
        assert(self.cards@.take(n as int) =~= self@);
        s
    }
}

} // verus!
