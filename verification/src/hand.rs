//! Hand scoring.
//!
//! A hand's value is computed greedily: first the non-Ace cards are
//! summed (face cards count 10), then each Ace, in hand order, adds 11
//! if the running total stays at or below 21 and 1 otherwise.

use vstd::prelude::*;
use crate::cards::{Card, valid_card, valid_cards};

verus! {

/// Points a single card contributes before Aces are settled: Aces
/// contribute nothing here, face cards 10, other cards their rank.
pub open spec fn non_ace_points(c: Card) -> int {
    if c.value == 1 {
        0
    } else if c.value > 10 {
        10
    } else {
        c.value as int
    }
}

/// Whether a card is an Ace.
pub open spec fn is_ace(c: Card) -> bool {
    c.value == 1
}

/// Sum of the non-Ace points of a hand, in hand order.
pub open spec fn base_sum(s: Seq<Card>) -> int {
    s.fold_left(0, |acc: int, c: Card| acc + non_ace_points(c))
}

/// Number of Aces in a hand.
pub open spec fn ace_count(s: Seq<Card>) -> int {
    s.fold_left(0, |acc: int, c: Card| acc + if is_ace(c) { 1int } else { 0int })
}

/// Greedy Ace settlement: each Ace in turn adds 11 if that keeps the
/// total at or below 21, else 1.
pub open spec fn settle_aces(v: int, n: nat) -> int
    decreases n,
{
    if n == 0 {
        v
    } else {
        settle_aces(if v + 11 <= 21 { v + 11 } else { v + 1 }, (n - 1) as nat)
    }
}

/// The value of a hand under the greedy per-Ace resolution.
pub open spec fn spec_hand_value(s: Seq<Card>) -> int {
    settle_aces(base_sum(s), ace_count(s) as nat)
}

/// `base_sum` and `ace_count` over one more card.
proof fn lemma_sums_push(s: Seq<Card>, i: int)
    requires
        0 <= i < s.len(),
    ensures
        base_sum(s.take(i + 1)) == base_sum(s.take(i)) + non_ace_points(s[i]),
        ace_count(s.take(i + 1)) == ace_count(s.take(i)) + if is_ace(s[i]) { 1int } else { 0int },
{
    assert(s.take(i + 1).drop_last() =~= s.take(i));
    assert(s.take(i + 1).last() == s[i]);
}

/// Bounds on the two sums: the Ace count lies between 0 and the hand's
/// size, and the non-Ace sum lies between twice and ten times the
/// number of non-Ace cards.
pub proof fn lemma_sums_bounds(s: Seq<Card>)
    requires
        valid_cards(s),
    ensures
        0 <= ace_count(s) <= s.len(),
        2 * (s.len() - ace_count(s)) <= base_sum(s) <= 10 * (s.len() - ace_count(s)),
    decreases s.len(),
{
    if s.len() > 0 {
        assert(s.drop_last().len() == s.len() - 1);
        assert(valid_cards(s.drop_last()));
        lemma_sums_bounds(s.drop_last());
        assert(base_sum(s) == base_sum(s.drop_last()) + non_ace_points(s.last()));
        assert(ace_count(s) == ace_count(s.drop_last()) + if is_ace(s.last()) {
            1int
        } else {
            0int
        });
        assert(valid_card(s.last())) by {
            assert(s[s.len() - 1] == s.last());
        }
    }
}

/// Settling `n` Aces adds at least `n` and at most `11 * n`.
pub proof fn lemma_settle_aces_bounds(v: int, n: nat)
    ensures
        v + n <= settle_aces(v, n) <= v + 11 * n,
    decreases n,
{
    if n > 0 {
        if v + 11 <= 21 {
            lemma_settle_aces_bounds(v + 11, (n - 1) as nat);
        } else {
            lemma_settle_aces_bounds(v + 1, (n - 1) as nat);
        }
    }
}

/// A hand of valid cards is worth at least one point per card.
pub proof fn lemma_hand_value_at_least_len(s: Seq<Card>)
    requires
        valid_cards(s),
    ensures
        spec_hand_value(s) >= s.len(),
{
    lemma_sums_bounds(s);
    lemma_settle_aces_bounds(base_sum(s), ace_count(s) as nat);
}

/// Two cards can never bust: a two-card hand is worth at most 21.
pub proof fn lemma_two_cards_le_21(s: Seq<Card>)
    requires
        valid_cards(s),
        s.len() == 2,
    ensures
        spec_hand_value(s) <= 21,
{
    lemma_sums_bounds(s);
    let b = base_sum(s);
    let a = ace_count(s);
    if a == 0 {
        assert(settle_aces(b, 0) == b);
    } else if a == 1 {
        assert(b <= 10);
        assert(settle_aces(b, 1) == settle_aces(b + 11, 0));
    } else {
        assert(b == 0);
        assert(settle_aces(0, 2) == settle_aces(11, 1));
        assert(settle_aces(11, 1) == settle_aces(12, 0));
    }
}

/// Hand value is invariant under reordering of the cards: the non-Ace
/// sum and the Ace count are order-independent, and the greedy Ace
/// settlement reads only those two numbers.  In particular the value of
/// a hand with at most one Ace does not depend on the card order.
pub proof fn lemma_hand_value_permutation(s1: Seq<Card>, s2: Seq<Card>)
    requires
        s1.to_multiset() == s2.to_multiset(),
    ensures
        spec_hand_value(s1) == spec_hand_value(s2),
{
    lemma_sums_permutation(s1, s2);
}

/// The non-Ace sum and the Ace count depend only on which cards the
/// hand holds, not on their order.
pub proof fn lemma_sums_permutation(s1: Seq<Card>, s2: Seq<Card>)
    requires
        s1.to_multiset() == s2.to_multiset(),
    ensures
        base_sum(s1) == base_sum(s2),
        ace_count(s1) == ace_count(s2),
{
    let fb = |acc: int, c: Card| acc + non_ace_points(c);
    let fa = |acc: int, c: Card| acc + if is_ace(c) { 1int } else { 0int };
    assert(vstd::seq_lib::commutative_foldl(fb));
    assert(vstd::seq_lib::commutative_foldl(fa));
    vstd::seq_lib::lemma_fold_left_permutation(s1, s2, fb, 0);
    vstd::seq_lib::lemma_fold_left_permutation(s1, s2, fa, 0);
}

/// Computes the value of a hand: non-Ace cards are summed with face
/// cards counting 10, then each Ace in hand order adds 11 if the total
/// stays at or below 21 and 1 otherwise.
pub fn hand_value(hand: &Vec<Card>) -> (v: i32)
    requires
        valid_cards(hand@),
        hand@.len() <= 52,
    ensures
        v == spec_hand_value(hand@),
{
    let ghost s = hand@;
    let mut value: i32 = 0;
    let mut aces: i32 = 0;

    let mut i: usize = 0;
    while i < hand.len()
        invariant
            0 <= i <= hand.len(),
            hand@ == s,
            valid_cards(s),
            s.len() <= 52,
            value == base_sum(s.take(i as int)),
            aces == ace_count(s.take(i as int)),
            0 <= value <= 10 * i,
            0 <= aces <= i,
        decreases hand.len() - i,
    {
        proof {
            lemma_sums_push(s, i as int);
        }
        let card = hand[i];
        if card.value == 1 {
            aces = aces + 1;
        } else if card.value > 10 {
            value = value + 10;
        } else {
            value = value + card.value;
        }
        i = i + 1;
    }
    proof {
        assert(s.take(s.len() as int) =~= s);
    }

    let ghost base = base_sum(s);
    let ghost total_aces = ace_count(s);
    let mut j: i32 = 0;
    while j < aces
        invariant
            0 <= j <= aces,
            aces <= 52,
            aces == total_aces,
            settle_aces(value as int, (aces - j) as nat) == settle_aces(base, total_aces as nat),
            base <= 520,
            0 <= value <= base + 11 * j,
        decreases aces - j,
    {
        if value + 11 <= 21 {
            value = value + 11;
        } else {
            value = value + 1;
        }
        j = j + 1;
    }
    value
}

} // verus!
