//! Cards and the 52-card deck.
//!
//! A deck is built in a canonical order: for each rank 1 through 13, one
//! card per suit (hearts, diamonds, clubs, spades).  `full_deck` is the
//! mathematical model of that sequence; `build_deck` produces exactly it.

use vstd::prelude::*;

verus! {

#[derive(Debug, Clone, Copy, PartialEq, Eq, Structural)]
pub enum CardSuit {
    HEARTS,
    DIAMONDS,
    CLUBS,
    SPADES,
}

/// One playing card.  Rank 1 is an Ace; ranks 11-13 are face cards.
#[derive(Debug, Clone, Copy, PartialEq, Eq, Structural)]
pub struct Card {
    pub suit: CardSuit,
    pub value: i32,
}

/// A card the deck can actually contain: rank between 1 and 13.
pub open spec fn valid_card(c: Card) -> bool {
    1 <= c.value <= 13
}

/// Every card of the sequence is a valid card.
pub open spec fn valid_cards(s: Seq<Card>) -> bool {
    forall|i: int| 0 <= i < s.len() ==> valid_card(#[trigger] s[i])
}

/// The suit stored at offset `k` within each rank's block of four cards.
pub open spec fn suit_at(k: int) -> CardSuit {
    if k == 0 {
        CardSuit::HEARTS
    } else if k == 1 {
        CardSuit::DIAMONDS
    } else if k == 2 {
        CardSuit::CLUBS
    } else {
        CardSuit::SPADES
    }
}

/// The canonical 52-card deck, in the order `build_deck` creates it.
pub open spec fn full_deck() -> Seq<Card> {
    Seq::new(52, |i: int| Card { suit: suit_at(i % 4), value: (i / 4 + 1) as i32 })
}

/// Builds a fresh deck: 52 cards, four of each rank 1-13, one per suit.
pub fn build_deck() -> (deck: Vec<Card>)
    ensures
        deck@ == full_deck(),
        deck@.len() == 52,
        valid_cards(deck@),
{
    let mut deck: Vec<Card> = Vec::new();
    let mut i: i32 = 1;
    while i < 14
        invariant
            1 <= i <= 14,
            deck@.len() == 4 * (i - 1),
            deck@ == full_deck().take(4 * (i - 1)),
        decreases 14 - i,
    {
        proof {
            lemma_rank_block(i as int);
        }
        deck.push(Card { suit: CardSuit::HEARTS, value: i });
        deck.push(Card { suit: CardSuit::DIAMONDS, value: i });
        deck.push(Card { suit: CardSuit::CLUBS, value: i });
        deck.push(Card { suit: CardSuit::SPADES, value: i });
        proof {
            let j = 4 * (i - 1) as int;
            assert(deck@ =~= full_deck().take(j + 4));
        }
        i = i + 1;
    }
    proof {
        assert(deck@ =~= full_deck());
        assert forall|k: int| 0 <= k < full_deck().len() implies valid_card(
            #[trigger] full_deck()[k],
        ) by {
            assert(0 <= k / 4 < 13) by (nonlinear_arith)
                requires 0 <= k < 52;
        }
    }
    deck
}

/// The four cards of rank `r` sit at offsets `4*(r-1)` through `4*(r-1)+3`
/// of the canonical deck, in suit order.
proof fn lemma_rank_block(r: int)
    requires
        1 <= r <= 13,
    ensures
        forall|k: int|
            0 <= k < 4 ==> #[trigger] full_deck()[4 * (r - 1) + k] == (Card {
                suit: suit_at(k),
                value: r as i32,
            }),
{
    assert forall|k: int| 0 <= k < 4 implies #[trigger] full_deck()[4 * (r - 1) + k] == (Card {
        suit: suit_at(k),
        value: r as i32,
    }) by {
        let j = 4 * (r - 1) + k;
        assert(j / 4 == r - 1 && j % 4 == k) by (nonlinear_arith)
            requires 1 <= r <= 13 && 0 <= k < 4 && j == 4 * (r - 1) + k;
    }
}

/// Distinct positions of the canonical deck hold distinct cards: the deck
/// has no duplicate (suit, rank) pair.
pub proof fn lemma_full_deck_distinct()
    ensures
        forall|i: int, j: int|
            0 <= i < j < 52 ==> full_deck()[i] != full_deck()[j],
{
    assert forall|i: int, j: int| 0 <= i < j < 52 implies full_deck()[i] != full_deck()[j] by {
        assert(i / 4 != j / 4 || i % 4 != j % 4) by (nonlinear_arith)
            requires 0 <= i < j < 52;
    }
}

/// Every valid (suit, rank) pair occurs in the canonical deck.
pub proof fn lemma_full_deck_complete(c: Card)
    requires
        valid_card(c),
    ensures
        full_deck().contains(c),
{
    let k = suit_index(c.suit);
    let j = 4 * (c.value - 1) + k;
    assert(j / 4 == c.value - 1 && j % 4 == k) by (nonlinear_arith)
        requires 1 <= c.value <= 13 && 0 <= k < 4 && j == 4 * (c.value - 1) + k;
    assert(suit_at(k) == c.suit);
    assert(full_deck()[j] == c);
}

/// The offset at which `suit_at` yields the given suit.
pub open spec fn suit_index(s: CardSuit) -> int {
    match s {
        CardSuit::HEARTS => 0,
        CardSuit::DIAMONDS => 1,
        CardSuit::CLUBS => 2,
        CardSuit::SPADES => 3,
    }
}

/// Each valid card appears exactly once in the canonical deck, and no
/// other card appears at all.
pub proof fn lemma_full_deck_count(c: Card)
    ensures
        full_deck().to_multiset().count(c) == if valid_card(c) { 1int } else { 0int },
{
    broadcast use vstd::seq_lib::group_to_multiset_ensures;

    if valid_card(c) {
        lemma_full_deck_complete(c);
        lemma_full_deck_distinct();
        assert(full_deck().no_duplicates());
        full_deck().lemma_multiset_has_no_duplicates();
    } else {
        assert forall|i: int| 0 <= i < 52 implies full_deck()[i] != c by {
            assert(1 <= i / 4 + 1 <= 13) by (nonlinear_arith)
                requires 0 <= i < 52;
        }
        if full_deck().to_multiset().count(c) > 0 {
            assert(full_deck().contains(c));
        }
    }
}

} // verus!
