//! One complete hand of blackjack.
//!
//! `play_game` runs a single hand to completion: it builds a fresh deck,
//! deals two cards each to player and dealer, lets the supplied policy
//! drive the player's hit/stand decisions, automates the dealer, and
//! resolves the outcome.  The contract pins down the resolution rules,
//! the dealer's stopping discipline, and conservation of the 52 cards
//! across the hands and the remaining deck.
//!
//! Both totals handed to the policy are full hand values; in particular
//! the dealer total includes the hole card.

use vstd::prelude::*;
use vstd::multiset::Multiset;
use crate::cards::{Card, full_deck, build_deck, valid_card, valid_cards};
use crate::hand::{
    spec_hand_value, hand_value, lemma_hand_value_at_least_len, lemma_two_cards_le_21,
};

verus! {

/// A player decision: take another card or stop.
#[derive(Debug, Clone, Copy, PartialEq, Eq, Structural)]
pub enum Action {
    HIT,
    STAND,
}

/// How a completed hand ended for the player.
#[derive(Debug, Clone, Copy, PartialEq, Eq, Structural)]
pub enum GameResult {
    WIN,
    LOSE,
    TIE,
}

/// The report of one completed hand.
#[derive(Debug, Clone, Copy, PartialEq, Eq, Structural)]
pub struct GameOutcome {
    pub player_total: i32,
    pub dealer_total: i32,
    pub result: GameResult,
}

/// A completed hand together with the cards that produced it.
pub struct CompletedHand {
    pub outcome: GameOutcome,
    pub player_hand: Vec<Card>,
    pub dealer_hand: Vec<Card>,
    pub deck: Vec<Card>,
}

/// The resolution rules, in priority order: a player bust loses, then a
/// dealer bust wins, then the higher total wins, equal totals tie.
pub open spec fn spec_resolve(player: int, dealer: int) -> GameResult {
    if player > 21 {
        GameResult::LOSE
    } else if dealer > 21 {
        GameResult::WIN
    } else if player > dealer {
        GameResult::WIN
    } else if player < dealer {
        GameResult::LOSE
    } else {
        GameResult::TIE
    }
}

/// Decides a completed hand from the two final totals.
pub fn resolve(player_total: i32, dealer_total: i32) -> (r: GameResult)
    ensures
        r == spec_resolve(player_total as int, dealer_total as int),
{
    if player_total > 21 {
        GameResult::LOSE
    } else if dealer_total > 21 {
        GameResult::WIN
    } else if player_total > dealer_total {
        GameResult::WIN
    } else if player_total < dealer_total {
        GameResult::LOSE
    } else {
        GameResult::TIE
    }
}

/// The player's side of the game: asked for a decision, given both
/// current totals.  Implemented by learned, fixed or interactive
/// strategies.
pub trait Policy {
    fn decide(&mut self, player_total: i32, dealer_total: i32) -> Action;
}

/// The classic fixed strategy: hit strictly below 17, stand otherwise.
pub struct FixedStrategyPolicy {}

impl Policy for FixedStrategyPolicy {
    fn decide(&mut self, player_total: i32, _dealer_total: i32) -> Action {
        if player_total < 17 {
            Action::HIT
        } else {
            Action::STAND
        }
    }
}

/// Relies on rand's `thread_rng` and `Rng::gen_range` over `0..len`:
/// returns a uniformly drawn index strictly below `len`.  `gen_range`
/// panics on an empty range, which the precondition rules out.
#[verifier::external_body]
fn random_index(len: usize) -> (r: usize)
    requires
        len > 0,
    ensures
        r < len,
{
    rand::Rng::gen_range(&mut rand::thread_rng(), 0..len)
}

/// Removes and returns a uniformly chosen card of the deck.
pub fn deal_card(deck: &mut Vec<Card>) -> (c: Card)
    requires
        old(deck)@.len() > 0,
    ensures
        exists|i: int|
            0 <= i < old(deck)@.len() && c == old(deck)@[i] && final(deck)@ == old(deck)@.remove(
                i,
            ),
        final(deck)@.len() == old(deck)@.len() - 1,
        final(deck)@.to_multiset() == old(deck)@.to_multiset().remove(c),
        old(deck)@.to_multiset().count(c) > 0,
        valid_cards(old(deck)@) ==> valid_card(c) && valid_cards(final(deck)@),
{
    let index = random_index(deck.len());
    let c = deck.remove(index);
    proof {
        broadcast use vstd::seq_lib::group_to_multiset_ensures;

        let ghost s = old(deck)@;
        assert(c == s[index as int] && deck@ == s.remove(index as int));
        assert(s.contains(c));
        if valid_cards(s) {
            assert forall|k: int| 0 <= k < deck@.len() implies valid_card(#[trigger] deck@[k]) by {
                if k < index {
                    assert(deck@[k] == s[k]);
                } else {
                    assert(deck@[k] == s[k + 1]);
                }
            }
        }
    }
    c
}

/// The dealer's automated turn: hit while the hand is worth less than
/// 17, then stop.  Each card the dealer takes was taken at a total
/// strictly below 17, so a dealer that starts at 17 or more takes none.
pub fn dealer_play(deck: &mut Vec<Card>, hand: &mut Vec<Card>)
    requires
        valid_cards(old(deck)@),
        valid_cards(old(hand)@),
        old(deck)@.len() + old(hand)@.len() >= 17,
        old(hand)@.len() <= 21,
    ensures
        valid_cards(final(deck)@),
        valid_cards(final(hand)@),
        final(hand)@.len() <= 21,
        final(hand)@.to_multiset().add(final(deck)@.to_multiset()) == old(
            hand,
        )@.to_multiset().add(old(deck)@.to_multiset()),
        old(hand)@.len() <= final(hand)@.len(),
        final(hand)@.take(old(hand)@.len() as int) == old(hand)@,
        spec_hand_value(final(hand)@) >= 17,
        spec_hand_value(old(hand)@) >= 17 ==> final(hand)@ == old(hand)@ && final(deck)@ == old(
            deck,
        )@,
        forall|k: int|
            old(hand)@.len() <= k < final(hand)@.len() ==> spec_hand_value(
                final(hand)@.take(k),
            ) < 17,
{
    let ghost orig_hand = old(hand)@;
    let ghost orig_deck = old(deck)@;
    let mut value: i32 = hand_value(hand);
    while value < 17
        invariant
            valid_cards(deck@),
            valid_cards(hand@),
            value == spec_hand_value(hand@),
            hand@.len() <= 21,
            deck@.len() + hand@.len() >= 17,
            hand@.to_multiset().add(deck@.to_multiset()) == orig_hand.to_multiset().add(
                orig_deck.to_multiset(),
            ),
            orig_hand.len() <= hand@.len(),
            hand@.take(orig_hand.len() as int) == orig_hand,
            spec_hand_value(orig_hand) >= 17 ==> hand@ == orig_hand && deck@ == orig_deck,
            forall|k: int| orig_hand.len() <= k < hand@.len() ==> spec_hand_value(hand@.take(k)) < 17,
        decreases deck@.len(),
    {
        proof {
            lemma_hand_value_at_least_len(hand@);
            assert(hand@.len() <= 16);
            assert(deck@.len() >= 1);
        }
        let ghost before = hand@;
        let ghost before_deck = deck@;
        let c = deal_card(deck);
        hand.push(c);
        proof {
            broadcast use vstd::seq_lib::group_to_multiset_ensures;
            broadcast use vstd::multiset::group_multiset_axioms;

            assert(deck@.to_multiset().insert(c) =~= before_deck.to_multiset());

            assert(hand@.drop_last() =~= before);
            assert(hand@.take(orig_hand.len() as int) =~= before.take(orig_hand.len() as int));
            assert forall|k: int| orig_hand.len() <= k < hand@.len() implies spec_hand_value(
                #[trigger] hand@.take(k),
            ) < 17 by {
                assert(hand@.take(k) =~= before.take(k));
                if k == before.len() {
                    assert(before.take(k) =~= before);
                }
            }
            assert(hand@.to_multiset() =~= before.to_multiset().insert(c));
            lemma_conservation_step(before, hand@, deck@, c, orig_hand, orig_deck);
            assert(valid_cards(hand@)) by {
                assert(forall|k: int|
                    0 <= k < before.len() ==> hand@[k] == #[trigger] before[k]);
                assert(hand@[hand@.len() - 1] == c);
            }
        }
        value = hand_value(hand);
        proof {
            lemma_hand_value_at_least_len(hand@);
        }
    }
}

/// After a card moves from the deck to a hand, the two multisets still
/// add up to what they added up to before.
proof fn lemma_conservation_step(
    before: Seq<Card>,
    after: Seq<Card>,
    deck: Seq<Card>,
    c: Card,
    orig_hand: Seq<Card>,
    orig_deck: Seq<Card>,
)
    requires
        after.to_multiset() == before.to_multiset().insert(c),
        before.to_multiset().add(deck.to_multiset().insert(c)) == orig_hand.to_multiset().add(
            orig_deck.to_multiset(),
        ),
    ensures
        after.to_multiset().add(deck.to_multiset()) == orig_hand.to_multiset().add(
            orig_deck.to_multiset(),
        ),
{
    broadcast use vstd::multiset::group_multiset_axioms;

    assert(after.to_multiset().add(deck.to_multiset()) =~= before.to_multiset().add(
        deck.to_multiset().insert(c),
    ));
}

/// Runs one hand of blackjack to completion under the given policy.
///
/// The outcome's totals are the final values of the two hands, the
/// result follows the resolution rules, a player bust ends the hand
/// with no dealer action, and otherwise the dealer has drawn up to a
/// total of at least 17.  The two hands and the remaining deck together
/// hold exactly the 52 cards of a fresh deck.
pub fn play_game<P: Policy>(policy: &mut P) -> (r: CompletedHand)
    ensures
        valid_cards(r.player_hand@),
        valid_cards(r.dealer_hand@),
        valid_cards(r.deck@),
        r.player_hand@.len() >= 2,
        r.dealer_hand@.len() >= 2,
        r.player_hand@.to_multiset().add(r.dealer_hand@.to_multiset()).add(r.deck@.to_multiset())
            == full_deck().to_multiset(),
        r.outcome.player_total == spec_hand_value(r.player_hand@),
        r.outcome.dealer_total == spec_hand_value(r.dealer_hand@),
        r.outcome.result == spec_resolve(
            r.outcome.player_total as int,
            r.outcome.dealer_total as int,
        ),
        r.outcome.player_total > 21 ==> r.dealer_hand@.len() == 2 && r.outcome.result
            == GameResult::LOSE,
        r.outcome.player_total <= 21 ==> r.outcome.dealer_total >= 17,
        forall|k: int|
            2 <= k < r.dealer_hand@.len() ==> spec_hand_value(r.dealer_hand@.take(k)) < 17,
{
    let mut deck = build_deck();

    let mut hand: Vec<Card> = Vec::new();
    let mut dealer_hand: Vec<Card> = Vec::new();

    let c1 = deal_card(&mut deck);
    hand.push(c1);
    let c2 = deal_card(&mut deck);
    hand.push(c2);
    let d1 = deal_card(&mut deck);
    dealer_hand.push(d1);
    let d2 = deal_card(&mut deck);
    dealer_hand.push(d2);

    proof {
        broadcast use vstd::seq_lib::group_to_multiset_ensures;
        broadcast use vstd::multiset::group_multiset_axioms;

        assert(hand@ =~= seq![c1, c2]);
        assert(dealer_hand@ =~= seq![d1, d2]);
        assert(valid_cards(hand@));
        assert(valid_cards(dealer_hand@));
        assert(hand@.to_multiset() =~= Multiset::empty().insert(c1).insert(c2));
        assert(dealer_hand@.to_multiset() =~= Multiset::empty().insert(d1).insert(d2));
        assert(hand@.to_multiset().add(dealer_hand@.to_multiset()).add(deck@.to_multiset())
            =~= full_deck().to_multiset());
        lemma_two_cards_le_21(hand@);
        lemma_two_cards_le_21(dealer_hand@);
    }

    // Player's turn: the policy decides until it stands or the hand busts.
    let mut player_value: i32 = hand_value(&hand);
    loop
        invariant
            valid_cards(hand@),
            valid_cards(dealer_hand@),
            valid_cards(deck@),
            hand@.len() >= 2,
            dealer_hand@.len() == 2,
            player_value == spec_hand_value(hand@),
            player_value <= 21,
            hand@.len() <= 21,
            hand@.to_multiset().add(dealer_hand@.to_multiset()).add(deck@.to_multiset())
                == full_deck().to_multiset(),
            spec_hand_value(dealer_hand@) <= 21,
        decreases deck@.len(),
    {
        proof {
            lemma_deck_left(hand@, dealer_hand@, deck@);
        }
        let dealer_value = hand_value(&dealer_hand);
        let action = policy.decide(player_value, dealer_value);
        match action {
            Action::HIT => {
                let ghost before = hand@;
                let c = deal_card(&mut deck);
                hand.push(c);
                proof {
                    broadcast use vstd::seq_lib::group_to_multiset_ensures;
                    broadcast use vstd::multiset::group_multiset_axioms;

                    assert(hand@.drop_last() =~= before);
                    assert(valid_cards(hand@)) by {
                        assert(forall|k: int|
                            0 <= k < before.len() ==> hand@[k] == #[trigger] before[k]);
                        assert(hand@[hand@.len() - 1] == c);
                    }
                    assert(hand@.to_multiset() =~= before.to_multiset().insert(c));
                    assert(hand@.to_multiset().add(dealer_hand@.to_multiset()).add(
                        deck@.to_multiset(),
                    ) =~= before.to_multiset().add(dealer_hand@.to_multiset()).add(
                        deck@.to_multiset().insert(c),
                    ));
                    lemma_hand_value_at_least_len(hand@);
                }
                player_value = hand_value(&hand);
                if player_value > 21 {
                    // Player bust: the hand is over, the dealer does not act.
                    let dealer_total = hand_value(&dealer_hand);
                    return CompletedHand {
                        outcome: GameOutcome {
                            player_total: player_value,
                            dealer_total,
                            result: GameResult::LOSE,
                        },
                        player_hand: hand,
                        dealer_hand,
                        deck,
                    };
                }
            },
            Action::STAND => {
                break;
            },
        }
    }

    // Dealer's turn.
    proof {
        lemma_hand_value_at_least_len(hand@);
        lemma_deck_left(hand@, dealer_hand@, deck@);
    }
    let ghost dealer_before = dealer_hand@.to_multiset();
    let ghost deck_before = deck@.to_multiset();
    dealer_play(&mut deck, &mut dealer_hand);

    let dealer_value = hand_value(&dealer_hand);
    let result = resolve(player_value, dealer_value);
    proof {
        lemma_regroup_conservation(
            hand@.to_multiset(),
            dealer_before,
            deck_before,
            dealer_hand@.to_multiset(),
            deck@.to_multiset(),
        );
    }
    CompletedHand {
        outcome: GameOutcome {
            player_total: player_value,
            dealer_total: dealer_value,
            result,
        },
        player_hand: hand,
        dealer_hand,
        deck,
    }
}

/// Replacing the dealer's hand and the deck by any two piles that hold
/// the same cards between them keeps the three-pile total the same.
proof fn lemma_regroup_conservation(
    a: Multiset<Card>,
    b1: Multiset<Card>,
    c1: Multiset<Card>,
    b2: Multiset<Card>,
    c2: Multiset<Card>,
)
    requires
        b2.add(c2) == b1.add(c1),
    ensures
        a.add(b2).add(c2) == a.add(b1).add(c1),
{
    broadcast use vstd::multiset::group_multiset_axioms;

    assert forall|x: Card| a.add(b2).add(c2).count(x) == a.add(b1).add(c1).count(x) by {
        assert(b2.add(c2).count(x) == b1.add(c1).count(x));
        assert(a.add(b2).add(c2).count(x) == a.count(x) + b2.add(c2).count(x));
        assert(a.add(b1).add(c1).count(x) == a.count(x) + b1.add(c1).count(x));
    }
    assert(a.add(b2).add(c2) =~= a.add(b1).add(c1));
}

/// While the three piles together form the full deck and the two hands
/// are small, the deck still holds cards.
proof fn lemma_deck_left(hand: Seq<Card>, dealer: Seq<Card>, deck: Seq<Card>)
    requires
        hand.to_multiset().add(dealer.to_multiset()).add(deck.to_multiset())
            == full_deck().to_multiset(),
        hand.len() <= 21,
        dealer.len() <= 14,
    ensures
        deck.len() >= 17,
        deck.len() + dealer.len() >= 17,
        deck.len() == 52 - hand.len() - dealer.len(),
{
    broadcast use vstd::seq_lib::group_to_multiset_ensures;
    broadcast use vstd::multiset::group_multiset_axioms;

    assert(full_deck().to_multiset().len() == 52);
    assert(hand.to_multiset().add(dealer.to_multiset()).add(deck.to_multiset()).len()
        == hand.len() + dealer.len() + deck.len());
}

} // verus!
