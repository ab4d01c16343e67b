use blackjack_rl::cards::{build_deck, Card, CardSuit};
use blackjack_rl::game::{play_game, resolve, Action, GameResult, Policy};
use blackjack_rl::hand::hand_value;
use blackjack_rl::render::display_card_visual;

fn card(suit: CardSuit, value: i32) -> Card {
    Card { suit, value }
}

fn assert_all_distinct(cards: &[Card]) {
    for i in 0..cards.len() {
        for j in (i + 1)..cards.len() {
            assert_ne!(cards[i], cards[j], "duplicate card at {} and {}", i, j);
        }
    }
}

#[test]
fn deck_has_52_unique_cards() {
    let deck = build_deck();
    assert_eq!(deck.len(), 52);
    assert_all_distinct(&deck);
    for value in 1..14 {
        let count = deck.iter().filter(|c| c.value == value).count();
        assert_eq!(count, 4, "rank {} must appear four times", value);
    }
    for suit in [
        CardSuit::HEARTS,
        CardSuit::DIAMONDS,
        CardSuit::CLUBS,
        CardSuit::SPADES,
    ] {
        let count = deck.iter().filter(|c| c.suit == suit).count();
        assert_eq!(count, 13, "each suit must appear thirteen times");
    }
}

#[test]
fn hand_value_empty_hand_is_zero() {
    let hand: Vec<Card> = Vec::new();
    assert_eq!(hand_value(&hand), 0);
}

#[test]
fn hand_value_face_cards_count_ten() {
    let hand = vec![
        card(CardSuit::HEARTS, 11),
        card(CardSuit::CLUBS, 12),
        card(CardSuit::SPADES, 13),
    ];
    assert_eq!(hand_value(&hand), 30);
}

#[test]
fn hand_value_two_aces_is_twelve() {
    let hand = vec![card(CardSuit::HEARTS, 1), card(CardSuit::SPADES, 1)];
    assert_eq!(hand_value(&hand), 12);
}

#[test]
fn hand_value_ace_and_king_is_twentyone() {
    let hand = vec![card(CardSuit::HEARTS, 1), card(CardSuit::SPADES, 13)];
    assert_eq!(hand_value(&hand), 21);
}

#[test]
fn hand_value_soft_ace_turns_hard() {
    // 9 + 5 leaves no room for a soft Ace: 9 + 5 + 1 = 15.
    let hand = vec![
        card(CardSuit::HEARTS, 9),
        card(CardSuit::CLUBS, 5),
        card(CardSuit::SPADES, 1),
    ];
    assert_eq!(hand_value(&hand), 15);
}

#[test]
fn hand_value_is_order_independent_without_aces() {
    let a = vec![card(CardSuit::HEARTS, 5), card(CardSuit::CLUBS, 9)];
    let b = vec![card(CardSuit::CLUBS, 9), card(CardSuit::HEARTS, 5)];
    assert_eq!(hand_value(&a), hand_value(&b));
    assert_eq!(hand_value(&a), 14);
}

#[test]
fn hand_value_is_order_independent_with_one_ace() {
    let a = vec![
        card(CardSuit::HEARTS, 1),
        card(CardSuit::CLUBS, 9),
        card(CardSuit::SPADES, 9),
    ];
    let b = vec![
        card(CardSuit::SPADES, 9),
        card(CardSuit::HEARTS, 1),
        card(CardSuit::CLUBS, 9),
    ];
    // 9 + 9 + 1: the Ace must go hard.
    assert_eq!(hand_value(&a), 19);
    assert_eq!(hand_value(&b), 19);
}

#[test]
fn hand_value_multi_ace_greedy_resolution() {
    // Base 9, two Aces: the first goes soft (20), the second hard (21).
    let hand = vec![
        card(CardSuit::HEARTS, 1),
        card(CardSuit::SPADES, 1),
        card(CardSuit::CLUBS, 9),
    ];
    assert_eq!(hand_value(&hand), 21);
}

#[test]
fn resolution_player_20_dealer_19_wins() {
    assert_eq!(resolve(20, 19), GameResult::WIN);
}

#[test]
fn resolution_player_bust_always_loses() {
    assert_eq!(resolve(22, 5), GameResult::LOSE);
    assert_eq!(resolve(22, 22), GameResult::LOSE);
    assert_eq!(resolve(25, 17), GameResult::LOSE);
}

#[test]
fn resolution_equal_totals_tie() {
    assert_eq!(resolve(18, 18), GameResult::TIE);
}

#[test]
fn resolution_dealer_bust_wins() {
    assert_eq!(resolve(21, 22), GameResult::WIN);
    assert_eq!(resolve(4, 26), GameResult::WIN);
}

#[test]
fn resolution_lower_total_loses() {
    assert_eq!(resolve(17, 20), GameResult::LOSE);
}

struct AlwaysHit;

impl Policy for AlwaysHit {
    fn decide(&mut self, _player_total: i32, _dealer_total: i32) -> Action {
        Action::HIT
    }
}

struct AlwaysStand;

impl Policy for AlwaysStand {
    fn decide(&mut self, _player_total: i32, _dealer_total: i32) -> Action {
        Action::STAND
    }
}

#[test]
fn always_hitting_busts_and_loses_without_dealer_action() {
    for _ in 0..25 {
        let done = play_game(&mut AlwaysHit);
        assert!(done.outcome.player_total > 21);
        assert_eq!(done.outcome.result, GameResult::LOSE);
        // The dealer never acted: its hand is still the two dealt cards.
        assert_eq!(done.dealer_hand.len(), 2);
    }
}

#[test]
fn standing_player_sees_dealer_reach_seventeen() {
    for _ in 0..25 {
        let done = play_game(&mut AlwaysStand);
        assert_eq!(done.player_hand.len(), 2);
        assert!(done.outcome.player_total <= 21);
        assert!(done.outcome.dealer_total >= 17);
        assert!(done.dealer_hand.len() >= 2);
    }
}

#[test]
fn outcome_totals_and_result_match_the_hands() {
    for _ in 0..25 {
        let done = play_game(&mut AlwaysStand);
        assert_eq!(done.outcome.player_total, hand_value(&done.player_hand));
        assert_eq!(done.outcome.dealer_total, hand_value(&done.dealer_hand));
        assert_eq!(
            done.outcome.result,
            resolve(done.outcome.player_total, done.outcome.dealer_total)
        );
    }
}

#[test]
fn no_card_is_lost_or_duplicated_by_a_hand() {
    for _ in 0..25 {
        let done = play_game(&mut AlwaysHit);
        let mut all: Vec<Card> = Vec::new();
        all.extend_from_slice(&done.player_hand);
        all.extend_from_slice(&done.dealer_hand);
        all.extend_from_slice(&done.deck);
        assert_eq!(all.len(), 52);
        assert_all_distinct(&all);
        for c in &all {
            assert!((1..=13).contains(&c.value));
        }
    }
}

#[test]
fn card_faces_have_five_lines() {
    let lines = display_card_visual(&card(CardSuit::HEARTS, 1));
    assert_eq!(lines.len(), 5);
    assert_eq!(lines[0], "┌─────┐");
    assert_eq!(lines[1], "|A    |");
    assert_eq!(lines[2], "| \"♥\" |");
    assert_eq!(lines[3], "|    A|");
    assert_eq!(lines[4], "└─────┘");
}

#[test]
fn card_face_shows_two_digit_rank() {
    let lines = display_card_visual(&card(CardSuit::SPADES, 10));
    assert_eq!(lines[1], "|10   |");
    assert_eq!(lines[2], "| \"♠\" |");
    assert_eq!(lines[3], "|   10|");
}
