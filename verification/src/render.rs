//! Text-art rendering of a single card.
//!
//! Produces the five text lines of one card face; composing lines of
//! several cards and printing them is the caller's affair.

use vstd::prelude::*;
use crate::cards::{Card, CardSuit, valid_card};

verus! {

/// The rank label shown on a card face: `A` for Aces, `J`, `Q`, `K`
/// for the face cards, the digits otherwise.
fn value_labels(value: i32) -> (labels: (&'static str, &'static str))
    requires
        1 <= value <= 13,
{
    match value {
        1 => ("|A    |", "|    A|"),
        2 => ("|2    |", "|    2|"),
        3 => ("|3    |", "|    3|"),
        4 => ("|4    |", "|    4|"),
        5 => ("|5    |", "|    5|"),
        6 => ("|6    |", "|    6|"),
        7 => ("|7    |", "|    7|"),
        8 => ("|8    |", "|    8|"),
        9 => ("|9    |", "|    9|"),
        10 => ("|10   |", "|   10|"),
        11 => ("|J    |", "|    J|"),
        12 => ("|Q    |", "|    Q|"),
        _ => ("|K    |", "|    K|"),
    }
}

/// The five text lines of one card face, top to bottom: frame, rank,
/// suit, rank right-aligned, frame.
pub fn display_card_visual(card: &Card) -> (lines: Vec<String>)
    requires
        valid_card(*card),
    ensures
        lines@.len() == 5,
{
    let suit_line = match card.suit {
        CardSuit::HEARTS => "| \"♥\" |",
        CardSuit::DIAMONDS => "| \"♦\" |",
        CardSuit::CLUBS => "| \"♣\" |",
        CardSuit::SPADES => "| \"♠\" |",
    };
    let (top_value, bottom_value) = value_labels(card.value);

    let mut lines: Vec<String> = Vec::new();
    lines.push("┌─────┐".to_owned());
    lines.push(top_value.to_owned());
    lines.push(suit_line.to_owned());
    lines.push(bottom_value.to_owned());
    lines.push("└─────┘".to_owned());
    lines
}

} // verus!
