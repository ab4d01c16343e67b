//! A verified blackjack environment with a tabular Q-learning companion.
//!
//! The library pairs a rule-complete one-hand blackjack simulator (deck
//! construction, dealing, hand scoring, dealer automation and result
//! resolution) with the integer-valued pieces of a Q-learning agent
//! (state encoding, greedy action selection over order keys, table-shape
//! validation and reward shaping).  The agent's action-value arithmetic
//! itself is floating point and lives with the driver outside this
//! library.

pub mod agent;
pub mod cards;
pub mod game;
pub mod hand;
pub mod render;
