//! Integer-valued pieces of the tabular Q-learning agent.
//!
//! The agent keeps a dense table of action-values indexed by a state
//! code and an action index.  The action-value arithmetic itself is
//! floating point and lives with the driver outside this library; here
//! are the exactly-specified integer parts: the state encoding that
//! fixes the table's 1024-state geometry, the shape check a reloaded
//! table must pass, and the reward given for a finished hand.

use vstd::prelude::*;
use crate::game::GameResult;

verus! {

/// Number of distinct state codes the encoding below can produce.
pub const NUM_STATES: usize = 1024;

/// The two actions: hit is action 0, stand is action 1.
pub const NUM_ACTIONS: usize = 2;

/// Folds the player total and the dealer total into one table index:
/// `player + 32 * dealer`, which stays below 1024 for totals below 32.
pub fn encode_state(player_val: i32, dealer_val: i32) -> (state: usize)
    requires
        0 <= player_val < 32,
        0 <= dealer_val < 32,
    ensures
        state == player_val + dealer_val * 32,
        state < NUM_STATES,
{
    (player_val as usize) + (dealer_val as usize) * 32
}

/// Whether row lengths fit a table of `num_states` rows with
/// `num_actions` entries each.
pub open spec fn spec_table_shape_ok(
    row_lens: Seq<usize>,
    num_states: usize,
    num_actions: usize,
) -> bool {
    row_lens.len() == num_states && forall|i: int|
        0 <= i < row_lens.len() ==> row_lens[i] == num_actions
}

/// Checks that a table read back from storage has exactly the declared
/// shape: one row per state and one entry per action in every row.
pub fn check_table_shape(row_lens: &Vec<usize>, num_states: usize, num_actions: usize) -> (ok:
    bool)
    ensures
        ok == spec_table_shape_ok(row_lens@, num_states, num_actions),
{
    if row_lens.len() != num_states {
        return false;
    }
    let mut i: usize = 0;
    while i < row_lens.len()
        invariant
            0 <= i <= row_lens@.len(),
            row_lens@.len() == num_states,
            forall|k: int| 0 <= k < i ==> row_lens@[k] == num_actions,
        decreases row_lens@.len() - i,
    {
        if row_lens[i] != num_actions {
            return false;
        }
        i = i + 1;
    }
    true
}

/// The exploitation step of epsilon-greedy selection: the first index
/// holding the row's maximum, so that ties break toward the lower
/// action index.  The caller hands the row's action-values as keys
/// whose integer order is the intended order of the values.
pub fn greedy_action(values: &Vec<u64>) -> (best: usize)
    requires
        values@.len() > 0,
    ensures
        best < values@.len(),
        forall|k: int| 0 <= k < values@.len() ==> values@[k] <= values@[best as int],
        forall|k: int| 0 <= k < best ==> values@[k] < values@[best as int],
{
    let mut best: usize = 0;
    let mut i: usize = 1;
    while i < values.len()
        invariant
            0 <= best < i <= values@.len(),
            forall|k: int| 0 <= k < i ==> values@[k] <= values@[best as int],
            forall|k: int| 0 <= k < best ==> values@[k] < values@[best as int],
        decreases values@.len() - i,
    {
        if values[i] > values[best] {
            best = i;
        }
        i = i + 1;
    }
    best
}

/// The reward the training driver hands back for one finished hand.
pub open spec fn spec_reward(result: GameResult) -> int {
    match result {
        GameResult::WIN => 10,
        GameResult::LOSE => -1,
        GameResult::TIE => -1,
    }
}

/// Reward shaping: a win earns 10 points, a loss or a tie costs 1.
pub fn reward_points(result: GameResult) -> (r: i32)
    ensures
        r == spec_reward(result),
{
    match result {
        GameResult::WIN => 10,
        GameResult::LOSE => -1,
        GameResult::TIE => -1,
    }
}

} // verus!
