use blackjack_rl::agent::{
    check_table_shape, encode_state, greedy_action, reward_points, NUM_ACTIONS, NUM_STATES,
};
use blackjack_rl::game::{play_game, FixedStrategyPolicy, GameResult};

#[test]
fn state_encoding_is_player_plus_32_times_dealer() {
    assert_eq!(encode_state(0, 0), 0);
    assert_eq!(encode_state(5, 10), 5 + 10 * 32);
    assert_eq!(encode_state(21, 11), 21 + 11 * 32);
    assert_eq!(encode_state(31, 31), 1023);
}

#[test]
fn state_encoding_stays_within_the_table() {
    for p in 0..32 {
        for d in 0..32 {
            assert!(encode_state(p, d) < NUM_STATES);
        }
    }
}

#[test]
fn reward_is_ten_for_a_win_and_minus_one_otherwise() {
    assert_eq!(reward_points(GameResult::WIN), 10);
    assert_eq!(reward_points(GameResult::LOSE), -1);
    assert_eq!(reward_points(GameResult::TIE), -1);
}

#[test]
fn table_shape_accepts_the_declared_grid() {
    let rows = vec![NUM_ACTIONS; NUM_STATES];
    assert!(check_table_shape(&rows, NUM_STATES, NUM_ACTIONS));
}

#[test]
fn table_shape_rejects_missing_rows() {
    let rows = vec![NUM_ACTIONS; NUM_STATES - 1];
    assert!(!check_table_shape(&rows, NUM_STATES, NUM_ACTIONS));
}

#[test]
fn table_shape_rejects_a_short_row() {
    let mut rows = vec![NUM_ACTIONS; NUM_STATES];
    rows[17] = NUM_ACTIONS - 1;
    assert!(!check_table_shape(&rows, NUM_STATES, NUM_ACTIONS));
}

#[test]
fn table_shape_rejects_extra_rows() {
    let rows = vec![NUM_ACTIONS; NUM_STATES + 3];
    assert!(!check_table_shape(&rows, NUM_STATES, NUM_ACTIONS));
}

#[test]
fn table_shape_accepts_an_empty_table_of_no_states() {
    let rows: Vec<usize> = Vec::new();
    assert!(check_table_shape(&rows, 0, NUM_ACTIONS));
}

#[test]
fn greedy_action_takes_the_maximum() {
    assert_eq!(greedy_action(&vec![4]), 0);
    assert_eq!(greedy_action(&vec![2, 9]), 1);
    assert_eq!(greedy_action(&vec![9, 2]), 0);
    assert_eq!(greedy_action(&vec![1, 5, 8, 3]), 2);
}

#[test]
fn greedy_action_breaks_ties_toward_the_first_maximum() {
    assert_eq!(greedy_action(&vec![3, 7, 7, 2]), 1);
    assert_eq!(greedy_action(&vec![5, 5]), 0);
}

#[test]
fn fixed_strategy_player_always_reaches_seventeen() {
    for _ in 0..25 {
        let done = play_game(&mut FixedStrategyPolicy {});
        assert!(done.outcome.player_total >= 17);
        if done.outcome.player_total > 21 {
            assert_eq!(done.outcome.result, GameResult::LOSE);
        }
    }
}
