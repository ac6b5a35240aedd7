use cln_feeder::fees::NewFees;
use cln_feeder::window::{build_window, sum_msat};

#[test]
fn window_prepends_current_observation() {
    let history = vec![(300, 520, 3), (200, 510, 2), (100, 500, 1)];
    let window = build_window(530, 4, &history);
    assert_eq!(window, vec![(530, 4), (520, 3), (510, 2), (500, 1)]);
}

#[test]
fn window_of_empty_history_is_the_current_observation() {
    let window = build_window(500, 0, &Vec::new());
    assert_eq!(window, vec![(500, 0)]);
}

#[test]
fn window_feeds_the_decision_engine() {
    // two identical zero-revenue samples: halving rule applies
    let history = vec![(100, 500, 0)];
    let window = build_window(500, 0, &history);
    assert_eq!(NewFees::calculate(&window, 10), Some(250));
}

#[test]
fn revenue_sums_exactly() {
    assert_eq!(sum_msat(&vec![1, 2, 3]), 6);
    assert_eq!(sum_msat(&Vec::new()), 0);
}

#[test]
fn revenue_sum_saturates() {
    assert_eq!(sum_msat(&vec![u64::MAX, 5]), u64::MAX);
    assert_eq!(sum_msat(&vec![u64::MAX - 1, 1]), u64::MAX);
}
