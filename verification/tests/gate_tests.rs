use cln_feeder::gate::{epoch_gate, evaluation_anchor};

#[test]
fn no_history_always_proceeds() {
    assert!(epoch_gate(None, 0, 1));
    assert!(epoch_gate(None, -5_000, 3_600));
    assert!(epoch_gate(None, i64::MAX, i64::MAX));
}

#[test]
fn gate_skips_while_epoch_is_open() {
    // prior sample at 1000, epoch length 100 seconds
    assert!(!epoch_gate(Some(1000), 1000, 100));
    assert!(!epoch_gate(Some(1000), 1099, 100));
    // at exactly prior + epoch_length the epoch has run its full length
    assert!(epoch_gate(Some(1000), 1100, 100));
    assert!(epoch_gate(Some(1000), 1101, 100));
    assert!(epoch_gate(Some(1000), 5000, 100));
}

#[test]
fn gate_handles_extreme_timestamps() {
    assert!(epoch_gate(Some(i64::MIN), i64::MAX, 1));
    assert!(!epoch_gate(Some(i64::MAX), i64::MIN, i64::MAX));
}

#[test]
fn anchor_is_prior_timestamp_when_proceeding() {
    assert_eq!(evaluation_anchor(Some(500), 1000, 100), Some(500));
    assert_eq!(evaluation_anchor(Some(899), 1000, 100), Some(899));
    // boundary: the epoch that started at 900 has run its full length at 1000
    assert_eq!(evaluation_anchor(Some(900), 1000, 100), Some(900));
}

#[test]
fn anchor_is_one_epoch_back_without_history() {
    assert_eq!(evaluation_anchor(None, 1000, 100), Some(900));
}

#[test]
fn anchor_is_none_while_epoch_is_open() {
    assert_eq!(evaluation_anchor(Some(950), 1000, 100), None);
    assert_eq!(evaluation_anchor(Some(901), 1000, 100), None);
}
