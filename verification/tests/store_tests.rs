use cln_feeder::store::{SampleStore, StoreError};

#[test]
fn append_then_query() {
    let mut store = SampleStore::new();
    let id = String::from("103x2x1");
    assert_eq!(store.append(&id, 500, 7, 100), Ok(()));
    let recent = store.recent(&id, 10);
    assert_eq!(recent, vec![(100, 500, 7)]);
}

#[test]
fn duplicate_key_fails_and_never_overwrites() {
    let mut store = SampleStore::new();
    let id = String::from("103x2x1");
    assert_eq!(store.append(&id, 500, 7, 100), Ok(()));
    // same (channel, timestamp) key with different values: rejected
    assert_eq!(store.append(&id, 450, 9, 100), Err(StoreError::DuplicateKey));
    // the stored sample kept its original values
    assert_eq!(store.recent(&id, 10), vec![(100, 500, 7)]);
    // a later timestamp for the same channel is fine
    assert_eq!(store.append(&id, 450, 9, 101), Ok(()));
    assert_eq!(store.recent(&id, 10), vec![(101, 450, 9), (100, 500, 7)]);
}

#[test]
fn recent_is_most_recent_first_and_bounded() {
    let mut store = SampleStore::new();
    let id = String::from("103x2x1");
    // appended out of order; queries still come back newest first
    assert_eq!(store.append(&id, 500, 1, 100), Ok(()));
    assert_eq!(store.append(&id, 520, 3, 300), Ok(()));
    assert_eq!(store.append(&id, 510, 2, 200), Ok(()));
    assert_eq!(
        store.recent(&id, 10),
        vec![(300, 520, 3), (200, 510, 2), (100, 500, 1)]
    );
    assert_eq!(store.recent(&id, 2), vec![(300, 520, 3), (200, 510, 2)]);
    assert_eq!(store.recent(&id, 0), vec![]);
}

#[test]
fn channels_are_independent() {
    let mut store = SampleStore::new();
    let a = String::from("103x2x1");
    let b = String::from("207x1x0");
    assert_eq!(store.append(&a, 500, 7, 100), Ok(()));
    // the same timestamp under another channel id is a different key
    assert_eq!(store.append(&b, 900, 11, 100), Ok(()));
    assert_eq!(store.recent(&a, 10), vec![(100, 500, 7)]);
    assert_eq!(store.recent(&b, 10), vec![(100, 900, 11)]);
    assert_eq!(store.append(&b, 950, 13, 200), Ok(()));
    assert_eq!(store.recent(&a, 10), vec![(100, 500, 7)]);
}

#[test]
fn unknown_channel_has_no_history() {
    let store = SampleStore::new();
    let id = String::from("103x2x1");
    assert_eq!(store.recent(&id, 10), vec![]);
}
