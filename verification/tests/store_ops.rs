//! Store operations against a temporary on-disk database: append, get,
//! update, length, and the administrative length override.

use timetracker::handlers::{
    add_entry, fetch_length, force_set_length, get_curr_state, get_entry, update_entry,
    AddEntryRequest, ForceSetLengthRequest, UpdateEntryRequest,
};
use timetracker::store::EventStore;
use timetracker::TrackerError;

fn temp_db() -> sled::Db {
    sled::Config::new().temporary(true).open().unwrap()
}

#[test]
fn append_then_get_returns_exactly_what_was_appended() {
    let db = temp_db();
    let mut store = EventStore::open(&db).unwrap();
    let idx = store.append(7, 999_000, 1_000_000, false).unwrap();
    assert_eq!(idx, 0);
    let e = store.get(0).unwrap();
    assert_eq!(e.index, 0);
    assert_eq!(e.state, 7);
    assert_eq!(e.start_timestamp_ms, 999_000);
}

#[test]
fn append_negative_timestamp_round_trips() {
    let db = temp_db();
    let mut store = EventStore::open(&db).unwrap();
    store.append(3, -5_000, -5_000, false).unwrap();
    let e = store.get(0).unwrap();
    assert_eq!(e.state, 3);
    assert_eq!(e.start_timestamp_ms, -5_000);
}

#[test]
fn fresh_store_has_length_zero_and_idle_state() {
    let db = temp_db();
    let store = EventStore::open(&db).unwrap();
    assert_eq!(fetch_length(&store).unwrap(), 0);
    assert_eq!(get_curr_state(&store).unwrap(), u8::MAX);
}

#[test]
fn duplicate_state_is_rejected() {
    let db = temp_db();
    let mut store = EventStore::open(&db).unwrap();
    store.append(1, 1_000, 1_000, false).unwrap();
    let r = store.append(1, 1_100, 1_100, false);
    assert_eq!(r, Err(TrackerError::DuplicateState));
    assert_eq!(fetch_length(&store).unwrap(), 1);
}

#[test]
fn duplicate_state_is_rejected_regardless_of_timestamp() {
    let db = temp_db();
    let mut store = EventStore::open(&db).unwrap();
    store.append(1, 1_000, 1_000, false).unwrap();
    assert_eq!(
        store.append(1, 500_000, 1_000, false),
        Err(TrackerError::DuplicateState)
    );
    assert_eq!(
        store.append(1, 500, 1_000_000, false),
        Err(TrackerError::DuplicateState)
    );
}

#[test]
fn timestamp_regression_is_rejected_regardless_of_window() {
    let db = temp_db();
    let mut store = EventStore::open(&db).unwrap();
    store.append(1, 1_000_000, 1_000_000, false).unwrap();
    assert_eq!(
        store.append(2, 500, 2_000_000, false),
        Err(TrackerError::TimestampRegression)
    );
}

#[test]
fn timestamp_regression_is_rejected() {
    let db = temp_db();
    let mut store = EventStore::open(&db).unwrap();
    store.append(1, 1_000, 1_000, false).unwrap();
    let r = store.append(2, 500, 1_000, false);
    assert_eq!(r, Err(TrackerError::TimestampRegression));
}

#[test]
fn timestamp_outside_window_is_rejected_unless_forced() {
    let db = temp_db();
    let mut store = EventStore::open(&db).unwrap();
    let now = 100_000;
    assert_eq!(
        store.append(1, 500, now, false),
        Err(TrackerError::TimestampOutOfWindow)
    );
    assert_eq!(
        store.append(1, now + 1, now, false),
        Err(TrackerError::TimestampOutOfWindow)
    );
    assert_eq!(store.append(1, now - 5_000, now, false), Ok(0));
    assert_eq!(store.append(2, 500_000, now, true), Ok(1));
}

#[test]
fn get_out_of_range_is_not_found() {
    let db = temp_db();
    let mut store = EventStore::open(&db).unwrap();
    assert_eq!(store.get(0), Err(TrackerError::NotFound));
    store.append(1, 1_000, 1_000, false).unwrap();
    assert_eq!(store.get(5), Err(TrackerError::NotFound));
    let resp = get_entry(&store, 3);
    assert!(matches!(resp, Err(TrackerError::NotFound)));
}

#[test]
fn update_without_fields_is_no_change() {
    let db = temp_db();
    let mut store = EventStore::open(&db).unwrap();
    assert_eq!(
        store.update(0, None, None),
        Err(TrackerError::NotFound)
    );
    store.append(1, 1_000, 1_000, false).unwrap();
    assert_eq!(
        store.update(0, None, None),
        Err(TrackerError::NoChange)
    );
}

#[test]
fn update_validates_against_neighbours() {
    let db = temp_db();
    let mut store = EventStore::open(&db).unwrap();
    store.append(0, 1_000, 1_000, false).unwrap();
    store.append(1, 2_000, 2_000, false).unwrap();
    store.append(2, 3_000, 3_000, false).unwrap();
    assert_eq!(
        store.update(1, None, Some(500)),
        Err(TrackerError::TimestampRegression)
    );
    assert_eq!(
        store.update(1, None, Some(3_500)),
        Err(TrackerError::TimestampOutOfOrder)
    );
    let e = store.update(1, Some(9), Some(2_500)).unwrap();
    assert_eq!(e.index, 1);
    assert_eq!(e.state, 9);
    assert_eq!(e.start_timestamp_ms, 2_500);
    let back = store.get(1).unwrap();
    assert_eq!(back.state, 9);
    assert_eq!(back.start_timestamp_ms, 2_500);
}

#[test]
fn update_keeps_omitted_fields() {
    let db = temp_db();
    let mut store = EventStore::open(&db).unwrap();
    store.append(4, 1_000, 1_000, false).unwrap();
    let resp = update_entry(
        &mut store,
        0,
        UpdateEntryRequest {
            new_state: Some(5),
            start_timestamp: None,
        },
    )
    .unwrap();
    assert_eq!(resp.entry_idx, 0);
    assert_eq!(resp.new_state, 5);
    assert_eq!(resp.start_timestamp, 1_000);
}

#[test]
fn add_entry_handler_reports_assigned_index() {
    let db = temp_db();
    let mut store = EventStore::open(&db).unwrap();
    let resp = add_entry(
        &mut store,
        AddEntryRequest {
            new_state: 2,
            start_timestamp: 1_000,
            force: None,
        },
        1_000,
    )
    .unwrap();
    assert_eq!(resp.entry_idx, 0);
    assert_eq!(resp.new_state, 2);
    assert_eq!(resp.start_timestamp, 1_000);
    let e = get_entry(&store, 0).unwrap();
    assert_eq!(e.new_state, 2);
    assert_eq!(e.start_timestamp, 1_000);
}

#[test]
fn force_set_length_truncates() {
    let db = temp_db();
    let mut store = EventStore::open(&db).unwrap();
    store.append(0, 1_000, 1_000, false).unwrap();
    store.append(1, 2_000, 2_000, false).unwrap();
    let n = force_set_length(&mut store, ForceSetLengthRequest { new_length: 1 }).unwrap();
    assert_eq!(n, 1);
    assert_eq!(fetch_length(&store).unwrap(), 1);
    assert_eq!(store.get(1), Err(TrackerError::NotFound));
    assert_eq!(get_curr_state(&store).unwrap(), 0);
    assert_eq!(store.append(1, 3_000, 3_000, false), Ok(1));
}

#[test]
fn force_set_length_past_the_records_reads_as_storage_failure() {
    let db = temp_db();
    let mut store = EventStore::open(&db).unwrap();
    store.append(0, 1_000, 1_000, false).unwrap();
    store.set_length(5).unwrap();
    assert_eq!(fetch_length(&store).unwrap(), 5);
    assert_eq!(store.get(3), Err(TrackerError::StorageFailure));
}

#[test]
fn length_survives_reopen() {
    let db = temp_db();
    {
        let mut store = EventStore::open(&db).unwrap();
        store.append(1, 1_000, 1_000, false).unwrap();
        store.append(2, 2_000, 2_000, false).unwrap();
    }
    let store = EventStore::open(&db).unwrap();
    assert_eq!(fetch_length(&store).unwrap(), 2);
    let e = store.get(1).unwrap();
    assert_eq!(e.state, 2);
    assert_eq!(e.start_timestamp_ms, 2_000);
}
