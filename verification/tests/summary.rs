//! Window aggregation scenarios: splitting a window between states, the
//! carry state, the empty log, and the full-lifetime total.

use timetracker::config::STATE_COUNT;
use timetracker::handlers::{fetch_summary_data, FetchSummaryDataRequest};
use timetracker::store::EventStore;
use timetracker::TrackerError;

fn temp_db() -> sled::Db {
    sled::Config::new().temporary(true).open().unwrap()
}

#[test]
fn empty_log_aggregates_to_all_zero() {
    let db = temp_db();
    let store = EventStore::open(&db).unwrap();
    let v = fetch_summary_data(&store, FetchSummaryDataRequest { days: None }, 1_000_000).unwrap();
    assert_eq!(v.len(), STATE_COUNT);
    assert!(v.iter().all(|d| *d == 0));
}

#[test]
fn window_split_between_two_states() {
    let db = temp_db();
    let mut store = EventStore::open(&db).unwrap();
    let t0: i64 = 1_700_000_000_000;
    store.append(0, t0, t0, false).unwrap();
    store.append(1, t0 + 3_600_000, t0 + 3_600_000, false).unwrap();
    let v = store.aggregate(t0, t0 + 7_200_000).unwrap();
    assert_eq!(v[0], 3_600_000);
    assert_eq!(v[1], 3_600_000);
    for (i, d) in v.iter().enumerate() {
        if i > 1 {
            assert_eq!(*d, 0);
        }
    }
}

#[test]
fn carry_state_owns_a_window_that_starts_after_it() {
    let db = temp_db();
    let mut store = EventStore::open(&db).unwrap();
    let t0: i64 = 1_700_000_000_000;
    store.append(7, t0, t0, false).unwrap();
    let v = store.aggregate(t0 + 1_000, t0 + 5_000).unwrap();
    assert_eq!(v[7], 4_000);
    for (i, d) in v.iter().enumerate() {
        if i != 7 {
            assert_eq!(*d, 0);
        }
    }
}

#[test]
fn full_lifetime_durations_sum_to_now_minus_first_timestamp() {
    let db = temp_db();
    let mut store = EventStore::open(&db).unwrap();
    let t0: i64 = 1_700_000_000_000;
    store.append(0, t0, t0, false).unwrap();
    store.append(1, t0 + 10_000, t0 + 10_000, false).unwrap();
    store.append(2, t0 + 50_000, t0 + 50_000, false).unwrap();
    let now = t0 + 100_000;
    let v = store.aggregate(t0, now).unwrap();
    let total: i64 = v.iter().sum();
    assert_eq!(total, now - t0);
    assert_eq!(v[0], 10_000);
    assert_eq!(v[1], 40_000);
    assert_eq!(v[2], 50_000);
}

#[test]
fn summary_handler_attributes_the_tail_to_the_last_state() {
    let db = temp_db();
    let mut store = EventStore::open(&db).unwrap();
    let now: i64 = 1_000_000_000;
    store.append(3, now - 1_000, now - 1_000, false).unwrap();
    let v = fetch_summary_data(&store, FetchSummaryDataRequest { days: Some(7) }, now).unwrap();
    assert_eq!(v[3], 1_000);
    for (i, d) in v.iter().enumerate() {
        if i != 3 {
            assert_eq!(*d, 0);
        }
    }
}

#[test]
fn pre_window_entry_carries_into_the_window() {
    let db = temp_db();
    let mut store = EventStore::open(&db).unwrap();
    let t0: i64 = 1_700_000_000_000;
    store.append(2, t0, t0, false).unwrap();
    store.append(5, t0 + 10_000, t0 + 10_000, false).unwrap();
    let v = store.aggregate(t0 + 5_000, t0 + 20_000).unwrap();
    assert_eq!(v[2], 5_000);
    assert_eq!(v[5], 10_000);
    let total: i64 = v.iter().sum();
    assert_eq!(total, 15_000);
}

#[test]
fn entry_past_the_window_end_is_reported() {
    let db = temp_db();
    let mut store = EventStore::open(&db).unwrap();
    let t0: i64 = 1_700_000_000_000;
    store.append(1, t0, t0, false).unwrap();
    let r = store.aggregate(t0 - 100, t0 - 50);
    assert_eq!(r, Err(TrackerError::TimestampOutOfWindow));
}

#[test]
fn aggregate_over_missing_records_is_a_storage_failure() {
    let db = temp_db();
    let mut store = EventStore::open(&db).unwrap();
    store.append(1, 1_000, 1_000, false).unwrap();
    store.set_length(4).unwrap();
    let r = fetch_summary_data(&store, FetchSummaryDataRequest { days: None }, 1_000_000);
    assert_eq!(r, Err(TrackerError::StorageFailure));
}
