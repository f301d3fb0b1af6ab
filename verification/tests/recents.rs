//! Recent-transition projections: newest first, clipped counts, the day
//! bound, and the empty cases.

use timetracker::handlers::{fetch_recent_states, FetchRecentsRequest};
use timetracker::store::EventStore;

fn temp_db() -> sled::Db {
    sled::Config::new().temporary(true).open().unwrap()
}

#[test]
fn empty_log_yields_an_empty_projection() {
    let db = temp_db();
    let store = EventStore::open(&db).unwrap();
    let v = fetch_recent_states(
        &store,
        FetchRecentsRequest {
            count: None,
            days: None,
        },
        1_000_000,
    )
    .unwrap();
    assert!(v.is_empty());
}

#[test]
fn zero_count_yields_an_empty_projection() {
    let db = temp_db();
    let mut store = EventStore::open(&db).unwrap();
    store.append(1, 1_000, 1_000, false).unwrap();
    let v = store.recent(0, 0).unwrap();
    assert!(v.is_empty());
    let w = fetch_recent_states(
        &store,
        FetchRecentsRequest {
            count: Some(0),
            days: Some(30),
        },
        2_000,
    )
    .unwrap();
    assert!(w.is_empty());
}

#[test]
fn newest_first_and_clipped_to_count() {
    let db = temp_db();
    let mut store = EventStore::open(&db).unwrap();
    store.append(0, 1_000, 1_000, false).unwrap();
    store.append(1, 2_000, 2_000, false).unwrap();
    store.append(2, 3_000, 3_000, false).unwrap();
    let two = store.recent(2, 0).unwrap();
    assert_eq!(two.len(), 2);
    assert_eq!((two[0].index, two[0].state, two[0].start_timestamp_ms), (2, 2, 3_000));
    assert_eq!((two[1].index, two[1].state, two[1].start_timestamp_ms), (1, 1, 2_000));
    let all = store.recent(10, 0).unwrap();
    assert_eq!(all.len(), 3);
    assert_eq!(all[2].index, 0);
}

#[test]
fn scan_stops_at_the_first_entry_older_than_the_bound() {
    let db = temp_db();
    let mut store = EventStore::open(&db).unwrap();
    store.append(0, 1_000, 1_000, false).unwrap();
    store.append(1, 2_000, 2_000, false).unwrap();
    store.append(2, 3_000, 3_000, false).unwrap();
    let v = store.recent(10, 2_500).unwrap();
    assert_eq!(v.len(), 1);
    assert_eq!(v[0].start_timestamp_ms, 3_000);
    let w = store.recent(10, 2_000).unwrap();
    assert_eq!(w.len(), 2);
    assert_eq!(w[0].start_timestamp_ms, 3_000);
    assert_eq!(w[1].start_timestamp_ms, 2_000);
}

#[test]
fn day_bound_through_the_handler() {
    let db = temp_db();
    let mut store = EventStore::open(&db).unwrap();
    let now: i64 = 100 * 86_400_000;
    let old_ts = now - 40 * 86_400_000;
    let new_ts = now - 10 * 86_400_000;
    store.append(0, old_ts, old_ts, false).unwrap();
    store.append(1, new_ts, new_ts, false).unwrap();
    let v = fetch_recent_states(
        &store,
        FetchRecentsRequest {
            count: None,
            days: None,
        },
        now,
    )
    .unwrap();
    assert_eq!(v.len(), 1);
    assert_eq!(v[0].state, 1);
    let w = fetch_recent_states(
        &store,
        FetchRecentsRequest {
            count: None,
            days: Some(50),
        },
        now,
    )
    .unwrap();
    assert_eq!(w.len(), 2);
}
