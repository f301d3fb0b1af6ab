//! The operations the surrounding request layer calls, with the request
//! and response shapes it exchanges. Everything here works on plain values;
//! the caller owns deserialization, the clock read and rendering.

use crate::aggregate::spec_aggregate;
use crate::config::{spec_state_valid, STATE_COUNT};
use crate::entry::Entry;
use crate::errors::TrackerError;
use crate::recent::spec_recent;
use crate::store::EventStore;
use crate::validate::{spec_append_verdict, spec_update_verdict, spec_updated_entry};
use vstd::prelude::*;

verus! {

/// Milliseconds in one day.
pub const DAY_MS: i64 = 86400000;

/// How many days a summary covers when the request names none.
pub const DEFAULT_SUMMARY_DAYS: u32 = 7;

/// How many entries and days a recents query covers when the request
/// names none.
pub const DEFAULT_RECENTS_COUNT: u64 = 300;

pub const DEFAULT_RECENTS_DAYS: u32 = 30;

/// A request to append one transition.
pub struct AddEntryRequest {
    pub new_state: u8,
    pub start_timestamp: i64,
    pub force: Option<bool>,
}

pub struct AddEntryResponse {
    pub entry_idx: u64,
    pub new_state: u8,
    pub start_timestamp: i64,
}

/// Appends a transition at the tail of the log after validating it, and
/// reports the index it was assigned.
pub fn add_entry(store: &mut EventStore, payload: AddEntryRequest, now_ms: i64) -> (r: Result<
    AddEntryResponse,
    TrackerError,
>)
    requires
        old(store).len() < u64::MAX,
        spec_state_valid(payload.new_state),
    ensures
        r matches Ok(resp) ==> ({
            &&& spec_append_verdict(
                old(store).last_entry(),
                payload.new_state,
                payload.start_timestamp,
                now_ms,
                payload.force == Some(true),
            ) is None
            &&& resp.entry_idx == old(store).len()
            &&& resp.new_state == payload.new_state
            &&& resp.start_timestamp == payload.start_timestamp
            &&& final(store).log() == old(store).log().push(
                Entry {
                    index: old(store).len(),
                    state: payload.new_state,
                    start_timestamp_ms: payload.start_timestamp,
                },
            )
        }),
        r matches Err(e) ==> ({
            &&& (e != TrackerError::StorageFailure ==> spec_append_verdict(
                old(store).last_entry(),
                payload.new_state,
                payload.start_timestamp,
                now_ms,
                payload.force == Some(true),
            ) == Some(e) && final(store).log() == old(store).log() && final(store).len() == old(
                store,
            ).len())
            &&& (e == TrackerError::StorageFailure ==> ({
                ||| (final(store).log() == old(store).log() && final(store).len() == old(
                    store,
                ).len())
                ||| (final(store).log() == old(store).log().push(
                    Entry {
                        index: old(store).len(),
                        state: payload.new_state,
                        start_timestamp_ms: payload.start_timestamp,
                    },
                ) && final(store).len() == old(store).len() + 1)
            }))
        }),
{
    let force = match payload.force {
        Some(true) => true,
        _ => false,
    };
    match store.append(payload.new_state, payload.start_timestamp, now_ms, force) {
        Ok(idx) => Ok(
            AddEntryResponse {
                entry_idx: idx,
                new_state: payload.new_state,
                start_timestamp: payload.start_timestamp,
            },
        ),
        Err(e) => Err(e),
    }
}

/// A request to amend one stored transition; fields left `None` keep
/// their stored value.
pub struct UpdateEntryRequest {
    pub new_state: Option<u8>,
    pub start_timestamp: Option<i64>,
}

pub struct UpdateEntryResponse {
    pub entry_idx: u64,
    pub new_state: u8,
    pub start_timestamp: i64,
}

/// Amends the entry at `entry_idx` after revalidating its timestamp
/// against its neighbours, and reports the committed fields.
pub fn update_entry(store: &mut EventStore, entry_idx: u64, payload: UpdateEntryRequest) -> (r:
    Result<UpdateEntryResponse, TrackerError>)
    requires
        payload.new_state matches Some(s) ==> spec_state_valid(s),
    ensures
        r matches Ok(resp) ==> ({
            let e = spec_updated_entry(
                old(store).log(),
                entry_idx,
                payload.new_state,
                payload.start_timestamp,
            );
            &&& spec_update_verdict(
                old(store).log(),
                entry_idx,
                payload.new_state,
                payload.start_timestamp,
            ) is None
            &&& resp.entry_idx == entry_idx
            &&& resp.new_state == e.state
            &&& resp.start_timestamp == e.start_timestamp_ms
            &&& final(store).log() == old(store).log().update(entry_idx as int, e)
        }),
        r matches Err(e) ==> ({
            &&& (e != TrackerError::StorageFailure ==> spec_update_verdict(
                old(store).log(),
                entry_idx,
                payload.new_state,
                payload.start_timestamp,
            ) == Some(e) && final(store).log() == old(store).log() && final(store).len() == old(
                store,
            ).len())
            &&& (e == TrackerError::StorageFailure ==> final(store).len() == old(store).len() && ({
                ||| final(store).log() == old(store).log()
                ||| final(store).log() == old(store).log().update(
                    entry_idx as int,
                    spec_updated_entry(
                        old(store).log(),
                        entry_idx,
                        payload.new_state,
                        payload.start_timestamp,
                    ),
                )
            }))
        }),
{
    match store.update(entry_idx, payload.new_state, payload.start_timestamp) {
        Ok(e) => Ok(
            UpdateEntryResponse {
                entry_idx: e.index,
                new_state: e.state,
                start_timestamp: e.start_timestamp_ms,
            },
        ),
        Err(e) => Err(e),
    }
}

pub struct GetEntryResponse {
    pub entry_idx: u64,
    pub new_state: u8,
    pub start_timestamp: i64,
}

/// Reads the entry at `entry_idx`; `NotFound` exactly when the index is at
/// or past the current length.
pub fn get_entry(store: &EventStore, entry_idx: u64) -> (r: Result<GetEntryResponse, TrackerError>)
    ensures
        match r {
            Ok(resp) => entry_idx < store.len() && resp.entry_idx == entry_idx && resp.new_state
                == store.log()[entry_idx as int].state && resp.start_timestamp == store.log().index(
                entry_idx as int,
            ).start_timestamp_ms,
            Err(TrackerError::NotFound) => entry_idx >= store.len(),
            Err(TrackerError::StorageFailure) => true,
            Err(_) => false,
        },
{
    proof {
        crate::store::lemma_log_shape(*store);
    }
    match store.get(entry_idx) {
        Ok(e) => Ok(
            GetEntryResponse {
                entry_idx: e.index,
                new_state: e.state,
                start_timestamp: e.start_timestamp_ms,
            },
        ),
        Err(e) => Err(e),
    }
}

/// A summary request; `days` defaults to a week.
pub struct FetchSummaryDataRequest {
    pub days: Option<u32>,
}

/// The number of days a summary request asks for.
pub open spec fn spec_summary_days(params: FetchSummaryDataRequest) -> u32 {
    match params.days {
        Some(d) => d,
        None => DEFAULT_SUMMARY_DAYS,
    }
}

/// Sums, per state, the time spent over the trailing window of the
/// requested number of days, ending now.
pub fn fetch_summary_data(store: &EventStore, params: FetchSummaryDataRequest, now_ms: i64) -> (r:
    Result<Vec<i64>, TrackerError>)
    requires
        now_ms - spec_summary_days(params) as int * DAY_MS >= i64::MIN,
    ensures
        r matches Ok(v) ==> ({
            &&& v@.len() == STATE_COUNT
            &&& v@.map_values(|d: i64| d as int) == spec_aggregate(
                store.log(),
                now_ms - spec_summary_days(params) as int * DAY_MS,
                now_ms as int,
            )
            &&& crate::entry::spec_timestamps_monotonic(store.log())
            &&& crate::entry::spec_states_valid(store.log())
        }),
        r matches Err(e) ==> e == TrackerError::StorageFailure || (e
            == TrackerError::TimestampOutOfWindow && store.log().len() > 0
            && store.log().last().start_timestamp_ms > now_ms),
{
    let days = match params.days {
        Some(d) => d,
        None => DEFAULT_SUMMARY_DAYS,
    };
    let range_start = now_ms - (days as i64) * DAY_MS;
    store.aggregate(range_start, now_ms)
}

/// Reports the number of committed entries.
pub fn fetch_length(store: &EventStore) -> (r: Result<u64, TrackerError>)
    ensures
        r matches Ok(n) ==> n == store.len(),
        r matches Err(e) ==> e == TrackerError::StorageFailure,
{
    store.length()
}

/// An administrative request to overwrite the length counter.
pub struct ForceSetLengthRequest {
    pub new_length: u64,
}

/// Overwrites the length counter with no validation against the stored
/// entries; an escape hatch.
pub fn force_set_length(store: &mut EventStore, payload: ForceSetLengthRequest) -> (r: Result<
    u64,
    TrackerError,
>)
    ensures
        r matches Ok(n) ==> n == payload.new_length && final(store).len() == payload.new_length
            && final(store).events_map() == old(store).events_map(),
        r is Ok && payload.new_length <= old(store).len() ==> final(store).log() == old(
            store,
        ).log().subrange(0, payload.new_length as int),
        r matches Err(e) ==> e == TrackerError::StorageFailure && final(store).events_map() == old(
            store,
        ).events_map() && (final(store).len() == old(store).len() || final(store).len()
            == payload.new_length),
{
    store.set_length(payload.new_length)
}

/// A recents query; `count` and `days` have large defaults.
pub struct FetchRecentsRequest {
    pub count: Option<u64>,
    pub days: Option<u32>,
}

/// The entry limit a recents query asks for.
pub open spec fn spec_recents_count(params: FetchRecentsRequest) -> u64 {
    match params.count {
        Some(c) => c,
        None => DEFAULT_RECENTS_COUNT,
    }
}

/// The day bound a recents query asks for.
pub open spec fn spec_recents_days(params: FetchRecentsRequest) -> u32 {
    match params.days {
        Some(d) => d,
        None => DEFAULT_RECENTS_DAYS,
    }
}

/// Returns the newest transitions within the requested count and day
/// bound, newest first; an empty log or a zero count yields an empty
/// sequence, never an error.
pub fn fetch_recent_states(store: &EventStore, params: FetchRecentsRequest, now_ms: i64) -> (r:
    Result<Vec<Entry>, TrackerError>)
    requires
        now_ms - spec_recents_days(params) as int * DAY_MS >= i64::MIN,
    ensures
        r matches Ok(v) ==> v@ == spec_recent(
            store.log(),
            spec_recents_count(params) as nat,
            now_ms - spec_recents_days(params) as int * DAY_MS,
        ),
        spec_recents_count(params) == 0 ==> (r matches Ok(v) && v@.len() == 0),
        r matches Err(e) ==> e == TrackerError::StorageFailure,
{
    let count = match params.count {
        Some(c) => c,
        None => DEFAULT_RECENTS_COUNT,
    };
    let days = match params.days {
        Some(d) => d,
        None => DEFAULT_RECENTS_DAYS,
    };
    let range_start = now_ms - (days as i64) * DAY_MS;
    store.recent(count, range_start)
}

/// Reports the state of the newest entry, or `u8::MAX` when nothing has
/// been recorded.
pub fn get_curr_state(store: &EventStore) -> (r: Result<u8, TrackerError>)
    ensures
        r matches Ok(s) ==> s as int == (if store.len() == 0 {
            u8::MAX as int
        } else {
            store.log().last().state as int
        }),
        r matches Err(e) ==> e == TrackerError::StorageFailure,
{
    proof {
        crate::store::lemma_log_shape(*store);
    }
    let length = match store.length() {
        Ok(n) => n,
        Err(e) => {
            return Err(e);
        },
    };
    if length >= 1 {
        match store.get(length - 1) {
            Ok(e) => Ok(e.state),
            Err(_) => Err(TrackerError::StorageFailure),
        }
    } else {
        Ok(u8::MAX)
    }
}

} // verus!
