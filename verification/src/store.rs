//! The append-only event store: an ordered, persistent log of state
//! transitions addressed by a dense index, plus a persisted length counter.
//!
//! Entries live in one keyspace under their little-endian index key; the
//! length counter lives in a second keyspace and is the single source of
//! truth for the log's size. The committed log is the sequence of decoded
//! records at indices `0 .. length`.

use crate::backend::{db_open_tree, tree_contents, tree_get, tree_insert};
use crate::codec::{
    decode_record, encode_record, index_key, len_key, lemma_index_key_injective,
    lemma_record_round_trip, spec_index_key, spec_len_key, spec_record_state, spec_record_ts,
};
use crate::aggregate::{aggregate_entries, is_monotonic, is_states_valid, spec_aggregate};
use crate::entry::{spec_states_valid, spec_timestamps_monotonic, Entry};
use crate::errors::TrackerError;
use crate::recent::{lemma_recent_unfold, spec_recent};
use crate::validate::{
    spec_append_verdict, spec_update_verdict, spec_updated_entry, validate_append,
};
use vstd::bytes::{
    lemma_auto_spec_u64_to_from_le_bytes, spec_u64_from_le_bytes, u64_from_le_bytes,
    u64_to_le_bytes,
};
use vstd::prelude::*;

verus! {

/// The persistent transition log. It exclusively owns its two keyspaces;
/// no other component holds a handle to them.
pub struct EventStore {
    events: sled::Tree,
    meta: sled::Tree,
}

impl EventStore {
    /// The map of stored entry records, keyed by encoded index.
    pub closed spec fn events_map(self) -> Map<Seq<u8>, Seq<u8>> {
        tree_contents(self.events)
    }

    /// The map holding the persisted length counter.
    pub closed spec fn meta_map(self) -> Map<Seq<u8>, Seq<u8>> {
        tree_contents(self.meta)
    }

    /// The committed length: the persisted counter, or zero where no
    /// well-formed counter has been written.
    pub closed spec fn len(self) -> u64 {
        if self.meta_map().contains_key(spec_len_key()) && self.meta_map()[spec_len_key()].len()
            == 8 {
            spec_u64_from_le_bytes(self.meta_map()[spec_len_key()])
        } else {
            0
        }
    }

    /// The entry the store holds at index `i`, as decoded from its record;
    /// a missing record reads as a zeroed entry, which reads report as a
    /// storage failure rather than return.
    pub closed spec fn entry_at(self, i: int) -> Entry {
        if self.events_map().contains_key(spec_index_key(i as u64)) {
            let bytes = self.events_map()[spec_index_key(i as u64)];
            Entry {
                index: i as u64,
                state: spec_record_state(bytes),
                start_timestamp_ms: spec_record_ts(bytes),
            }
        } else {
            Entry { index: i as u64, state: 0, start_timestamp_ms: 0 }
        }
    }

    /// The committed log: the entries at indices `0 .. len`.
    pub closed spec fn log(self) -> Seq<Entry> {
        Seq::new(self.len() as nat, |i: int| self.entry_at(i))
    }

    /// The current last entry, if the log is not empty.
    pub open spec fn last_entry(self) -> Option<Entry> {
        if self.log().len() == 0 {
            None
        } else {
            Some(self.log().last())
        }
    }

    /// Opens the store on a database: binds the two named keyspaces and
    /// materializes the length counter if it has never been written, so the
    /// counter exists after first access. Open at most one store per
    /// database: a second open would alias the same keyspaces behind this
    /// store's back, which the store's model assumes never happens.
    pub fn open(db: &sled::Db) -> (r: Result<EventStore, TrackerError>)
        ensures
            r matches Ok(s) ==> s.meta_map().contains_key(spec_len_key())
                && s.meta_map().index(spec_len_key()).len() == 8,
            r matches Err(e) ==> e == TrackerError::StorageFailure,
    {
        let events = match db_open_tree(db, "events") {
            Ok(t) => t,
            Err(e) => {
                return Err(e);
            },
        };
        let mut meta = match db_open_tree(db, "meta") {
            Ok(t) => t,
            Err(e) => {
                return Err(e);
            },
        };
        let key = len_key();
        let materialized = match tree_get(&meta, &key) {
            Ok(Some(v)) => v.len() == 8,
            Ok(None) => false,
            Err(e) => {
                return Err(e);
            },
        };
        if !materialized {
            let zero = u64_to_le_bytes(0);
            match tree_insert(&mut meta, &key, &zero) {
                Ok(()) => (),
                Err(e) => {
                    return Err(e);
                },
            }
        }
        Ok(EventStore { events, meta })
    }

    /// Returns the committed length; constant-time, straight from the
    /// persisted counter.
    pub fn length(&self) -> (r: Result<u64, TrackerError>)
        ensures
            r matches Ok(n) ==> n == self.len(),
            r matches Err(e) ==> e == TrackerError::StorageFailure,
    {
        let key = len_key();
        match tree_get(&self.meta, &key) {
            Ok(Some(v)) => {
                if v.len() == 8 {
                    Ok(u64_from_le_bytes(v.as_slice()))
                } else {
                    Ok(0)
                }
            },
            Ok(None) => Ok(0),
            Err(e) => Err(e),
        }
    }

    /// Administrative override of the length counter, with no validation
    /// against the stored entries: an escape hatch for full-log truncation,
    /// not a guaranteed-consistent operation.
    pub fn set_length(&mut self, new_length: u64) -> (r: Result<u64, TrackerError>)
        ensures
            r matches Ok(n) ==> n == new_length && final(self).len() == new_length
                && final(self).events_map() == old(self).events_map(),
            r is Ok && new_length <= old(self).len() ==> final(self).log()
                == old(self).log().subrange(0, new_length as int),
            r matches Err(e) ==> e == TrackerError::StorageFailure
                && final(self).events_map() == old(self).events_map()
                && (final(self).len() == old(self).len() || final(self).len() == new_length),
    {
        let key = len_key();
        let value = u64_to_le_bytes(new_length);
        proof {
            lemma_auto_spec_u64_to_from_le_bytes();
        }
        let r = tree_insert(&mut self.meta, &key, &value);
        proof {
            if r is Ok && new_length <= old(self).len() {
                assert(final(self).log() =~= old(self).log().subrange(0, new_length as int));
            }
        }
        match r {
            Ok(()) => Ok(new_length),
            Err(e) => Err(e),
        }
    }

    /// Appends a transition after validating it against the current last
    /// entry: the state must differ from the last state, the timestamp must
    /// not precede the last timestamp, and the timestamp must lie in the
    /// acceptance window around `now_ms` unless `force` is set — checked in
    /// that order, so a repeated state or a regressing timestamp is
    /// reported as such whatever the timestamp. On success the entry is
    /// stored under the next contiguous index and the length counter moves
    /// past it. If the persistence layer fails between the two writes, the
    /// committed log is unchanged: a record past the counter stays
    /// invisible until a later append overwrites it.
    pub fn append(&mut self, state: u8, start_timestamp_ms: i64, now_ms: i64, force: bool) -> (r:
        Result<u64, TrackerError>)
        requires
            old(self).len() < u64::MAX,
            crate::config::spec_state_valid(state),
        ensures
            r matches Ok(idx) ==> ({
                &&& spec_append_verdict(
                    old(self).last_entry(),
                    state,
                    start_timestamp_ms,
                    now_ms,
                    force,
                ) is None
                &&& idx == old(self).len()
                &&& final(self).len() == old(self).len() + 1
                &&& final(self).log() == old(self).log().push(
                    Entry { index: old(self).len(), state, start_timestamp_ms },
                )
            }),
            r matches Err(e) ==> (e != TrackerError::StorageFailure ==> ({
                &&& spec_append_verdict(
                    old(self).last_entry(),
                    state,
                    start_timestamp_ms,
                    now_ms,
                    force,
                ) == Some(e)
                &&& final(self).log() == old(self).log()
                &&& final(self).len() == old(self).len()
            })),
            r == Err::<u64, TrackerError>(TrackerError::StorageFailure) ==> ({
                ||| (final(self).log() == old(self).log() && final(self).len() == old(self).len())
                ||| (spec_append_verdict(
                    old(self).last_entry(),
                    state,
                    start_timestamp_ms,
                    now_ms,
                    force,
                ) is None && final(self).len() == old(self).len() + 1 && final(self).log() == old(
                    self,
                ).log().push(Entry { index: old(self).len(), state, start_timestamp_ms }))
            }),
    {
        let len = match self.length() {
            Ok(n) => n,
            Err(e) => {
                return Err(e);
            },
        };
        let last = if len >= 1 {
            match self.get(len - 1) {
                Ok(e) => Some(e),
                Err(_) => {
                    return Err(TrackerError::StorageFailure);
                },
            }
        } else {
            None
        };
        match validate_append(last, state, start_timestamp_ms, now_ms, force) {
            Ok(()) => (),
            Err(e) => {
                return Err(e);
            },
        }
        let key = index_key(len);
        let record = encode_record(state, start_timestamp_ms);
        let entry = Entry { index: len, state, start_timestamp_ms };
        match tree_insert(&mut self.events, &key, &record) {
            Ok(()) => (),
            Err(e) => {
                proof {
                    self.lemma_log_unchanged_outside(*old(self), len);
                }
                return Err(e);
            },
        }
        let len_k = len_key();
        let new_len_bytes = u64_to_le_bytes(len + 1);
        proof {
            lemma_auto_spec_u64_to_from_le_bytes();
        }
        let r = tree_insert(&mut self.meta, &len_k, &new_len_bytes);
        proof {
            if self.meta_map() == old(self).meta_map() {
                self.lemma_log_unchanged_outside(*old(self), len);
            } else {
                assert(self.len() == len + 1);
                assert forall|i: int| 0 <= i < len implies self.entry_at(i) == old(
                    self,
                ).entry_at(i) by {
                    if spec_index_key(i as u64) == spec_index_key(len) {
                        lemma_index_key_injective(i as u64, len);
                    }
                }
                lemma_record_round_trip(state, start_timestamp_ms);
                assert(self.entry_at(len as int) == entry);
                assert(self.log() =~= old(self).log().push(entry));
            }
        }
        match r {
            Ok(()) => Ok(len),
            Err(e) => Err(e),
        }
    }

    /// Partially updates the entry at `index`, after validating a new
    /// timestamp against the entry's immediate neighbours: it must not
    /// precede the predecessor's timestamp nor pass the successor's. Fields
    /// left `None` keep their stored value; an update with no field set
    /// fails with `NoChange`. State equality with neighbours is not
    /// re-checked here.
    pub fn update(&mut self, index: u64, new_state: Option<u8>, new_ts: Option<i64>) -> (r: Result<
        Entry,
        TrackerError,
    >)
        requires
            new_state matches Some(s) ==> crate::config::spec_state_valid(s),
        ensures
            r matches Ok(e) ==> ({
                &&& spec_update_verdict(old(self).log(), index, new_state, new_ts) is None
                &&& e == spec_updated_entry(old(self).log(), index, new_state, new_ts)
                &&& final(self).len() == old(self).len()
                &&& final(self).log() == old(self).log().update(index as int, e)
            }),
            r matches Err(e) ==> (e != TrackerError::StorageFailure ==> ({
                &&& spec_update_verdict(old(self).log(), index, new_state, new_ts) == Some(e)
                &&& final(self).log() == old(self).log()
                &&& final(self).len() == old(self).len()
            })),
            r == Err::<Entry, TrackerError>(TrackerError::StorageFailure) ==> ({
                &&& final(self).len() == old(self).len()
                &&& ({
                    ||| final(self).log() == old(self).log()
                    ||| (spec_update_verdict(old(self).log(), index, new_state, new_ts) is None
                        && final(self).log() == old(self).log().update(
                        index as int,
                        spec_updated_entry(old(self).log(), index, new_state, new_ts),
                    ))
                })
            }),
    {
        let len = match self.length() {
            Ok(n) => n,
            Err(e) => {
                return Err(e);
            },
        };
        if index >= len {
            return Err(TrackerError::NotFound);
        }
        if new_state.is_none() && new_ts.is_none() {
            return Err(TrackerError::NoChange);
        }
        match new_ts {
            Some(ts) => {
                if index > 0 {
                    let prev = match self.get(index - 1) {
                        Ok(e) => e,
                        Err(_) => {
                            return Err(TrackerError::StorageFailure);
                        },
                    };
                    if ts < prev.start_timestamp_ms {
                        return Err(TrackerError::TimestampRegression);
                    }
                }
                if index < len - 1 {
                    let next = match self.get(index + 1) {
                        Ok(e) => e,
                        Err(_) => {
                            return Err(TrackerError::StorageFailure);
                        },
                    };
                    if ts > next.start_timestamp_ms {
                        return Err(TrackerError::TimestampOutOfOrder);
                    }
                }
            },
            None => (),
        }
        let orig = match self.get(index) {
            Ok(e) => e,
            Err(_) => {
                return Err(TrackerError::StorageFailure);
            },
        };
        let state2 = match new_state {
            Some(s) => s,
            None => orig.state,
        };
        let ts2 = match new_ts {
            Some(t) => t,
            None => orig.start_timestamp_ms,
        };
        let entry = Entry { index, state: state2, start_timestamp_ms: ts2 };
        let key = index_key(index);
        let record = encode_record(state2, ts2);
        let r = tree_insert(&mut self.events, &key, &record);
        proof {
            if self.events_map() == old(self).events_map().insert(key@, record@) {
                assert forall|i: int| 0 <= i < len && i != index implies self.entry_at(i) == old(
                    self,
                ).entry_at(i) by {
                    if spec_index_key(i as u64) == spec_index_key(index) {
                        lemma_index_key_injective(i as u64, index);
                    }
                }
                lemma_record_round_trip(state2, ts2);
                assert(self.entry_at(index as int) == entry);
                assert(self.log() =~= old(self).log().update(index as int, entry));
            }
            if self.events_map() == old(self).events_map() {
                assert(self.log() =~= old(self).log());
            }
        }
        match r {
            Ok(()) => Ok(entry),
            Err(e) => Err(e),
        }
    }

    /// The committed log does not change when the length counter and the
    /// records below it are untouched, whatever happened at the record slot
    /// the counter does not yet cover.
    proof fn lemma_log_unchanged_outside(self, prior: EventStore, slot: u64)
        requires
            self.meta_map() == prior.meta_map(),
            prior.len() <= slot,
            forall|k: Seq<u8>|
                k != spec_index_key(slot) && #[trigger] prior.events_map().contains_key(k)
                    ==> self.events_map().contains_key(k) && self.events_map()[k]
                    == prior.events_map()[k],
            forall|k: Seq<u8>|
                k != spec_index_key(slot) && #[trigger] self.events_map().contains_key(k)
                    ==> prior.events_map().contains_key(k),
        ensures
            self.len() == prior.len(),
            self.log() == prior.log(),
    {
        assert forall|i: int| 0 <= i < prior.len() implies self.entry_at(i) == prior.entry_at(
            i,
        ) by {
            if spec_index_key(i as u64) == spec_index_key(slot) {
                lemma_index_key_injective(i as u64, slot);
            }
        }
        assert(self.log() =~= prior.log());
    }

    /// Reads the entry at `index`. Fails with `NotFound` exactly when the
    /// index is at or past the committed length, and with `StorageFailure`
    /// when the persistence layer fails or holds no well-formed record for
    /// an in-range index.
    pub fn get(&self, index: u64) -> (r: Result<Entry, TrackerError>)
        ensures
            match r {
                Ok(e) => index < self.len() && e == self.log()[index as int],
                Err(TrackerError::NotFound) => index >= self.len(),
                Err(TrackerError::StorageFailure) => true,
                Err(_) => false,
            },
    {
        let len = match self.length() {
            Ok(n) => n,
            Err(e) => {
                return Err(e);
            },
        };
        if index >= len {
            return Err(TrackerError::NotFound);
        }
        let key = index_key(index);
        match tree_get(&self.events, &key) {
            Ok(Some(bytes)) => {
                match decode_record(&bytes) {
                    Some((state, ts)) => Ok(Entry { index, state, start_timestamp_ms: ts }),
                    None => Err(TrackerError::StorageFailure),
                }
            },
            Ok(None) => Err(TrackerError::StorageFailure),
            Err(e) => Err(e),
        }
    }
    /// Reads the whole committed log in index order.
    pub fn read_all(&self) -> (r: Result<Vec<Entry>, TrackerError>)
        ensures
            r matches Ok(v) ==> v@ == self.log(),
            r matches Err(e) ==> e == TrackerError::StorageFailure,
    {
        let len = match self.length() {
            Ok(n) => n,
            Err(e) => {
                return Err(e);
            },
        };
        let mut entries: Vec<Entry> = Vec::new();
        let mut i: u64 = 0;
        while i < len
            invariant
                0 <= i <= len,
                len == self.len(),
                entries@ == self.log().take(i as int),
            decreases len - i,
        {
            match self.get(i) {
                Ok(e) => entries.push(e),
                Err(_) => {
                    return Err(TrackerError::StorageFailure);
                },
            }
            i += 1;
            proof {
                assert(entries@ =~= self.log().take(i as int));
            }
        }
        proof {
            assert(entries@ =~= self.log());
        }
        Ok(entries)
    }

    /// Computes the duration spent in each state over the window
    /// `[window_start_ms, window_end_ms]` by replaying the log, including
    /// the carry state active before the window started. A log whose
    /// records are missing, out of order or carry states outside the
    /// enumeration reads as a storage failure; a log whose newest entry
    /// lies past the window end cannot be attributed and is reported as
    /// `TimestampOutOfWindow`.
    pub fn aggregate(&self, window_start_ms: i64, window_end_ms: i64) -> (r: Result<
        Vec<i64>,
        TrackerError,
    >)
        requires
            window_start_ms <= window_end_ms,
            window_end_ms - window_start_ms <= i64::MAX,
        ensures
            r matches Ok(v) ==> ({
                &&& v@.len() == crate::config::STATE_COUNT
                &&& v@.map_values(|d: i64| d as int) == spec_aggregate(
                    self.log(),
                    window_start_ms as int,
                    window_end_ms as int,
                )
                &&& spec_timestamps_monotonic(self.log())
                &&& spec_states_valid(self.log())
            }),
            r matches Err(e) ==> e == TrackerError::StorageFailure || (e
                == TrackerError::TimestampOutOfWindow && self.log().len() > 0
                && self.log().last().start_timestamp_ms > window_end_ms),
    {
        let entries = match self.read_all() {
            Ok(v) => v,
            Err(e) => {
                return Err(e);
            },
        };
        if entries.len() > 0 {
            if !is_monotonic(&entries) {
                return Err(TrackerError::StorageFailure);
            }
            if !is_states_valid(&entries) {
                return Err(TrackerError::StorageFailure);
            }
            if entries[entries.len() - 1].start_timestamp_ms > window_end_ms {
                return Err(TrackerError::TimestampOutOfWindow);
            }
        }
        Ok(aggregate_entries(&entries, window_start_ms, window_end_ms))
    }

    /// Returns the newest transitions, newest first: at most `count` of
    /// them, stopping early at the first entry older than
    /// `range_start_ms`. Never an error for a zero count; an over-large
    /// count is clipped to the length.
    pub fn recent(&self, count: u64, range_start_ms: i64) -> (r: Result<Vec<Entry>, TrackerError>)
        ensures
            r matches Ok(v) ==> v@ == spec_recent(self.log(), count as nat, range_start_ms as int),
            count == 0 ==> (r matches Ok(v) && v@.len() == 0),
            r matches Err(e) ==> e == TrackerError::StorageFailure,
    {
        if count == 0 {
            return Ok(Vec::new());
        }
        let len = match self.length() {
            Ok(n) => n,
            Err(e) => {
                return Err(e);
            },
        };
        let n = if len < count {
            len
        } else {
            count
        };
        let mut out: Vec<Entry> = Vec::new();
        let mut k: u64 = 0;
        proof {
            assert(self.log().take(len as int) =~= self.log());
        }
        while k < n
            invariant
                0 <= k <= n,
                n == (if len < count {
                    len
                } else {
                    count
                }),
                n <= len,
                n <= count,
                len == self.len(),
                out@.len() == k,
                spec_recent(self.log(), count as nat, range_start_ms as int) == out@ + spec_recent(
                    self.log().take((len - k) as int),
                    (count - k) as nat,
                    range_start_ms as int,
                ),
            decreases n - k,
        {
            let i = len - 1 - k;
            let e = match self.get(i) {
                Ok(e) => e,
                Err(_) => {
                    return Err(TrackerError::StorageFailure);
                },
            };
            proof {
                lemma_recent_unfold(
                    self.log(),
                    (len - k) as int,
                    (count - k) as nat,
                    range_start_ms as int,
                );
            }
            if e.start_timestamp_ms < range_start_ms {
                proof {
                    assert(out@ + Seq::<Entry>::empty() =~= out@);
                }
                return Ok(out);
            }
            out.push(e);
            k += 1;
            proof {
                assert(out@.drop_last() + (seq![e] + spec_recent(
                    self.log().take((len - k) as int),
                    (count - k) as nat,
                    range_start_ms as int,
                )) =~= out@ + spec_recent(
                    self.log().take((len - k) as int),
                    (count - k) as nat,
                    range_start_ms as int,
                ));
            }
        }
        proof {
            assert(out@ + spec_recent(
                self.log().take((len - n) as int),
                (count - n) as nat,
                range_start_ms as int,
            ) =~= out@);
        }
        Ok(out)
    }
}

/// The committed log has exactly `len` entries, and the entry at each
/// position records that position as its own index.
pub proof fn lemma_log_shape(s: EventStore)
    ensures
        s.log().len() == s.len(),
        forall|i: int| 0 <= i < s.len() ==> (#[trigger] s.log()[i]).index == i as u64,
{
}

/// Law: an accepted append followed by a read of the index it returned
/// yields exactly the appended state and timestamp. `append` commits
/// `log.push(entry)` with `entry.index == log.len()` and returns that
/// index; `get` returns the log at the requested index; the pushed
/// position holds the pushed entry.
pub proof fn lemma_append_get_round_trip(log: Seq<Entry>, index: u64, state: u8, ts: i64)
    requires
        index as int == log.len(),
    ensures
        (log.push(Entry { index, state, start_timestamp_ms: ts })[index as int] == (Entry {
            index,
            state,
            start_timestamp_ms: ts,
        })),
{
}

} // verus!
