//! Sequencing rules enforced before a write is committed.
//!
//! An append must change state, must not move time backwards, and must carry
//! a timestamp inside an acceptance window around the current time unless
//! the caller forces it. An update must keep its entry's timestamp between
//! the timestamps of its neighbours.

use crate::entry::{
    spec_no_adjacent_duplicates, spec_timestamps_monotonic, Entry,
};
use crate::errors::TrackerError;
use vstd::prelude::*;

verus! {

/// How far behind the current time an appended timestamp may lie, in
/// milliseconds, to tolerate client clock skew.
pub const CLOCK_SKEW_TOLERANCE_MS: i64 = 5000;

/// Whether a candidate timestamp lies inside the acceptance window around
/// `now`: at most the skew tolerance behind it and never ahead of it.
pub open spec fn spec_in_window(ts: i64, now: i64) -> bool {
    now - CLOCK_SKEW_TOLERANCE_MS <= ts <= now
}

pub fn in_window(ts: i64, now: i64) -> (r: bool)
    ensures
        r == spec_in_window(ts, now),
{
    ts as i128 >= now as i128 - CLOCK_SKEW_TOLERANCE_MS as i128 && ts <= now
}

/// The verdict on appending `(state, ts)` after `last` (the current last
/// entry, if the log is not empty): the first failed check, or `None` when
/// the append is acceptable. The duplicate-state rule is checked first,
/// then timestamp regression, then the timestamp window — so a repeated
/// state or a regressing timestamp is reported as such whatever the
/// timestamp's relation to `now`.
pub open spec fn spec_append_verdict(
    last: Option<Entry>,
    state: u8,
    ts: i64,
    now: i64,
    force: bool,
) -> Option<TrackerError> {
    match last {
        Some(prev) => {
            if state == prev.state {
                Some(TrackerError::DuplicateState)
            } else if ts < prev.start_timestamp_ms {
                Some(TrackerError::TimestampRegression)
            } else if !force && !spec_in_window(ts, now) {
                Some(TrackerError::TimestampOutOfWindow)
            } else {
                None
            }
        },
        None => {
            if !force && !spec_in_window(ts, now) {
                Some(TrackerError::TimestampOutOfWindow)
            } else {
                None
            }
        },
    }
}

/// Checks a candidate append against the current last entry.
pub fn validate_append(last: Option<Entry>, state: u8, ts: i64, now: i64, force: bool) -> (r:
    Result<(), TrackerError>)
    ensures
        match spec_append_verdict(last, state, ts, now, force) {
            None => r is Ok,
            Some(e) => r == Err::<(), TrackerError>(e),
        },
{
    match last {
        Some(prev) => {
            if state == prev.state {
                return Err(TrackerError::DuplicateState);
            }
            if ts < prev.start_timestamp_ms {
                return Err(TrackerError::TimestampRegression);
            }
        },
        None => (),
    }
    if !force && !in_window(ts, now) {
        return Err(TrackerError::TimestampOutOfWindow);
    }
    Ok(())
}

/// The verdict on updating entry `index` of `log` with the given optional
/// new fields: the first failed check, or `None` when the update is
/// acceptable. A new timestamp must not precede the predecessor's nor pass
/// the successor's; state equality with neighbours is not re-checked.
pub open spec fn spec_update_verdict(
    log: Seq<Entry>,
    index: u64,
    new_state: Option<u8>,
    new_ts: Option<i64>,
) -> Option<TrackerError> {
    if index as int >= log.len() {
        Some(TrackerError::NotFound)
    } else if new_state is None && new_ts is None {
        Some(TrackerError::NoChange)
    } else {
        match new_ts {
            Some(ts) => {
                if index > 0 && ts < log[index as int - 1].start_timestamp_ms {
                    Some(TrackerError::TimestampRegression)
                } else if (index as int) < log.len() - 1 && ts > log[index as int
                    + 1].start_timestamp_ms {
                    Some(TrackerError::TimestampOutOfOrder)
                } else {
                    None
                }
            },
            None => None,
        }
    }
}

/// The entry an accepted update commits: each field is the requested new
/// value, or the stored one where no new value was given.
pub open spec fn spec_updated_entry(
    log: Seq<Entry>,
    index: u64,
    new_state: Option<u8>,
    new_ts: Option<i64>,
) -> Entry {
    Entry {
        index,
        state: match new_state {
            Some(s) => s,
            None => log[index as int].state,
        },
        start_timestamp_ms: match new_ts {
            Some(t) => t,
            None => log[index as int].start_timestamp_ms,
        },
    }
}

/// Law: appending with a state equal to the current last entry's state
/// fails with `DuplicateState`, regardless of the timestamp.
pub proof fn lemma_duplicate_state_rejected(last: Entry, ts: i64, now: i64, force: bool)
    ensures
        spec_append_verdict(Some(last), last.state, ts, now, force) == Some(
            TrackerError::DuplicateState,
        ),
{
}

/// Law: appending with a timestamp earlier than the current last entry's
/// timestamp fails with `TimestampRegression`, regardless of the
/// timestamp's relation to `now`, whenever the appended state differs from
/// the last state.
pub proof fn lemma_timestamp_regression_rejected(
    last: Entry,
    state: u8,
    ts: i64,
    now: i64,
    force: bool,
)
    requires
        state != last.state,
        ts < last.start_timestamp_ms,
    ensures
        spec_append_verdict(Some(last), state, ts, now, force) == Some(
            TrackerError::TimestampRegression,
        ),
{
}

/// Law: an append the validator accepts preserves the committed log's
/// ordering invariants: timestamps stay non-decreasing and no two adjacent
/// entries share a state.
pub proof fn lemma_accepted_append_preserves_invariants(
    log: Seq<Entry>,
    index: u64,
    state: u8,
    ts: i64,
    now: i64,
    force: bool,
)
    requires
        spec_timestamps_monotonic(log),
        spec_no_adjacent_duplicates(log),
        spec_append_verdict(
            if log.len() == 0 {
                None
            } else {
                Some(log.last())
            },
            state,
            ts,
            now,
            force,
        ) is None,
    ensures
        spec_timestamps_monotonic(log.push(Entry { index, state, start_timestamp_ms: ts })),
        spec_no_adjacent_duplicates(log.push(Entry { index, state, start_timestamp_ms: ts })),
{
    let e = Entry { index, state, start_timestamp_ms: ts };
    let log2 = log.push(e);
    assert forall|i: int, j: int| #![trigger log2[i], log2[j]] 0 <= i <= j
        < log2.len() implies log2[i].start_timestamp_ms <= log2[j].start_timestamp_ms by {
        if j < log.len() {
            assert(log2[i] == log[i] && log2[j] == log[j]);
        } else if i < log.len() {
            assert(log2[i] == log[i] && log2[j] == e);
            assert(log[i].start_timestamp_ms <= log[log.len() - 1].start_timestamp_ms);
        }
    }
    assert forall|i: int| 0 < i < log2.len() implies (#[trigger] log2[i]).state != log2[i
        - 1].state by {
        if i < log.len() {
            assert(log2[i] == log[i] && log2[i - 1] == log[i - 1]);
        } else {
            assert(log2[i] == e && log2[i - 1] == log[log.len() - 1]);
        }
    }
}

/// Law: an update the validator accepts preserves non-decreasing
/// timestamps, because the new timestamp is held between the entry's
/// immediate neighbours. Adjacent state equality is not revalidated on
/// update.
pub proof fn lemma_accepted_update_preserves_monotonic(
    log: Seq<Entry>,
    index: u64,
    new_state: Option<u8>,
    new_ts: Option<i64>,
)
    requires
        spec_timestamps_monotonic(log),
        spec_update_verdict(log, index, new_state, new_ts) is None,
    ensures
        spec_timestamps_monotonic(
            log.update(index as int, spec_updated_entry(log, index, new_state, new_ts)),
        ),
{
    let e = spec_updated_entry(log, index, new_state, new_ts);
    let idx = index as int;
    let log2 = log.update(idx, e);
    assert forall|i: int, j: int| #![trigger log2[i], log2[j]] 0 <= i <= j
        < log2.len() implies log2[i].start_timestamp_ms <= log2[j].start_timestamp_ms by {
        if i != idx && j != idx {
            assert(log2[i] == log[i] && log2[j] == log[j]);
        } else if i == idx && j != idx {
            assert(log2[j] == log[j]);
            match new_ts {
                Some(ts) => {
                    assert(idx < log.len() - 1);
                    assert(ts <= log[idx + 1].start_timestamp_ms);
                    assert(log[idx + 1].start_timestamp_ms <= log[j].start_timestamp_ms);
                },
                None => {
                    assert(e.start_timestamp_ms == log[idx].start_timestamp_ms);
                },
            }
        } else if i != idx && j == idx {
            assert(log2[i] == log[i]);
            match new_ts {
                Some(ts) => {
                    assert(idx > 0);
                    assert(ts >= log[idx - 1].start_timestamp_ms);
                    assert(log[i].start_timestamp_ms <= log[idx - 1].start_timestamp_ms);
                },
                None => {
                    assert(e.start_timestamp_ms == log[idx].start_timestamp_ms);
                },
            }
        }
    }
}

} // verus!
