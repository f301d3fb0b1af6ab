//! The immutable fact recorded by the tracker: one state transition.

use vstd::prelude::*;

verus! {

/// One committed transition: at `start_timestamp_ms` (UTC epoch
/// milliseconds) the user entered `state`. The state is considered active
/// until the `start_timestamp_ms` of the next entry, or until now for the
/// last entry. `index` is the entry's dense, zero-based position in the log.
#[derive(Clone, Copy, Debug, PartialEq, Eq, Structural)]
pub struct Entry {
    pub index: u64,
    pub state: u8,
    pub start_timestamp_ms: i64,
}

/// Timestamps never decrease from one entry to the next.
pub open spec fn spec_timestamps_monotonic(log: Seq<Entry>) -> bool {
    forall|i: int, j: int| #![trigger log[i], log[j]]
        0 <= i <= j < log.len() ==> log[i].start_timestamp_ms <= log[j].start_timestamp_ms
}

/// No two adjacent entries share a state: a transition changes state.
pub open spec fn spec_no_adjacent_duplicates(log: Seq<Entry>) -> bool {
    forall|i: int| 0 < i < log.len() ==> (#[trigger] log[i]).state != log[i - 1].state
}

/// Every entry carries a state identifier inside the fixed enumeration.
pub open spec fn spec_states_valid(log: Seq<Entry>) -> bool {
    forall|i: int| #![trigger log[i]]
        0 <= i < log.len() ==> crate::config::spec_state_valid(log[i].state)
}

} // verus!
