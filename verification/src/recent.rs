//! The recent-events projection: the last transitions, newest first.

use crate::entry::Entry;
use vstd::prelude::*;

verus! {

/// The projection of the newest transitions: walking backward from the
/// newest entry, take at most `count` entries, and stop at the first entry
/// whose timestamp precedes `range_start_ms` (that entry is excluded).
pub open spec fn spec_recent(log: Seq<Entry>, count: nat, range_start_ms: int) -> Seq<Entry>
    decreases log.len(),
{
    if count == 0 || log.len() == 0 {
        Seq::empty()
    } else if (log.last().start_timestamp_ms as int) < range_start_ms {
        Seq::empty()
    } else {
        seq![log.last()] + spec_recent(log.drop_last(), (count - 1) as nat, range_start_ms)
    }
}

/// Unfolds one backward step of the projection on a prefix of the log.
pub proof fn lemma_recent_unfold(log: Seq<Entry>, m: int, count: nat, range_start_ms: int)
    requires
        1 <= m <= log.len(),
        count > 0,
    ensures
        spec_recent(log.take(m), count, range_start_ms) == (if (log[m
            - 1].start_timestamp_ms as int) < range_start_ms {
            Seq::<Entry>::empty()
        } else {
            seq![log[m - 1]] + spec_recent(log.take(m - 1), (count - 1) as nat, range_start_ms)
        }),
{
    assert(log.take(m).last() == log[m - 1]);
    assert(log.take(m).drop_last() =~= log.take(m - 1));
}

} // verus!
