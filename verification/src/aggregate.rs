//! Range aggregation: total elapsed duration per state over a time window.
//!
//! The log is replayed in index order. Entries before the window only
//! update the carry state — the state active at the moment the window
//! begins. Each in-window entry closes the span since the previous
//! processed timestamp (or since the window start, for the first in-window
//! entry after a carry state) and attributes it to the state active over
//! that span; the tail up to the window end goes to the last known state.

use crate::config::STATE_COUNT;
use crate::entry::{spec_states_valid, spec_timestamps_monotonic, Entry};
use vstd::prelude::*;

verus! {

/// A zeroed duration accumulator with one slot per state.
pub open spec fn spec_zero_durations() -> Seq<int> {
    Seq::new(STATE_COUNT as nat, |i: int| 0)
}

/// One scan step. `durs` are the durations attributed so far, `last` the
/// state and timestamp of the most recent in-window entry, `pre` the most
/// recent state that started before the window.
pub open spec fn spec_agg_step(
    durs: Seq<int>,
    last: Option<(u8, i64)>,
    pre: Option<u8>,
    e: Entry,
    ws: int,
) -> (Seq<int>, Option<(u8, i64)>, Option<u8>) {
    if (e.start_timestamp_ms as int) < ws {
        (durs, last, Some(e.state))
    } else {
        let durs2 = match last {
            Some((s, t)) => durs.update(s as int, durs[s as int] + (e.start_timestamp_ms - t)),
            None => match pre {
                Some(p) => durs.update(p as int, durs[p as int] + (e.start_timestamp_ms - ws)),
                None => durs,
            },
        };
        (durs2, Some((e.state, e.start_timestamp_ms)), pre)
    }
}

/// The scan state after replaying all of `log` against window start `ws`.
pub open spec fn spec_agg_scan(log: Seq<Entry>, ws: int) -> (Seq<int>, Option<(u8, i64)>, Option<
    u8,
>)
    decreases log.len(),
{
    if log.len() == 0 {
        (spec_zero_durations(), None::<(u8, i64)>, None::<u8>)
    } else {
        let (durs, last, pre) = spec_agg_scan(log.drop_last(), ws);
        spec_agg_step(durs, last, pre, log.last(), ws)
    }
}

/// The closing step: the span from the last processed timestamp (or the
/// window start, when only a carry state was seen) up to the window end
/// goes to the last known state.
pub open spec fn spec_agg_finish(
    durs: Seq<int>,
    last: Option<(u8, i64)>,
    pre: Option<u8>,
    ws: int,
    we: int,
) -> Seq<int> {
    match last {
        Some((s, t)) => durs.update(s as int, durs[s as int] + (we - t)),
        None => match pre {
            Some(p) => durs.update(p as int, durs[p as int] + (we - ws)),
            None => durs,
        },
    }
}

/// Duration attributed to each state by replaying `log` over the window
/// `[ws, we]`.
pub open spec fn spec_aggregate(log: Seq<Entry>, ws: int, we: int) -> Seq<int> {
    let (durs, last, pre) = spec_agg_scan(log, ws);
    spec_agg_finish(durs, last, pre, ws, we)
}

/// The total of a duration accumulator.
pub open spec fn spec_sum(s: Seq<int>) -> int
    decreases s.len(),
{
    if s.len() == 0 {
        0
    } else {
        spec_sum(s.drop_last()) + s.last()
    }
}

proof fn lemma_sum_update(s: Seq<int>, i: int, v: int)
    requires
        0 <= i < s.len(),
    ensures
        spec_sum(s.update(i, v)) == spec_sum(s) - s[i] + v,
    decreases s.len(),
{
    let s2 = s.update(i, v);
    if i == s.len() - 1 {
        assert(s2.drop_last() =~= s.drop_last());
    } else {
        assert(s2.drop_last() =~= s.drop_last().update(i, v));
        lemma_sum_update(s.drop_last(), i, v);
    }
}

proof fn lemma_sum_zero(n: nat)
    ensures
        spec_sum(Seq::new(n, |i: int| 0)) == 0,
    decreases n,
{
    if n > 0 {
        assert(Seq::new(n, |i: int| 0int).drop_last() =~= Seq::new((n - 1) as nat, |i: int| 0int));
        lemma_sum_zero((n - 1) as nat);
    }
}

proof fn lemma_sum_nonneg(s: Seq<int>)
    requires
        forall|j: int| 0 <= j < s.len() ==> s[j] >= 0,
    ensures
        spec_sum(s) >= 0,
    decreases s.len(),
{
    if s.len() > 0 {
        assert forall|j: int| 0 <= j < s.drop_last().len() implies s.drop_last()[j] >= 0 by {
            assert(s.drop_last()[j] == s[j]);
        }
        lemma_sum_nonneg(s.drop_last());
    }
}

proof fn lemma_elem_le_sum(s: Seq<int>, i: int)
    requires
        0 <= i < s.len(),
        forall|j: int| 0 <= j < s.len() ==> s[j] >= 0,
    ensures
        s[i] <= spec_sum(s),
        spec_sum(s) >= 0,
    decreases s.len(),
{
    lemma_sum_nonneg(s);
    assert forall|j: int| 0 <= j < s.drop_last().len() implies s.drop_last()[j] >= 0 by {
        assert(s.drop_last()[j] == s[j]);
    }
    if i == s.len() - 1 {
        lemma_sum_nonneg(s.drop_last());
    } else {
        lemma_elem_le_sum(s.drop_last(), i);
    }
}

/// Connects one loop iteration to the recursive scan definition.
proof fn lemma_scan_step(log: Seq<Entry>, i: int, ws: int)
    requires
        0 <= i < log.len(),
    ensures
        spec_agg_scan(log.take(i + 1), ws) == ({
            let (durs, last, pre) = spec_agg_scan(log.take(i), ws);
            spec_agg_step(durs, last, pre, log[i], ws)
        }),
{
    assert(log.take(i + 1).drop_last() =~= log.take(i));
    assert(log.take(i + 1).last() == log[i]);
}

/// Whether timestamps are non-decreasing, checked pair by pair.
pub fn is_monotonic(entries: &Vec<Entry>) -> (r: bool)
    ensures
        r == spec_timestamps_monotonic(entries@),
{
    let n = entries.len();
    let mut k: usize = 1;
    while k < n
        invariant
            1 <= k <= n || n == 0,
            n == entries@.len(),
            forall|i: int| 0 < i < k ==> entries@[i - 1].start_timestamp_ms <= #[trigger] entries@[i].start_timestamp_ms,
        decreases n - k,
    {
        if entries[k - 1].start_timestamp_ms > entries[k].start_timestamp_ms {
            assert(!spec_timestamps_monotonic(entries@));
            return false;
        }
        k += 1;
    }
    proof {
        lemma_adjacent_implies_monotonic(entries@);
    }
    true
}

proof fn lemma_adjacent_implies_monotonic(s: Seq<Entry>)
    requires
        forall|i: int| 0 < i < s.len() ==> s[i - 1].start_timestamp_ms <= #[trigger] s[i].start_timestamp_ms,
    ensures
        spec_timestamps_monotonic(s),
{
    assert forall|i: int, j: int| #![trigger s[i], s[j]] 0 <= i <= j < s.len() implies s[i].start_timestamp_ms
        <= s[j].start_timestamp_ms by {
        lemma_monotonic_span(s, i, j);
    }
}

proof fn lemma_monotonic_span(s: Seq<Entry>, i: int, j: int)
    requires
        forall|k: int| 0 < k < s.len() ==> s[k - 1].start_timestamp_ms <= #[trigger] s[k].start_timestamp_ms,
        0 <= i <= j < s.len(),
    ensures
        s[i].start_timestamp_ms <= s[j].start_timestamp_ms,
    decreases j - i,
{
    if i < j {
        lemma_monotonic_span(s, i, j - 1);
    }
}

/// Whether every entry's state identifier lies inside the enumeration.
pub fn is_states_valid(entries: &Vec<Entry>) -> (r: bool)
    ensures
        r == spec_states_valid(entries@),
{
    let n = entries.len();
    let mut k: usize = 0;
    while k < n
        invariant
            0 <= k <= n,
            n == entries@.len(),
            forall|i: int| 0 <= i < k ==> crate::config::spec_state_valid(#[trigger] entries@[i].state),
        decreases n - k,
    {
        if entries[k].state as usize >= STATE_COUNT {
            return false;
        }
        k += 1;
    }
    true
}

/// Replays already-read, well-formed entries over the window `[ws, we]`
/// and returns the duration attributed to each state. Under the stated
/// window bounds every attributed duration lies in `[0, we - ws]`, so the
/// accumulation cannot overflow.
pub fn aggregate_entries(entries: &Vec<Entry>, window_start_ms: i64, window_end_ms: i64) -> (r:
    Vec<i64>)
    requires
        spec_timestamps_monotonic(entries@),
        spec_states_valid(entries@),
        window_start_ms <= window_end_ms,
        entries@.len() > 0 ==> entries@.last().start_timestamp_ms <= window_end_ms,
        window_end_ms - window_start_ms <= i64::MAX,
    ensures
        r@.len() == STATE_COUNT,
        r@.map_values(|d: i64| d as int) == spec_aggregate(
            entries@,
            window_start_ms as int,
            window_end_ms as int,
        ),
{
    let ws = window_start_ms;
    let we = window_end_ms;
    let ghost gws = ws as int;
    let mut cumulative: Vec<i64> = vec![0i64; STATE_COUNT];
    let mut last: Option<(u8, i64)> = None;
    let mut pre: Option<u8> = None;
    proof {
        assert(cumulative@.map_values(|d: i64| d as int) =~= spec_zero_durations());
        lemma_sum_zero(STATE_COUNT as nat);
        assert(Seq::new(STATE_COUNT as nat, |i: int| 0int) =~= spec_zero_durations());
    }
    let n = entries.len();
    let mut idx: usize = 0;
    while idx < n
        invariant
            0 <= idx <= n,
            n == entries@.len(),
            cumulative@.len() == STATE_COUNT,
            spec_timestamps_monotonic(entries@),
            spec_states_valid(entries@),
            ws <= we,
            we - ws <= i64::MAX,
            entries@.len() > 0 ==> entries@.last().start_timestamp_ms <= we,
            (cumulative@.map_values(|d: i64| d as int), last, pre) == spec_agg_scan(
                entries@.take(idx as int),
                gws,
            ),
            gws == ws as int,
            forall|j: int| 0 <= j < STATE_COUNT ==> (#[trigger] cumulative@[j]) >= 0,
            spec_sum(cumulative@.map_values(|d: i64| d as int)) <= (match last {
                Some((s, t)) => t - gws,
                None => 0int,
            }),
            last matches Some((s, t)) ==> (s as int) < STATE_COUNT && gws <= t && idx > 0 && t
                <= entries@[idx - 1].start_timestamp_ms,
            pre matches Some(p) ==> (p as int) < STATE_COUNT,
        decreases n - idx,
    {
        let e = entries[idx];
        proof {
            lemma_scan_step(entries@, idx as int, gws);
            assert(entries@[idx as int].start_timestamp_ms <= entries@.last().start_timestamp_ms);
        }
        let ghost pre_durs = cumulative@.map_values(|d: i64| d as int);
        if e.start_timestamp_ms < ws {
            pre = Some(e.state);
        } else {
            match last {
                Some((s, t)) => {
                    let d = e.start_timestamp_ms - t;
                    let j = s as usize;
                    let cur = cumulative[j];
                    proof {
                        lemma_elem_le_sum(pre_durs, j as int);
                        lemma_sum_update(pre_durs, j as int, pre_durs[j as int] + (
                        e.start_timestamp_ms - t));
                    }
                    cumulative[j] = cur + d;
                    last = Some((e.state, e.start_timestamp_ms));
                },
                None => {
                    match pre {
                        Some(p) => {
                            let d = e.start_timestamp_ms - ws;
                            let j = p as usize;
                            let cur = cumulative[j];
                            proof {
                                lemma_elem_le_sum(pre_durs, j as int);
                                lemma_sum_update(pre_durs, j as int, pre_durs[j as int] + (
                                e.start_timestamp_ms - gws));
                            }
                            cumulative[j] = cur + d;
                        },
                        None => (),
                    }
                    last = Some((e.state, e.start_timestamp_ms));
                },
            }
        }
        idx += 1;
        proof {
            assert(cumulative@.map_values(|d: i64| d as int) =~= spec_agg_scan(
                entries@.take(idx as int),
                gws,
            ).0);
        }
    }
    proof {
        assert(entries@.take(n as int) =~= entries@);
    }
    let ghost final_durs = cumulative@.map_values(|d: i64| d as int);
    match last {
        Some((s, t)) => {
            let d = we - t;
            let j = s as usize;
            let cur = cumulative[j];
            proof {
                lemma_elem_le_sum(final_durs, j as int);
            }
            cumulative[j] = cur + d;
        },
        None => {
            match pre {
                Some(p) => {
                    let d = we - ws;
                    let j = p as usize;
                    let cur = cumulative[j];
                    proof {
                        lemma_elem_le_sum(final_durs, j as int);
                    }
                    cumulative[j] = cur + d;
                },
                None => (),
            }
        },
    }
    proof {
        assert(cumulative@.map_values(|d: i64| d as int) =~= spec_aggregate(
            entries@,
            ws as int,
            we as int,
        ));
    }
    cumulative
}

/// Law: aggregated over the full lifetime of the log — the window running
/// from the first entry's timestamp to `now` — the per-state durations sum
/// to exactly `now - first_timestamp`: no duration is lost or counted
/// twice.
pub proof fn lemma_aggregate_full_lifetime(log: Seq<Entry>, now: int)
    requires
        log.len() > 0,
        spec_timestamps_monotonic(log),
        spec_states_valid(log),
    ensures
        spec_sum(
            spec_aggregate(log, log[0].start_timestamp_ms as int, now),
        ) == now - log[0].start_timestamp_ms,
{
    let ws = log[0].start_timestamp_ms as int;
    lemma_scan_full_window(log, ws);
    let (durs, last, pre) = spec_agg_scan(log, ws);
    let s = log.last().state;
    let t = log.last().start_timestamp_ms;
    lemma_sum_update(durs, s as int, durs[s as int] + (now - t));
}

/// With a window that starts no later than the first entry, every entry is
/// processed in-window: the scan ends on the last entry and the attributed
/// durations telescope to `last_timestamp - first_timestamp`.
proof fn lemma_scan_full_window(log: Seq<Entry>, ws: int)
    requires
        log.len() > 0,
        spec_timestamps_monotonic(log),
        spec_states_valid(log),
        ws <= log[0].start_timestamp_ms,
    ensures
        ({
            let (durs, last, pre) = spec_agg_scan(log, ws);
            &&& durs.len() == STATE_COUNT
            &&& last == Some((log.last().state, log.last().start_timestamp_ms))
            &&& spec_sum(durs) == log.last().start_timestamp_ms - log[0].start_timestamp_ms
        }),
    decreases log.len(),
{
    if log.len() == 1 {
        lemma_sum_zero(STATE_COUNT as nat);
    } else {
        let butlast = log.drop_last();
        assert forall|i: int, j: int| #![trigger butlast[i], butlast[j]] 0 <= i <= j
            < butlast.len() implies butlast[i].start_timestamp_ms
            <= butlast[j].start_timestamp_ms by {
            assert(butlast[i] == log[i] && butlast[j] == log[j]);
        }
        assert forall|i: int| 0 <= i < butlast.len() implies crate::config::spec_state_valid(
            #[trigger] butlast[i].state,
        ) by {
            assert(butlast[i] == log[i]);
        }
        assert(butlast[0] == log[0]);
        lemma_scan_full_window(butlast, ws);
        let (durs, last, pre) = spec_agg_scan(butlast, ws);
        let e = log.last();
        let s = butlast.last().state;
        let t = butlast.last().start_timestamp_ms;
        assert(butlast.last() == log[log.len() - 2]);
        assert(e == log[log.len() - 1]);
        assert(t <= e.start_timestamp_ms);
        assert(ws <= e.start_timestamp_ms);
        lemma_sum_update(durs, s as int, durs[s as int] + (e.start_timestamp_ms - t));
    }
}

} // verus!
