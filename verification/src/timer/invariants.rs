//! The invariant of the state machine holds initially and is kept by every
//! transition.
use vstd::prelude::*;
use crate::timer::comparison::Comparison;
use crate::timer::limits::{MAX_MILLIS, MEAN_LIMIT, REFERENCE_LIMIT, SAMPLE_LIMIT};
use crate::timer::model::{cumulative, reference_series, RunStateView};
use crate::timer::run::{lemma_mean_bounded, RunView};
use crate::timer::state::StateChangeRequest;
use crate::timer::sums::{
    lemma_prefix_sum_agrees,
    lemma_prefix_sum_bounded,
    lemma_prefix_sum_monotonic,
    prefix_sum,
};

verus! {

/// The cumulative series of at most `usize::MAX` durations of at most
/// `MEAN_LIMIT` each holds the exact prefix sums, none above
/// `REFERENCE_LIMIT`.
pub proof fn lemma_cumulative_bounded(s: Seq<u128>)
    requires
        s.len() <= usize::MAX,
        forall|i: int| 0 <= i < s.len() ==> #[trigger] s[i] <= MEAN_LIMIT,
    ensures
        cumulative(s).len() == s.len(),
        forall|i: int|
            0 <= i < s.len() ==> {
                &&& (#[trigger] cumulative(s)[i]) as int == prefix_sum(s, i + 1)
                &&& cumulative(s)[i] <= REFERENCE_LIMIT
            },
{
    assert forall|i: int| 0 <= i < s.len() implies {
        &&& (#[trigger] cumulative(s)[i]) as int == prefix_sum(s, i + 1)
        &&& cumulative(s)[i] <= REFERENCE_LIMIT
    } by {
        lemma_prefix_sum_bounded(s, i + 1, MEAN_LIMIT as int);
        lemma_prefix_sum_monotonic(s, 0, i + 1);
        let k = i + 1;
        let m = MEAN_LIMIT as int;
        assert(k * m <= 0x1_0000_0000_0000_0000 * m) by (nonlinear_arith)
            requires
                0 <= k <= 0x1_0000_0000_0000_0000,
                0 <= m,
        ;
    }
}

/// The series that a comparison mode measures against has one entry per
/// segment, none above `MEAN_LIMIT`.
pub proof fn lemma_reference_series_bounded(run: RunView, mode: Comparison)
    requires
        run.wf(),
    ensures
        reference_series(run, mode).len() == run.len(),
        forall|i: int|
            0 <= i < run.len() ==> #[trigger] reference_series(run, mode)[i] <= MEAN_LIMIT,
{
    assert forall|i: int| 0 <= i < run.len() implies #[trigger] reference_series(run, mode)[i]
        <= MEAN_LIMIT by {
        lemma_mean_bounded(run.sum_times[i]);
    }
}

/// A fresh session on a well-formed record is well formed.
pub proof fn lemma_initial_wf(run: RunView)
    requires
        run.wf(),
        run.len() <= usize::MAX,
    ensures
        RunStateView::initial(run).wf(),
{
    lemma_cumulative_bounded(run.pb_times);
}

/// The start of a tick keeps the invariant and brings the latest reading
/// up to the clock.
pub proof fn lemma_refreshed_wf(s: RunStateView, elapsed: u128)
    requires
        s.wf(),
        s.accepts(elapsed),
    ensures
        s.refreshed(elapsed).wf(),
        s.refreshed(elapsed).accepts(elapsed),
        forall|n: nat| s.run.has_room(n) ==> s.refreshed(elapsed).run.has_room(n),
{
}

/// One request keeps the invariant, leaves the latest reading at the
/// clock and takes up at most one sample of room in the running averages.
pub proof fn lemma_step_wf(s: RunStateView, rq: StateChangeRequest, elapsed: u128)
    requires
        s.wf(),
        s.accepts(elapsed),
        s.run.has_room(1),
    ensures
        s.step(rq, elapsed).wf(),
        s.step(rq, elapsed).accepts(elapsed),
        forall|n: nat| n >= 1 && s.run.has_room(n) ==> s.step(rq, elapsed).run.has_room((n - 1) as nat),
{
    let t = s.step(rq, elapsed);
    let i = s.segment_index as int;
    match rq {
        StateChangeRequest::Split => {
            if s.in_segment() {
                lemma_completed_wf(s, elapsed);
            }
        },
        StateChangeRequest::Unsplit => {
            if s.in_segment() && s.segment_index != 0 {
                lemma_prefix_sum_agrees(s.segment_times, t.segment_times, i - 1);
                lemma_prefix_sum_monotonic(s.segment_times, 0, i - 1);
            }
        },
        StateChangeRequest::Skip => {
            if s.in_segment() {
                lemma_prefix_sum_agrees(s.segment_times, t.segment_times, i);
                lemma_prefix_sum_monotonic(s.segment_times, 0, i);
            }
        },
        StateChangeRequest::Reset => {
            assert(prefix_sum(t.segment_times, 0) == 0);
        },
        StateChangeRequest::Comparison(forward) => {
            lemma_reference_series_bounded(s.run, t.comparison);
            lemma_cumulative_bounded(reference_series(s.run, t.comparison));
        },
        _ => {},
    }
    assert forall|n: nat| n >= 1 && s.run.has_room(n) implies t.run.has_room((n - 1) as nat) by {
        assert forall|j: int| 0 <= j < t.run.sum_times.len() implies (#[trigger] t.run.sum_times[j]).0
            + (n - 1) <= SAMPLE_LIMIT by {
            assert(s.run.sum_times[j].0 + n <= SAMPLE_LIMIT);
        }
    }
}

/// Completing a segment keeps the invariant.
proof fn lemma_completed_wf(s: RunStateView, elapsed: u128)
    requires
        s.wf(),
        s.accepts(elapsed),
        s.run.has_room(1),
        s.in_segment(),
    ensures
        s.step(StateChangeRequest::Split, elapsed).wf(),
{
    let t = s.step(StateChangeRequest::Split, elapsed);
    let i = s.segment_index as int;
    let time = s.live_segment_time(elapsed);
    lemma_prefix_sum_monotonic(s.segment_times, 0, i);
    assert(0 <= time <= MAX_MILLIS);
    lemma_mean_bounded(s.run.sum_times[i]);
    let acc = s.run.sum_times[i];
    assert(acc.0 + 1 <= SAMPLE_LIMIT);
    assert(acc.1 + time <= MAX_MILLIS * (acc.0 + 2)) by (nonlinear_arith)
        requires
            acc.1 <= MAX_MILLIS * (acc.0 + 1),
            time <= MAX_MILLIS,
    ;
    assert(MAX_MILLIS * (acc.0 + 2) <= MAX_MILLIS * (SAMPLE_LIMIT + 1)) by (nonlinear_arith)
        requires
            acc.0 + 1 <= SAMPLE_LIMIT,
    ;
    lemma_prefix_sum_agrees(s.segment_times, t.segment_times, i);
    assert(t.run.wf());
    assert(t.wf());
}

/// The check of the countdown keeps the invariant.
pub proof fn lemma_settled_wf(s: RunStateView, elapsed: u128)
    requires
        s.wf(),
        s.last_reading == elapsed,
    ensures
        s.settled(elapsed).wf(),
        s.settled(elapsed).classified().wf(),
{
}

/// A batch of requests keeps the invariant, provided that the running
/// averages have room for one sample per request.
pub proof fn lemma_after_requests_wf(s: RunStateView, rqs: Seq<StateChangeRequest>, elapsed: u128)
    requires
        s.wf(),
        s.accepts(elapsed),
        s.run.has_room(rqs.len()),
    ensures
        s.after_requests(rqs, elapsed).wf(),
        s.after_requests(rqs, elapsed).accepts(elapsed),
        s.after_requests(rqs, elapsed).run.has_room(0),
        rqs.len() > 0 ==> s.after_requests(rqs, elapsed).last_reading == elapsed,
{
    lemma_after_requests_room(s, rqs, elapsed, 0);
}

/// After a batch of requests the running averages still have the room
/// that was not asked for.
pub proof fn lemma_after_requests_room(
    s: RunStateView,
    rqs: Seq<StateChangeRequest>,
    elapsed: u128,
    spare: nat,
)
    requires
        s.wf(),
        s.accepts(elapsed),
        s.run.has_room(rqs.len() + spare),
    ensures
        s.after_requests(rqs, elapsed).wf(),
        s.after_requests(rqs, elapsed).accepts(elapsed),
        s.after_requests(rqs, elapsed).run.has_room(spare),
        rqs.len() > 0 ==> s.after_requests(rqs, elapsed).last_reading == elapsed,
    decreases rqs.len(),
{
    if rqs.len() > 0 {
        lemma_after_requests_room(s, rqs.drop_last(), elapsed, spare + 1);
        let mid = s.after_requests(rqs.drop_last(), elapsed);
        lemma_room_shrinks(mid.run, spare + 1, 1);
        lemma_step_wf(mid, rqs.last(), elapsed);
    }
}

/// Room for `n` samples is room for any fewer.
pub proof fn lemma_room_shrinks(run: RunView, n: nat, m: nat)
    requires
        run.has_room(n),
        m <= n,
    ensures
        run.has_room(m),
{
    assert forall|j: int| 0 <= j < run.sum_times.len() implies (#[trigger] run.sum_times[j]).0 + m
        <= SAMPLE_LIMIT by {
        assert(run.sum_times[j].0 + n <= SAMPLE_LIMIT);
    }
}

/// A whole tick keeps the invariant.
pub proof fn lemma_tick_wf(s: RunStateView, rqs: Seq<StateChangeRequest>, elapsed: u128)
    requires
        s.wf(),
        s.accepts(elapsed),
        s.run.has_room(rqs.len()),
    ensures
        s.tick(rqs, elapsed).wf(),
        s.tick(rqs, elapsed).last_reading == elapsed,
{
    lemma_refreshed_wf(s, elapsed);
    lemma_after_requests_wf(s.refreshed(elapsed), rqs, elapsed);
    lemma_settled_wf(s.refreshed(elapsed).after_requests(rqs, elapsed), elapsed);
}

} // verus!
