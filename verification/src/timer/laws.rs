//! What holds of the state machine over every state, request and clock
//! reading.
use vstd::prelude::*;
use crate::timer::comparison::Comparison;
use crate::timer::invariants::{lemma_refreshed_wf, lemma_tick_wf};
use crate::timer::model::{cumulative, no_golds, reference_series, zero_diffs, zero_times, RunStateView};
use crate::timer::state::{Phase, SplitStatus, StateChange, StateChangeRequest};
use crate::timer::sums::lemma_prefix_sum_monotonic;

verus! {

/// Whether every request of the batch is a Split.
pub open spec fn all_splits(rqs: Seq<StateChangeRequest>) -> bool {
    forall|i: int| 0 <= i < rqs.len() ==> #[trigger] rqs[i] == StateChangeRequest::Split
}

/// Whether no request of the batch is a Reset.
pub open spec fn no_reset(rqs: Seq<StateChangeRequest>) -> bool {
    forall|i: int| 0 <= i < rqs.len() ==> #[trigger] rqs[i] != StateChangeRequest::Reset
}

/// A Split never lowers the segment index: completing a segment moves it
/// up by one, or leaves it where it is when the attempt is finished, and a
/// Split that does not complete a segment leaves it alone.
pub proof fn lemma_split_keeps_or_raises_index(s: RunStateView, elapsed: u128)
    requires
        index_in_range(s),
    ensures
        s.step(StateChangeRequest::Split, elapsed).segment_index >= s.segment_index,
        s.in_segment() && s.segment_index + 1 < s.len() ==> {
            &&& s.step(StateChangeRequest::Split, elapsed).segment_index == s.segment_index + 1
            &&& s.step(StateChangeRequest::Split, elapsed).phase == Phase::Running
        },
        s.in_segment() && s.segment_index + 1 == s.len() ==> {
            &&& s.step(StateChangeRequest::Split, elapsed).segment_index == s.segment_index
            &&& s.step(StateChangeRequest::Split, elapsed).phase == Phase::Finished
        },
{
}

/// Whether the segment index points into the record: below the segment
/// count, or zero on a record without segments.
pub open spec fn index_in_range(s: RunStateView) -> bool {
    s.len() <= usize::MAX && (s.segment_index == 0 || s.segment_index < s.len())
}

/// The segment index stays within the record: after any request it is
/// below the segment count, or zero on a record without segments.
pub proof fn lemma_index_stays_in_range(s: RunStateView, rq: StateChangeRequest, elapsed: u128)
    requires
        index_in_range(s),
    ensures
        index_in_range(s.step(rq, elapsed)),
        s.step(rq, elapsed).len() == s.len(),
        s.len() > 0 ==> s.step(rq, elapsed).segment_index < s.len(),
        s.len() == 0 ==> s.step(rq, elapsed).segment_index == 0,
{
}

/// The segment index stays within the record over any batch of requests.
pub proof fn lemma_index_stays_in_range_over_batch(
    s: RunStateView,
    rqs: Seq<StateChangeRequest>,
    elapsed: u128,
)
    requires
        index_in_range(s),
    ensures
        index_in_range(s.after_requests(rqs, elapsed)),
    decreases rqs.len(),
{
    if rqs.len() > 0 {
        lemma_index_stays_in_range_over_batch(s, rqs.drop_last(), elapsed);
        lemma_index_stays_in_range(s.after_requests(rqs.drop_last(), elapsed), rqs.last(), elapsed);
    }
}

/// Over a batch of Splits the segment index never goes down.
pub proof fn lemma_splits_never_lower_index(
    s: RunStateView,
    rqs: Seq<StateChangeRequest>,
    elapsed: u128,
)
    requires
        s.wf(),
        all_splits(rqs),
    ensures
        s.after_requests(rqs, elapsed).segment_index >= s.segment_index,
    decreases rqs.len(),
{
    if rqs.len() > 0 {
        let front = rqs.drop_last();
        assert(all_splits(front)) by {
            assert forall|i: int| 0 <= i < front.len() implies #[trigger] front[i]
                == StateChangeRequest::Split by {
                assert(rqs[i] == StateChangeRequest::Split);
            }
        }
        lemma_index_stays_in_range_over_batch(s, front, elapsed);
        lemma_splits_never_lower_index(s, front, elapsed);
        assert(rqs.last() == rqs[rqs.len() - 1]);
    }
}

/// Only two requests lower the segment index: an Unsplit, which lowers it
/// by one and stays Running, and a Reset, which ends the attempt.
pub proof fn lemma_only_unsplit_lowers_index(
    s: RunStateView,
    rq: StateChangeRequest,
    elapsed: u128,
)
    requires
        index_in_range(s),
        s.step(rq, elapsed).segment_index < s.segment_index,
    ensures
        rq == StateChangeRequest::Unsplit || rq == StateChangeRequest::Reset,
        rq == StateChangeRequest::Unsplit ==> {
            &&& s.phase == Phase::Running
            &&& s.step(rq, elapsed).phase == Phase::Running
            &&& s.step(rq, elapsed).segment_index == s.segment_index - 1
        },
        rq == StateChangeRequest::Reset ==> s.step(rq, elapsed).phase == Phase::Idle,
{
}

/// No request changes the segment names of the record, and so none
/// changes the segment count.
pub proof fn lemma_step_keeps_segments(s: RunStateView, rq: StateChangeRequest, elapsed: u128)
    ensures
        s.step(rq, elapsed).run.splits == s.run.splits,
        s.step(rq, elapsed).len() == s.len(),
{
}

/// No batch of requests changes the segment count.
pub proof fn lemma_batch_keeps_segments(
    s: RunStateView,
    rqs: Seq<StateChangeRequest>,
    elapsed: u128,
)
    ensures
        s.after_requests(rqs, elapsed).len() == s.len(),
    decreases rqs.len(),
{
    if rqs.len() > 0 {
        lemma_batch_keeps_segments(s, rqs.drop_last(), elapsed);
        lemma_step_keeps_segments(s.after_requests(rqs.drop_last(), elapsed), rqs.last(), elapsed);
    }
}

/// A Reset after any batch of requests, from any state, leads to Idle at
/// the first segment with the per-segment arrays as a fresh session has
/// them: zero durations, zero differences and no golds, one per segment.
pub proof fn lemma_reset_restores_arrays(
    s: RunStateView,
    rqs: Seq<StateChangeRequest>,
    elapsed: u128,
)
    ensures
        ({
            let t = s.after_requests(rqs.push(StateChangeRequest::Reset), elapsed);
            &&& t.phase == Phase::Idle
            &&& t.segment_index == 0
            &&& t.segment_times == zero_times(s.len())
            &&& t.segment_diffs == zero_diffs(s.len())
            &&& t.segment_golds == no_golds(s.len())
            &&& t.segment_times == RunStateView::initial(t.run).segment_times
            &&& t.segment_diffs == RunStateView::initial(t.run).segment_diffs
            &&& t.segment_golds == RunStateView::initial(t.run).segment_golds
            &&& t.paused_total == 0
            &&& t.paused_segment == 0
        }),
{
    let all = rqs.push(StateChangeRequest::Reset);
    assert(all.drop_last() =~= rqs);
    assert(all.last() == StateChangeRequest::Reset);
    lemma_batch_keeps_segments(s, rqs, elapsed);
}

/// A Pause directly followed by a Pause at the same clock reading leads
/// from Running through Paused back to Running, and no time is lost or
/// gained: at every later reading the total time and the segment time are
/// what they would have been without the two requests. This holds of a
/// state whose total time is up to date, as it is within a tick.
pub proof fn lemma_pause_resume_keeps_time(s: RunStateView, elapsed: u128)
    requires
        s.wf(),
        s.last_reading <= elapsed,
        s.phase == Phase::Running,
        s.time == s.live_time(elapsed),
    ensures
        ({
            let paused = s.step(StateChangeRequest::Pause, elapsed);
            let resumed = paused.step(StateChangeRequest::Pause, elapsed);
            &&& paused.phase == Phase::Paused
            &&& resumed.phase == Phase::Running
            &&& paused.time == s.time
            &&& resumed.time == s.time
            &&& s.events(StateChangeRequest::Pause, elapsed) == seq![StateChange::Pause]
            &&& paused.events(StateChangeRequest::Pause, elapsed) == seq![
                StateChange::Unpause { status: s.status },
            ]
            &&& forall|later: u128|
                elapsed <= later ==> {
                    &&& #[trigger] resumed.live_time(later) == s.live_time(later)
                    &&& resumed.live_segment_time(later) == s.live_segment_time(later)
                }
        }),
{
    lemma_prefix_sum_monotonic(s.segment_times, 0, s.segment_index as int);
    let paused = s.step(StateChangeRequest::Pause, elapsed);
    assert(paused.paused_segment == s.live_segment_time(elapsed));
}

/// A tick whose batch is a Pause and a Pause leaves a Running attempt
/// Running and reports the total time that a tick without requests would
/// have reported.
pub proof fn lemma_pause_twice_in_one_tick(s: RunStateView, elapsed: u128)
    requires
        s.wf(),
        s.accepts(elapsed),
        s.phase == Phase::Running,
    ensures
        ({
            let batch = seq![StateChangeRequest::Pause, StateChangeRequest::Pause];
            let t = s.tick(batch, elapsed);
            &&& t.phase == Phase::Running
            &&& t.time == s.live_time(elapsed)
            &&& t.time == s.tick(Seq::empty(), elapsed).time
            &&& forall|later: u128|
                elapsed <= later ==> #[trigger] t.live_time(later) == s.live_time(later)
        }),
{
    let batch = seq![StateChangeRequest::Pause, StateChangeRequest::Pause];
    let fresh = s.refreshed(elapsed);
    lemma_refreshed_wf(s, elapsed);
    let one = batch.drop_last();
    assert(one =~= seq![StateChangeRequest::Pause]);
    assert(one.drop_last() =~= Seq::<StateChangeRequest>::empty());
    assert(fresh.after_requests(one.drop_last(), elapsed) == fresh);
    assert(fresh.after_requests(one, elapsed) == fresh.step(StateChangeRequest::Pause, elapsed));
    assert(fresh.after_requests(batch, elapsed) == fresh.step(
        StateChangeRequest::Pause,
        elapsed,
    ).step(StateChangeRequest::Pause, elapsed));
    lemma_pause_resume_keeps_time(fresh, elapsed);
    assert(fresh.after_requests(Seq::empty(), elapsed) == fresh);
}

/// While the clock counts, the total time does not go down as the clock
/// goes up.
pub proof fn lemma_live_time_monotonic(s: RunStateView, earlier: u128, later: u128)
    requires
        s.wf(),
        s.last_reading <= earlier,
        earlier <= later,
    ensures
        0 <= s.live_time(earlier) <= s.live_time(later),
        s.phase == Phase::Running || s.phase == Phase::CountingOffset ==> s.live_time(later)
            - s.live_time(earlier) == later - earlier,
{
}

/// A request other than Reset keeps an attempt that is Running, Paused or
/// Finished in one of these phases and does not touch its total time.
pub proof fn lemma_step_keeps_time(s: RunStateView, rq: StateChangeRequest, elapsed: u128)
    requires
        s.phase == Phase::Running || s.phase == Phase::Paused || s.phase == Phase::Finished,
        rq != StateChangeRequest::Reset,
    ensures
        ({
            let t = s.step(rq, elapsed);
            &&& t.phase == Phase::Running || t.phase == Phase::Paused || t.phase == Phase::Finished
            &&& t.time == s.time
        }),
{
}

/// A batch without a Reset keeps an attempt that is Running, Paused or
/// Finished in one of these phases and does not touch its total time.
pub proof fn lemma_batch_keeps_time(s: RunStateView, rqs: Seq<StateChangeRequest>, elapsed: u128)
    requires
        s.phase == Phase::Running || s.phase == Phase::Paused || s.phase == Phase::Finished,
        no_reset(rqs),
    ensures
        ({
            let t = s.after_requests(rqs, elapsed);
            &&& t.phase == Phase::Running || t.phase == Phase::Paused || t.phase == Phase::Finished
            &&& t.time == s.time
        }),
    decreases rqs.len(),
{
    if rqs.len() > 0 {
        let front = rqs.drop_last();
        assert(no_reset(front)) by {
            assert forall|i: int| 0 <= i < front.len() implies #[trigger] front[i]
                != StateChangeRequest::Reset by {
                assert(rqs[i] != StateChangeRequest::Reset);
            }
        }
        lemma_batch_keeps_time(s, front, elapsed);
        assert(rqs.last() == rqs[rqs.len() - 1]);
        lemma_step_keeps_time(s.after_requests(front, elapsed), rqs.last(), elapsed);
    }
}

/// Tick over tick, the total time of a Running attempt does not go down
/// while the clock does not. Let `s` be the state that a tick left, the
/// attempt Running. A further tick at a reading that is not below the
/// latest one, without a Reset in its batch, which leaves the attempt
/// Running, reports the total time that the clock gives, and this is not
/// below the total time of the tick before. Pauses within the batch do
/// not matter, nor does how the attempt came to be Running.
pub proof fn lemma_total_time_monotonic(
    s: RunStateView,
    rqs: Seq<StateChangeRequest>,
    later: u128,
)
    requires
        s.wf(),
        s.phase == Phase::Running,
        s.last_reading <= later,
        no_reset(rqs),
        s.tick(rqs, later).phase == Phase::Running,
    ensures
        s.time <= s.tick(rqs, later).time,
        s.tick(rqs, later).time == s.live_time(later),
{
    lemma_batch_keeps_time(s.refreshed(later), rqs, later);
}

/// The same over two ticks in a row from any state: if the attempt is
/// Running after the first and after the second, and the second has no
/// Reset in its batch, the total time that the second reports is not
/// below that of the first.
pub proof fn lemma_total_time_monotonic_over_two_ticks(
    s: RunStateView,
    first: Seq<StateChangeRequest>,
    second: Seq<StateChangeRequest>,
    earlier: u128,
    later: u128,
)
    requires
        s.wf(),
        s.accepts(earlier),
        s.run.has_room(first.len()),
        earlier <= later,
        no_reset(second),
        s.tick(first, earlier).phase == Phase::Running,
        s.tick(first, earlier).tick(second, later).phase == Phase::Running,
    ensures
        s.tick(first, earlier).time <= s.tick(first, earlier).tick(second, later).time,
{
    lemma_tick_wf(s, first, earlier);
    lemma_total_time_monotonic(s.tick(first, earlier), second, later);
}

/// The total time of an attempt starts from zero: in the tick in which
/// the first segment begins, whether at once or after the countdown, the
/// total time is zero.
pub proof fn lemma_first_segment_starts_from_zero(s: RunStateView, elapsed: u128)
    ensures
        s.phase == Phase::Idle ==> s.step(StateChangeRequest::Split, elapsed).time == 0,
        s.offset_elapsed() ==> {
            &&& s.settled(elapsed).phase == Phase::Running
            &&& s.settled(elapsed).time == 0
        },
{
}

/// Nothing is classified unless the attempt is Running under a
/// comparison: a tick that ends in any other phase, or under no
/// comparison, reports no status, whatever happened in it.
pub proof fn lemma_no_status_unless_running(
    s: RunStateView,
    rqs: Seq<StateChangeRequest>,
    elapsed: u128,
)
    ensures
        !s.tick(rqs, elapsed).is_classified() ==> s.tick(rqs, elapsed).status
            == SplitStatus::NoStatus,
        s.classified().status == SplitStatus::Gold ==> s.phase == Phase::Running && s.comparison
            != Comparison::NoComparison,
{
}

/// A tick in which a segment of a Running attempt is completed as a gold
/// flags the gold and, where the attempt goes on under a comparison,
/// reports the status Gold, whatever the pace. Where the gold finishes the
/// attempt, or nothing is compared, the tick reports no status.
pub proof fn lemma_gold_forces_status(s: RunStateView, elapsed: u128)
    requires
        s.wf(),
        s.last_reading <= elapsed,
        s.in_segment(),
        s.completes_gold(elapsed),
    ensures
        ({
            let t = s.tick(seq![StateChangeRequest::Split], elapsed);
            &&& t.segment_golds[s.segment_index as int]
            &&& t.status == if s.segment_index + 1 < s.len() && s.comparison
                != Comparison::NoComparison {
                SplitStatus::Gold
            } else {
                SplitStatus::NoStatus
            }
        }),
{
    let batch = seq![StateChangeRequest::Split];
    let fresh = s.refreshed(elapsed);
    assert(batch.drop_last() =~= Seq::<StateChangeRequest>::empty());
    assert(fresh.after_requests(batch.drop_last(), elapsed) == fresh);
    assert(fresh.after_requests(batch, elapsed) == fresh.step(StateChangeRequest::Split, elapsed));
}

/// Cycling the comparison mode changes the mode and the cumulative
/// reference, which is recomputed from the series of the new mode, and
/// nothing else: the attempt record in particular stays as it is.
pub proof fn lemma_cycling_keeps_record(s: RunStateView, forward: bool, elapsed: u128)
    ensures
        ({
            let t = s.step(StateChangeRequest::Comparison(forward), elapsed);
            &&& t.run == s.run
            &&& t.comparison == if forward {
                s.comparison.successor()
            } else {
                s.comparison.predecessor()
            }
            &&& t.reference == cumulative(reference_series(s.run, t.comparison))
            &&& t == (RunStateView {
                comparison: t.comparison,
                reference: t.reference,
                last_reading: elapsed,
                ..s
            })
            &&& s.events(StateChangeRequest::Comparison(forward), elapsed) == seq![
                StateChange::ComparisonChanged { comp: t.comparison },
            ]
        }),
{
}

} // verus!
