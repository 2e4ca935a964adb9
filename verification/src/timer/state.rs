//! The timing state machine: requests in, per-tick updates out.
use vstd::prelude::*;
use vstd::slice::slice_to_vec;
use crate::timer::comparison::Comparison;
use crate::timer::invariants::{
    lemma_cumulative_bounded,
    lemma_initial_wf,
    lemma_reference_series_bounded,
    lemma_refreshed_wf,
    lemma_room_shrinks,
    lemma_settled_wf,
    lemma_step_wf,
    lemma_tick_wf,
};
use crate::timer::laws::{
    lemma_only_unsplit_lowers_index,
    lemma_split_keeps_or_raises_index,
    lemma_total_time_monotonic,
    no_reset,
};
use crate::timer::limits::{MAX_MILLIS, MEAN_LIMIT};
use crate::timer::model::{
    cumulative,
    merged_golds,
    no_golds,
    zero_diffs,
    zero_times,
    RunStateView,
};
use crate::timer::run::{lemma_mean_bounded, mean, Run, RunView};
use crate::timer::sums::{
    lemma_prefix_sum_agrees,
    lemma_prefix_sum_bounded,
    lemma_prefix_sum_monotonic,
    prefix_sum,
    split_time_sum,
};

verus! {

/// Where an attempt stands in its lifecycle.
#[derive(Clone, Copy, PartialEq, Eq, Debug, Structural)]
pub enum Phase {
    /// No attempt is under way.
    Idle,
    /// The lead-in before the first segment is being counted down.
    CountingOffset,
    /// A segment is being timed.
    Running,
    /// The attempt is frozen until it is resumed.
    Paused,
    /// The last segment was completed.
    Finished,
}

/// A control request issued by the user.
#[derive(Clone, Copy, PartialEq, Eq, Debug, Structural)]
pub enum StateChangeRequest {
    /// Nothing is asked for.
    NoRequest,
    /// Pause a running attempt, or resume a paused one.
    Pause,
    /// Start the attempt, or complete the current segment.
    Split,
    /// Take back the latest segment completion.
    Unsplit,
    /// Leave the current segment without recording a duration.
    Skip,
    /// Abandon the attempt and return to idle.
    Reset,
    /// Move to the next comparison mode (`true`) or the previous one.
    Comparison(bool),
}

/// A discrete transition, reported to the presentation in the order in
/// which it happened.
#[derive(Clone, Copy, PartialEq, Eq, Debug)]
pub enum StateChange {
    /// The request did not apply in the current phase.
    NoChange,
    /// The lead-in countdown began.
    EnterOffset,
    /// The lead-in countdown ended.
    ExitOffset,
    /// Segment `idx` began.
    EnterSplit { idx: usize },
    /// Segment `idx` ended after `time` milliseconds; `diff` is the signed
    /// distance of the attempt's cumulative time from that of the best
    /// attempt at this boundary, and zero when there is no best attempt.
    ExitSplit { idx: usize, status: SplitStatus, time: u128, diff: i128 },
    /// The attempt was paused.
    Pause,
    /// The attempt was resumed.
    Unpause { status: SplitStatus },
    /// The attempt was completed.
    Finish,
    /// The attempt was abandoned; `offset` is the record's lead-in.
    Reset { offset: Option<u128> },
    /// The comparison mode is now `comp`.
    ComparisonChanged { comp: Comparison },
}

/// What one tick hands to the presentation.
pub struct RunUpdate {
    /// The transitions of this tick, in order.
    pub change: Vec<StateChange>,
    /// Live time within the current segment.
    pub split_time: u128,
    /// Live total time of the attempt.
    pub time: u128,
    /// Whether the lead-in is being counted down.
    pub offset: bool,
    /// The pace classification of this tick.
    pub status: SplitStatus,
}

/// How the attempt fares against the active reference.
#[derive(Clone, Copy, PartialEq, Eq, Debug, Structural)]
pub enum SplitStatus {
    /// Nothing is classified.
    NoStatus,
    /// Ahead of the reference.
    Ahead,
    /// Behind the reference, but making up time.
    Gaining,
    /// The segment just completed is the best ever recorded.
    Gold,
    /// Behind the reference.
    Behind,
    /// Ahead of the reference, but losing time.
    Losing,
}

/// The timing state machine of one session on an attempt record.
///
/// The machine owns the record for the length of the session and is the
/// only one to change it; the presentation reads it through [`RunState::run`].
pub struct RunState {
    run: Run,
    phase: Phase,
    status: SplitStatus,
    comparison: Comparison,
    segment_times: Vec<u128>,
    segment_diffs: Vec<i128>,
    segment_golds: Vec<bool>,
    reference: Vec<u128>,
    paused_total: u128,
    paused_segment: u128,
    segment_start: u128,
    start: u128,
    time: u128,
    segment_index: usize,
    pending_save: bool,
    pending_best_write: bool,
    queued_times: Vec<u128>,
    gold_forced: bool,
    last_reading: u128,
}

impl View for RunState {
    type V = RunStateView;

    closed spec fn view(&self) -> RunStateView {
        RunStateView {
            run: self.run@,
            phase: self.phase,
            status: self.status,
            comparison: self.comparison,
            segment_times: self.segment_times@,
            segment_diffs: self.segment_diffs@,
            segment_golds: self.segment_golds@,
            reference: self.reference@,
            paused_total: self.paused_total,
            paused_segment: self.paused_segment,
            segment_start: self.segment_start,
            start: self.start,
            time: self.time,
            segment_index: self.segment_index,
            pending_save: self.pending_save,
            pending_best_write: self.pending_best_write,
            queued_times: self.queued_times@,
            gold_forced: self.gold_forced,
            last_reading: self.last_reading,
        }
    }
}

/// `n` zero durations.
fn zero_time_vec(n: usize) -> (v: Vec<u128>)
    ensures
        v@ == zero_times(n as nat),
{
    let mut v: Vec<u128> = Vec::new();
    while v.len() < n
        invariant
            v@.len() <= n,
            forall|i: int| 0 <= i < v@.len() ==> v@[i] == 0,
        decreases n - v@.len(),
    {
        v.push(0);
    }
    assert(v@ =~= zero_times(n as nat));
    v
}

/// `n` zero differences.
fn zero_diff_vec(n: usize) -> (v: Vec<i128>)
    ensures
        v@ == zero_diffs(n as nat),
{
    let mut v: Vec<i128> = Vec::new();
    while v.len() < n
        invariant
            v@.len() <= n,
            forall|i: int| 0 <= i < v@.len() ==> v@[i] == 0,
        decreases n - v@.len(),
    {
        v.push(0);
    }
    assert(v@ =~= zero_diffs(n as nat));
    v
}

/// `n` cleared flags.
fn no_gold_vec(n: usize) -> (v: Vec<bool>)
    ensures
        v@ == no_golds(n as nat),
{
    let mut v: Vec<bool> = Vec::new();
    while v.len() < n
        invariant
            v@.len() <= n,
            forall|i: int| 0 <= i < v@.len() ==> !v@[i],
        decreases n - v@.len(),
    {
        v.push(false);
    }
    assert(v@ =~= no_golds(n as nat));
    v
}

/// The mean of a running-average accumulator `(samples, total)`.
fn mean_of(acc: (u128, u128)) -> (m: u128)
    ensures
        m as int == mean(acc),
{
    if acc.0 == 0 {
        0
    } else {
        acc.1 / acc.0
    }
}

/// The running mean of every segment of `run`.
fn averages_of(run: &Run) -> (v: Vec<u128>)
    ensures
        v@ == run@.averages(),
{
    let sums = run.sum_times();
    let mut v: Vec<u128> = Vec::new();
    let mut i: usize = 0;
    while i < sums.len()
        invariant
            i <= sums@.len(),
            sums@ == run@.sum_times,
            v@.len() == i,
            forall|j: int| 0 <= j < i ==> v@[j] as int == mean(sums@[j]),
        decreases sums@.len() - i,
    {
        v.push(mean_of(sums[i]));
        i = i + 1;
    }
    assert(v@ =~= run@.averages());
    v
}

/// The cumulative series of durations that are each within the limit on
/// a mean.
fn cumulative_of(series: &[u128]) -> (v: Vec<u128>)
    requires
        forall|i: int| 0 <= i < series@.len() ==> #[trigger] series@[i] <= MEAN_LIMIT,
    ensures
        v@ == cumulative(series@),
{
    let n: usize = series.len();
    proof {
        lemma_cumulative_bounded(series@);
        if n > 0 {
            assert(cumulative(series@)[series@.len() - 1] as int == prefix_sum(
                series@,
                series@.len() as int,
            ));
        }
    }
    let v = split_time_sum(series);
    assert(v@ =~= cumulative(series@));
    v
}

/// Writes the durations flagged gold into the record's best segment
/// durations.
fn write_golds(run: &mut Run, golds: &Vec<bool>, times: &Vec<u128>)
    requires
        golds@.len() == old(run)@.gold_times.len(),
        times@.len() == old(run)@.gold_times.len(),
    ensures
        final(run)@ == (RunView {
            gold_times: merged_golds(old(run)@.gold_times, golds@, times@),
            ..old(run)@
        }),
{
    let n: usize = golds.len();
    let ghost before = run@;
    let mut k: usize = 0;
    while k < n
        invariant
            k <= n,
            n == golds@.len(),
            n == times@.len(),
            run@.gold_times.len() == n,
            before.gold_times.len() == n,
            run@ == (RunView { gold_times: run@.gold_times, ..before }),
            forall|j: int|
                0 <= j < n ==> #[trigger] run@.gold_times[j] == if j < k && golds@[j] {
                    times@[j]
                } else {
                    before.gold_times[j]
                },
        decreases n - k,
    {
        if golds[k] {
            run.set_gold_time(times[k], k);
        }
        k = k + 1;
    }
    assert(run@.gold_times =~= merged_golds(before.gold_times, golds@, times@));
}

impl RunState {
    /// A fresh session on `run`: idle, compared against the best attempt,
    /// with the per-segment arrays at the record's segment count.
    pub fn new(run: Run) -> (state: RunState)
        requires
            run@.wf(),
        ensures
            state@ == RunStateView::initial(run@),
            state@.wf(),
    {
        let n: usize = run.len();
        let reference = cumulative_of(run.pb_times().as_slice());
        proof {
            lemma_initial_wf(run@);
        }
        RunState {
            run,
            phase: Phase::Idle,
            status: SplitStatus::NoStatus,
            comparison: Comparison::PersonalBest,
            segment_times: zero_time_vec(n),
            segment_diffs: zero_diff_vec(n),
            segment_golds: no_gold_vec(n),
            reference,
            paused_total: 0,
            paused_segment: 0,
            segment_start: 0,
            start: 0,
            time: 0,
            segment_index: 0,
            pending_save: false,
            pending_best_write: false,
            queued_times: Vec::new(),
            gold_forced: false,
            last_reading: 0,
        }
    }

    /// The attempt record of the session.
    pub fn run(&self) -> (run: &Run)
        ensures
            run@ == self@.run,
    {
        &self.run
    }

    /// Whether the record changed and has not been persisted since.
    pub fn needs_save(&self) -> (pending: bool)
        ensures
            pending == self@.pending_save,
    {
        self.pending_save
    }

    /// The lifecycle phase.
    pub fn phase(&self) -> (phase: Phase)
        ensures
            phase == self@.phase,
    {
        self.phase
    }

    /// The active comparison mode.
    pub fn comparison(&self) -> (mode: Comparison)
        ensures
            mode == self@.comparison,
    {
        self.comparison
    }

    /// The latest pace classification.
    pub fn status(&self) -> (status: SplitStatus)
        ensures
            status == self@.status,
    {
        self.status
    }

    /// Index of the segment in progress.
    pub fn segment_index(&self) -> (idx: usize)
        ensures
            idx == self@.segment_index,
    {
        self.segment_index
    }

    /// The duration recorded for each segment of this attempt.
    pub fn segment_times(&self) -> (times: &Vec<u128>)
        ensures
            times@ == self@.segment_times,
    {
        &self.segment_times
    }

    /// The signed distance of each recorded duration from its reference.
    pub fn segment_diffs(&self) -> (diffs: &Vec<i128>)
        ensures
            diffs@ == self@.segment_diffs,
    {
        &self.segment_diffs
    }

    /// Whether each recorded duration beat the record's best.
    pub fn segment_golds(&self) -> (golds: &Vec<bool>)
        ensures
            golds@ == self@.segment_golds,
    {
        &self.segment_golds
    }

    /// The cumulative reference time at each segment boundary.
    pub fn reference_times(&self) -> (reference: &Vec<u128>)
        ensures
            reference@ == self@.reference,
    {
        &self.reference
    }

    /// Whether a tick at clock reading `elapsed` with `requests` requests
    /// can be taken: the clock has not run backwards, the reading is within
    /// the timer's limit and the running averages have room.
    pub fn accepts(&self, elapsed: u128, requests: usize) -> (ok: bool)
        ensures
            ok == (self@.accepts(elapsed) && self@.run.has_room(requests as nat)),
    {
        self.last_reading <= elapsed && elapsed <= MAX_MILLIS && self.run.has_room(requests)
    }

    /// Whether a segment is being timed.
    pub fn is_running(&self) -> (running: bool)
        ensures
            running == (self@.phase == Phase::Running),
    {
        self.phase == Phase::Running
    }
}

impl RunState {
    /// Completes the current segment at clock reading `elapsed`.
    fn complete_segment(&mut self, elapsed: u128) -> (events: Vec<StateChange>)
        requires
            old(self)@.wf(),
            old(self)@.last_reading == elapsed,
            old(self)@.run.has_room(1),
            old(self)@.in_segment(),
        ensures
            final(self)@ == old(self)@.completed(elapsed),
            events@ == seq![old(self)@.exit_event(elapsed), old(self)@.onward_event()],
    {
        let ghost before = self@;
        let i: usize = self.segment_index;
        let n: usize = self.run.len();
        proof {
            lemma_prefix_sum_monotonic(before.segment_times, 0, i as int);
            lemma_mean_bounded(before.run.sum_times[i as int]);
        }
        let time: u128 = (elapsed - self.segment_start) + self.paused_segment;
        self.segment_start = elapsed;
        self.paused_segment = 0;
        self.segment_times.set(i, time);
        let diff: i128 = match self.comparison {
            Comparison::PersonalBest => time as i128 - self.run.pb_times()[i] as i128,
            Comparison::Golds => time as i128 - self.run.gold_times()[i] as i128,
            Comparison::Average => time as i128 - mean_of(self.run.sum_times()[i]) as i128,
            Comparison::NoComparison => 0,
        };
        self.segment_diffs.set(i, diff);
        let acc: (u128, u128) = self.run.sum_times()[i];
        proof {
            assert(acc.1 + time <= MAX_MILLIS * (acc.0 + 2)) by (nonlinear_arith)
                requires
                    acc.1 <= MAX_MILLIS * (acc.0 + 1),
                    time <= MAX_MILLIS,
            ;
            assert(MAX_MILLIS * (acc.0 + 2) <= u128::MAX) by (nonlinear_arith)
                requires
                    acc.0 + 1 <= 0x2_0000_0000_0000_0000,
                    MAX_MILLIS == 0x2000_0000_0000_0000,
            ;
        }
        self.run.set_sum_time((acc.0 + 1, acc.1 + time), i);
        self.pending_save = true;
        let best: u128 = self.run.gold_times()[i];
        let gold: bool = time < best || best == 0;
        self.segment_golds.set(i, gold);
        if gold {
            self.status = SplitStatus::Gold;
            self.gold_forced = true;
        }
        proof {
            lemma_prefix_sum_agrees(before.segment_times, self.segment_times@, i as int);
            lemma_prefix_sum_bounded(self.segment_times@, n as int, MAX_MILLIS as int);
            lemma_prefix_sum_bounded(before.run.pb_times, n as int, MAX_MILLIS as int);
            lemma_prefix_sum_monotonic(self.segment_times@, i + 1, n as int);
            lemma_prefix_sum_monotonic(before.run.pb_times, i + 1, n as int);
            lemma_prefix_sum_monotonic(before.run.pb_times, 0, i + 1);
            assert(n * MAX_MILLIS <= 0x1_0000_0000_0000_0000 * MAX_MILLIS) by (nonlinear_arith)
                requires
                    0 <= n <= 0x1_0000_0000_0000_0000,
            ;
        }
        let total: u128 = split_time_sum(self.segment_times.as_slice())[i];
        let best_total: u128 = split_time_sum(self.run.pb_times().as_slice())[i];
        let boundary: i128 = if best_total == 0 {
            0
        } else {
            total as i128 - best_total as i128
        };
        let mut events: Vec<StateChange> = Vec::new();
        events.push(StateChange::ExitSplit { idx: i, status: self.status, time, diff: boundary });
        if i == n - 1 {
            write_golds(&mut self.run, &self.segment_golds, &self.segment_times);
            self.phase = Phase::Finished;
            let pb: u128 = self.run.pb();
            if self.time < pb || pb == 0 {
                self.pending_best_write = true;
                self.queued_times = slice_to_vec(self.segment_times.as_slice());
                self.run.set_pb(self.time);
            }
            events.push(StateChange::Finish);
        } else {
            self.segment_index = i + 1;
            events.push(StateChange::EnterSplit { idx: i + 1 });
        }
        assert(self@ == before.completed(elapsed));
        assert(events@ =~= seq![before.exit_event(elapsed), before.onward_event()]);
        events
    }

    /// Leaves the current segment at clock reading `elapsed` with a zero
    /// duration on record.
    fn skip_segment(&mut self, elapsed: u128) -> (events: Vec<StateChange>)
        requires
            old(self)@.wf(),
            old(self)@.in_segment(),
        ensures
            final(self)@ == old(self)@.skipped(elapsed),
            events@ == seq![
                StateChange::ExitSplit {
                    idx: old(self)@.segment_index,
                    status: old(self)@.status,
                    time: 0,
                    diff: 0,
                },
                old(self)@.onward_event(),
            ],
    {
        let ghost before = self@;
        let i: usize = self.segment_index;
        let n: usize = self.run.len();
        self.segment_times.set(i, 0);
        self.segment_diffs.set(i, 0);
        self.segment_golds.set(i, false);
        self.segment_start = elapsed;
        self.paused_segment = 0;
        let mut events: Vec<StateChange> = Vec::new();
        events.push(StateChange::ExitSplit { idx: i, status: self.status, time: 0, diff: 0 });
        if i == n - 1 {
            self.phase = Phase::Finished;
            events.push(StateChange::Finish);
        } else {
            self.segment_index = i + 1;
            events.push(StateChange::EnterSplit { idx: i + 1 });
        }
        assert(self@ == before.skipped(elapsed));
        assert(events@ =~= seq![
            StateChange::ExitSplit { idx: before.segment_index, status: before.status, time: 0, diff: 0 },
            before.onward_event(),
        ]);
        events
    }

    /// Takes back the latest segment completion.
    fn undo_segment(&mut self)
        requires
            old(self)@.wf(),
            old(self)@.in_segment(),
            old(self)@.segment_index != 0,
        ensures
            final(self)@ == old(self)@.unsplit(),
    {
        let ghost before = self@;
        let i: usize = self.segment_index - 1;
        proof {
            lemma_prefix_sum_monotonic(before.segment_times, 0, i as int);
        }
        self.segment_index = i;
        self.paused_segment = 0;
        self.segment_start = self.segment_start - self.segment_times[i];
        self.segment_diffs.set(i, 0);
        self.segment_times.set(i, 0);
        self.segment_golds.set(i, false);
        self.gold_forced = false;
        assert(self@ == before.unsplit());
    }

    /// Returns to Idle with the per-segment arrays zeroed.
    fn reset(&mut self)
        ensures
            final(self)@ == old(self)@.reset(),
    {
        let n: usize = self.run.len();
        self.paused_total = 0;
        self.paused_segment = 0;
        self.segment_start = 0;
        self.start = 0;
        self.segment_diffs = zero_diff_vec(n);
        self.segment_times = zero_time_vec(n);
        self.segment_golds = no_gold_vec(n);
        self.segment_index = 0;
        self.phase = Phase::Idle;
        self.gold_forced = false;
    }

    /// Moves the comparison mode one step and recomputes the cumulative
    /// reference.
    fn cycle_comparison(&mut self, forward: bool)
        requires
            old(self)@.wf(),
        ensures
            final(self)@ == old(self)@.cycled(forward),
    {
        let ghost before = self@;
        if forward {
            self.comparison.next();
        } else {
            self.comparison.prev();
        }
        proof {
            lemma_reference_series_bounded(before.run, self.comparison);
        }
        self.reference = match self.comparison {
            Comparison::PersonalBest => cumulative_of(self.run.pb_times().as_slice()),
            Comparison::Golds => cumulative_of(self.run.gold_times().as_slice()),
            Comparison::Average => {
                let averages = averages_of(&self.run);
                cumulative_of(averages.as_slice())
            },
            Comparison::NoComparison => {
                let zeros = zero_time_vec(self.run.len());
                cumulative_of(zeros.as_slice())
            },
        };
        assert(self@ == before.cycled(forward));
    }

    /// Handles one request at clock reading `elapsed` and returns the
    /// events it gave rise to. A request that does not apply in the
    /// current phase is absorbed with a single `NoChange` event.
    pub fn handle_scrq(&mut self, rq: &StateChangeRequest, elapsed: u128) -> (events: Vec<
        StateChange,
    >)
        requires
            old(self)@.wf(),
            old(self)@.accepts(elapsed),
            old(self)@.run.has_room(1),
        ensures
            final(self)@ == old(self)@.step(*rq, elapsed),
            events@ == old(self)@.events(*rq, elapsed),
            final(self)@.wf(),
            final(self)@.accepts(elapsed),
            forall|n: nat|
                n >= 1 && old(self)@.run.has_room(n) ==> final(self)@.run.has_room((n - 1) as nat),
            *rq == StateChangeRequest::Split ==> final(self)@.segment_index >= old(
                self,
            )@.segment_index,
            final(self)@.segment_index < old(self)@.segment_index ==> *rq
                == StateChangeRequest::Unsplit || *rq == StateChangeRequest::Reset,
            *rq == StateChangeRequest::Reset ==> {
                &&& final(self)@.phase == Phase::Idle
                &&& final(self)@.segment_index == 0
                &&& final(self)@.segment_times == zero_times(old(self)@.len())
                &&& final(self)@.segment_diffs == zero_diffs(old(self)@.len())
                &&& final(self)@.segment_golds == no_golds(old(self)@.len())
                &&& final(self)@.paused_total == 0
                &&& final(self)@.paused_segment == 0
                &&& events@ == seq![StateChange::Reset { offset: old(self)@.run.offset }]
            },
            *rq is Comparison ==> {
                &&& final(self)@.run == old(self)@.run
                &&& final(self)@ == (RunStateView {
                    comparison: final(self)@.comparison,
                    reference: final(self)@.reference,
                    last_reading: elapsed,
                    ..old(self)@
                })
                &&& events@ == seq![
                    StateChange::ComparisonChanged { comp: final(self)@.comparison },
                ]
            },
    {
        let ghost before = self@;
        proof {
            lemma_step_wf(before, *rq, elapsed);
            lemma_split_keeps_or_raises_index(before, elapsed);
            if before.step(*rq, elapsed).segment_index < before.segment_index {
                lemma_only_unsplit_lowers_index(before, *rq, elapsed);
            }
        }
        self.last_reading = elapsed;
        let in_segment: bool = self.phase == Phase::Running && self.segment_index < self.run.len();
        let mut events: Vec<StateChange> = Vec::new();
        match *rq {
            StateChangeRequest::Pause => {
                if self.phase == Phase::Running {
                    proof {
                        lemma_prefix_sum_monotonic(before.segment_times, 0, before.segment_index as int);
                    }
                    self.phase = Phase::Paused;
                    self.paused_total = self.time;
                    self.paused_segment = self.paused_segment + (elapsed - self.segment_start);
                    events.push(StateChange::Pause);
                } else if self.phase == Phase::Paused {
                    events.push(StateChange::Unpause { status: self.status });
                    self.phase = Phase::Running;
                    self.start = elapsed;
                    self.segment_start = elapsed;
                } else {
                    events.push(StateChange::NoChange);
                }
            },
            StateChangeRequest::Split => {
                if in_segment {
                    events = self.complete_segment(elapsed);
                } else if self.phase == Phase::Idle {
                    self.start = elapsed;
                    self.segment_start = elapsed;
                    self.time = 0;
                    if self.run.offset().is_some() {
                        self.phase = Phase::CountingOffset;
                        events.push(StateChange::EnterOffset);
                    } else {
                        self.phase = Phase::Running;
                        events.push(StateChange::EnterSplit { idx: 0 });
                    }
                } else {
                    events.push(StateChange::NoChange);
                }
            },
            StateChangeRequest::Unsplit => {
                if in_segment && self.segment_index != 0 {
                    self.undo_segment();
                    events.push(StateChange::EnterSplit { idx: self.segment_index });
                } else {
                    events.push(StateChange::NoChange);
                }
            },
            StateChangeRequest::Skip => {
                if in_segment {
                    events = self.skip_segment(elapsed);
                } else {
                    events.push(StateChange::NoChange);
                }
            },
            StateChangeRequest::Reset => {
                self.reset();
                events.push(StateChange::Reset { offset: self.run.offset() });
            },
            StateChangeRequest::Comparison(forward) => {
                self.cycle_comparison(forward);
                events.push(StateChange::ComparisonChanged { comp: self.comparison });
            },
            StateChangeRequest::NoRequest => {
                events.push(StateChange::NoChange);
            },
        }
        assert(self@ == before.step(*rq, elapsed));
        assert(events@ =~= before.events(*rq, elapsed));
        events
    }

    /// Brings the status up to date: none unless the attempt is Running
    /// under a comparison; else Gold in a tick in which a gold segment was
    /// completed, and the pace against the active reference in any other.
    pub fn calc_status(&mut self)
        requires
            old(self)@.wf(),
        ensures
            final(self)@ == old(self)@.classified(),
    {
        if self.comparison == Comparison::NoComparison || self.phase != Phase::Running {
            self.status = SplitStatus::NoStatus;
        } else if self.gold_forced {
            self.status = SplitStatus::Gold;
        } else if self.run.len() == 0 {
            if self.time < self.run.pb() {
                self.status = SplitStatus::Ahead;
            } else {
                self.status = SplitStatus::Behind;
            }
        } else {
            let buffer: i128 = if self.segment_index != 0 {
                self.segment_diffs[self.segment_index - 1]
            } else {
                0
            };
            let reference: u128 = self.reference[self.segment_index];
            let allowed: i128 = reference as i128 - buffer;
            if reference == 0 || allowed == 0 {
                self.status = SplitStatus::Ahead;
            } else {
                let time: i128 = self.time as i128;
                if buffer < 0 {
                    if time > allowed {
                        self.status = SplitStatus::Behind;
                    } else if time < allowed && time > allowed + buffer {
                        self.status = SplitStatus::Losing;
                    } else {
                        self.status = SplitStatus::Ahead;
                    }
                } else {
                    if time > allowed && time < allowed + buffer {
                        self.status = SplitStatus::Gaining;
                    } else if time > allowed && time > allowed + buffer {
                        self.status = SplitStatus::Behind;
                    } else {
                        self.status = SplitStatus::Ahead;
                    }
                }
            }
        }
    }

    /// Starts a tick at clock reading `elapsed`.
    fn refresh(&mut self, elapsed: u128)
        requires
            old(self)@.wf(),
            old(self)@.accepts(elapsed),
        ensures
            final(self)@ == old(self)@.refreshed(elapsed),
    {
        if self.phase == Phase::Running || self.phase == Phase::CountingOffset {
            self.time = (elapsed - self.start) + self.paused_total;
        }
        if self.pending_best_write {
            self.run.set_pb_times(self.queued_times.as_slice());
            self.pending_best_write = false;
        }
        self.gold_forced = false;
        self.last_reading = elapsed;
    }

    /// Handles a batch of requests in order at clock reading `elapsed`.
    fn handle_batch(&mut self, rq: &[StateChangeRequest], elapsed: u128) -> (change: Vec<
        StateChange,
    >)
        requires
            old(self)@.wf(),
            old(self)@.accepts(elapsed),
            old(self)@.run.has_room(rq@.len()),
        ensures
            final(self)@ == old(self)@.after_requests(rq@, elapsed),
            change@ == old(self)@.request_events(rq@, elapsed),
            final(self)@.wf(),
            final(self)@.accepts(elapsed),
    {
        let ghost before = self@;
        let mut change: Vec<StateChange> = Vec::new();
        let mut i: usize = 0;
        while i < rq.len()
            invariant
                i <= rq@.len(),
                self@ == before.after_requests(rq@.take(i as int), elapsed),
                change@ == before.request_events(rq@.take(i as int), elapsed),
                self@.wf(),
                self@.accepts(elapsed),
                self@.run.has_room((rq@.len() - i) as nat),
            decreases rq@.len() - i,
        {
            proof {
                lemma_room_shrinks(self@.run, (rq@.len() - i) as nat, 1);
                assert(rq@.take(i + 1).drop_last() =~= rq@.take(i as int));
                assert(rq@.take(i + 1).last() == rq@[i as int]);
            }
            let mut events = self.handle_scrq(&rq[i], elapsed);
            change.append(&mut events);
            i = i + 1;
        }
        assert(rq@.take(i as int) =~= rq@);
        change
    }

    /// Starts the first segment once the countdown has run out; says
    /// whether it did.
    fn settle_offset(&mut self, elapsed: u128) -> (began: bool)
        ensures
            final(self)@ == old(self)@.settled(elapsed),
            began == old(self)@.offset_elapsed(),
    {
        if self.phase == Phase::CountingOffset {
            match self.run.offset() {
                Some(offset) => {
                    if offset <= self.time {
                        self.phase = Phase::Running;
                        self.start = elapsed;
                        self.segment_start = elapsed;
                        self.time = 0;
                        return true;
                    }
                },
                None => {},
            }
        }
        false
    }

    /// What the tick that ends in the present state reports.
    fn report(&self, change: Vec<StateChange>, elapsed: u128) -> (update: RunUpdate)
        requires
            self@.wf(),
            self@.last_reading == elapsed,
        ensures
            update.change == change,
            update.time == self@.time,
            update.split_time == self@.reported_segment_time(elapsed),
            update.offset == (self@.phase == Phase::CountingOffset),
            update.status == self@.status,
    {
        proof {
            lemma_prefix_sum_monotonic(self@.segment_times, 0, self@.segment_index as int);
        }
        let split_time: u128 = if self.phase == Phase::Paused {
            self.paused_segment
        } else {
            (elapsed - self.segment_start) + self.paused_segment
        };
        RunUpdate {
            change,
            split_time,
            time: self.time,
            offset: self.phase == Phase::CountingOffset,
            status: self.status,
        }
    }

    /// One tick at clock reading `elapsed`: brings the total time up to
    /// date, writes the queued durations of the best attempt into the
    /// record, handles the batch `rq` in order, starts the first segment
    /// once the countdown has run out, and classifies the pace.
    pub fn update(&mut self, rq: &[StateChangeRequest], elapsed: u128) -> (update: RunUpdate)
        requires
            old(self)@.wf(),
            old(self)@.accepts(elapsed),
            old(self)@.run.has_room(rq@.len()),
        ensures
            final(self)@ == old(self)@.tick(rq@, elapsed),
            final(self)@.wf(),
            update.change@ == old(self)@.tick_events(rq@, elapsed),
            update.time == final(self)@.time,
            update.split_time == final(self)@.reported_segment_time(elapsed),
            update.offset == (final(self)@.phase == Phase::CountingOffset),
            update.status == final(self)@.status,
            old(self)@.phase == Phase::Running && no_reset(rq@) && final(self)@.phase
                == Phase::Running ==> update.time >= old(self)@.time,
            !final(self)@.is_classified() ==> update.status == SplitStatus::NoStatus,
    {
        let ghost before = self@;
        proof {
            lemma_tick_wf(before, rq@, elapsed);
            lemma_refreshed_wf(before, elapsed);
            if before.phase == Phase::Running && no_reset(rq@) && before.tick(rq@, elapsed).phase
                == Phase::Running {
                lemma_total_time_monotonic(before, rq@, elapsed);
            }
        }
        self.refresh(elapsed);
        let mut change = self.handle_batch(rq, elapsed);
        proof {
            lemma_settled_wf(self@, elapsed);
        }
        let began = self.settle_offset(elapsed);
        if began {
            change.push(StateChange::EnterSplit { idx: 0 });
        }
        self.calc_status();
        assert(change@ =~= before.tick_events(rq@, elapsed));
        self.report(change, elapsed)
    }

    /// Tells the machine that the record was persisted.
    pub fn saved(&mut self)
        ensures
            final(self)@ == (RunStateView { pending_save: false, ..old(self)@ }),
    {
        self.pending_save = false;
    }
}

} // verus!
