//! The mathematical model of the timing state machine: what a state holds
//! and how requests and clock readings transform it.
use vstd::prelude::*;
use crate::timer::comparison::Comparison;
use crate::timer::limits::{MAX_MILLIS, MEAN_LIMIT, REFERENCE_LIMIT};
use crate::timer::run::{mean, RunView};
use crate::timer::state::{Phase, SplitStatus, StateChange, StateChangeRequest};
use crate::timer::sums::prefix_sum;

verus! {

/// What a timing state holds, as mathematical values.
pub struct RunStateView {
    /// The attempt record that the session measures against.
    pub run: RunView,
    /// The lifecycle phase.
    pub phase: Phase,
    /// The latest pace classification.
    pub status: SplitStatus,
    /// The active comparison mode.
    pub comparison: Comparison,
    /// Duration recorded for each segment of this attempt.
    pub segment_times: Seq<u128>,
    /// Signed distance of each recorded duration from its reference.
    pub segment_diffs: Seq<i128>,
    /// Whether each recorded duration beat the record's best.
    pub segment_golds: Seq<bool>,
    /// Cumulative reference time at each segment boundary, under the mode
    /// that was active when it was last computed.
    pub reference: Seq<u128>,
    /// Total time of the attempt when it was last paused.
    pub paused_total: u128,
    /// Time spent in the current segment before the latest pause.
    pub paused_segment: u128,
    /// Clock reading from which the current segment is timed.
    pub segment_start: u128,
    /// Clock reading from which the attempt is timed.
    pub start: u128,
    /// Total time of the attempt as of the latest tick.
    pub time: u128,
    /// Index of the segment in progress.
    pub segment_index: usize,
    /// The record changed and has not been persisted since.
    pub pending_save: bool,
    /// The durations in `queued_times` are to be written into the record
    /// as those of the best attempt at the start of the next tick.
    pub pending_best_write: bool,
    /// The durations of the latest attempt that improved on the best total,
    /// as they stood when it finished.
    pub queued_times: Seq<u128>,
    /// A gold segment was completed during the current tick.
    pub gold_forced: bool,
    /// The latest clock reading seen.
    pub last_reading: u128,
}

/// A series of `n` zero durations.
pub open spec fn zero_times(n: nat) -> Seq<u128> {
    Seq::new(n, |i: int| 0u128)
}

/// A series of `n` zero differences.
pub open spec fn zero_diffs(n: nat) -> Seq<i128> {
    Seq::new(n, |i: int| 0i128)
}

/// A series of `n` cleared flags.
pub open spec fn no_golds(n: nat) -> Seq<bool> {
    Seq::new(n, |i: int| false)
}

/// The cumulative series of `s`, entry by entry.
pub open spec fn cumulative(s: Seq<u128>) -> Seq<u128> {
    Seq::new(s.len(), |i: int| prefix_sum(s, i + 1) as u128)
}

/// The per-segment series that comparison mode `mode` measures against.
pub open spec fn reference_series(run: RunView, mode: Comparison) -> Seq<u128> {
    match mode {
        Comparison::PersonalBest => run.pb_times,
        Comparison::Golds => run.gold_times,
        Comparison::Average => run.averages(),
        Comparison::NoComparison => zero_times(run.len()),
    }
}

/// Whether a segment completed in `time` is a gold against the stored
/// best `best`: it is when it is faster, or when nothing is stored yet.
pub open spec fn is_gold(time: int, best: u128) -> bool {
    time < best || best == 0
}

/// The classification of a live total `time` when `allowed` is the
/// cumulative reference through the current segment less `buffer`, the
/// signed distance from the reference at the end of the previous segment.
pub open spec fn pace_against(time: int, allowed: int, buffer: int) -> SplitStatus {
    if buffer < 0 {
        if time > allowed {
            SplitStatus::Behind
        } else if time < allowed && time > allowed + buffer {
            SplitStatus::Losing
        } else {
            SplitStatus::Ahead
        }
    } else {
        if time > allowed && time < allowed + buffer {
            SplitStatus::Gaining
        } else if time > allowed && time > allowed + buffer {
            SplitStatus::Behind
        } else {
            SplitStatus::Ahead
        }
    }
}

/// The best segment durations after an attempt is completed: where the
/// attempt's duration is flagged gold it replaces the stored best.
pub open spec fn merged_golds(best: Seq<u128>, golds: Seq<bool>, times: Seq<u128>) -> Seq<u128> {
    Seq::new(
        best.len(),
        |i: int|
            if golds[i] {
                times[i]
            } else {
                best[i]
            },
    )
}

impl RunStateView {
    /// The segment count of the record.
    pub open spec fn len(self) -> nat {
        self.run.len()
    }

    /// The state of a fresh session on `run`: idle, compared against the
    /// best attempt, with every per-segment value neutral.
    pub open spec fn initial(run: RunView) -> RunStateView {
        RunStateView {
            run,
            phase: Phase::Idle,
            status: SplitStatus::NoStatus,
            comparison: Comparison::PersonalBest,
            segment_times: zero_times(run.len()),
            segment_diffs: zero_diffs(run.len()),
            segment_golds: no_golds(run.len()),
            reference: cumulative(run.pb_times),
            paused_total: 0,
            paused_segment: 0,
            segment_start: 0,
            start: 0,
            time: 0,
            segment_index: 0,
            pending_save: false,
            pending_best_write: false,
            queued_times: Seq::empty(),
            gold_forced: false,
            last_reading: 0,
        }
    }

    /// The invariant of the state machine: the record is well formed, the
    /// per-segment arrays have one entry per segment, the segment index
    /// points into them, every stored time is within the timer's limits,
    /// no stored reading lies ahead of the clock, the total time is not
    /// ahead of what the clock gives for it, and the gold override is set
    /// only past a completed segment.
    pub open spec fn wf(self) -> bool {
        let n = self.run.len();
        &&& self.run.wf()
        &&& n <= usize::MAX
        &&& self.segment_times.len() == n
        &&& self.segment_diffs.len() == n
        &&& self.segment_golds.len() == n
        &&& self.reference.len() == n
        &&& (self.segment_index == 0 || self.segment_index < n)
        &&& forall|i: int| 0 <= i < n ==> #[trigger] self.segment_times[i] <= MAX_MILLIS
        &&& forall|i: int|
            0 <= i < n ==> -(MEAN_LIMIT as int) <= #[trigger] self.segment_diffs[i] <= MAX_MILLIS
        &&& forall|i: int| 0 <= i < n ==> #[trigger] self.reference[i] <= REFERENCE_LIMIT
        &&& self.last_reading <= MAX_MILLIS
        &&& self.start <= self.last_reading
        &&& self.segment_start <= self.last_reading
        &&& self.time <= self.last_reading
        &&& self.paused_total <= self.last_reading
        &&& self.recorded() + self.paused_segment <= self.last_reading
        &&& self.phase == Phase::Running ==> {
            &&& self.paused_total <= self.start
            &&& self.recorded() + self.paused_segment <= self.segment_start
            &&& self.time <= (self.last_reading - self.start) + self.paused_total
        }
        &&& self.phase == Phase::Paused ==> self.time <= self.paused_total
        &&& self.gold_forced ==> {
            &&& n > 0
            &&& self.phase == Phase::Finished || ((self.phase == Phase::Running || self.phase
                == Phase::Paused) && self.segment_index > 0)
        }
        &&& self.pending_best_write ==> {
            &&& self.queued_times.len() == n
            &&& forall|i: int| 0 <= i < n ==> #[trigger] self.queued_times[i] <= MAX_MILLIS
        }
        &&& self.phase == Phase::CountingOffset ==> {
            &&& self.paused_total <= self.start
            &&& self.run.offset is Some
        }
    }

    /// Total of the durations recorded for the segments before the one in
    /// progress.
    pub open spec fn recorded(self) -> int {
        prefix_sum(self.segment_times, self.segment_index as int)
    }

    /// A clock reading that the state can take: not before the latest one
    /// seen, and within the timer's limit.
    pub open spec fn accepts(self, elapsed: u128) -> bool {
        self.last_reading <= elapsed <= MAX_MILLIS
    }

    /// The total time of the attempt at clock reading `elapsed`: while the
    /// clock counts, the time since the attempt was started or resumed plus
    /// the total at the latest pause; otherwise the total as last computed.
    pub open spec fn live_time(self, elapsed: u128) -> int {
        if self.phase == Phase::Running || self.phase == Phase::CountingOffset {
            (elapsed - self.start) + self.paused_total
        } else {
            self.time as int
        }
    }

    /// The time within the current segment at clock reading `elapsed`: the
    /// time since the segment was started or resumed plus what the segment
    /// had taken before the latest pause.
    pub open spec fn live_segment_time(self, elapsed: u128) -> int {
        (elapsed - self.segment_start) + self.paused_segment
    }

    /// The time within the current segment that a tick at clock reading
    /// `elapsed` reports: frozen at what the segment had taken when the
    /// attempt was paused, and live otherwise.
    pub open spec fn reported_segment_time(self, elapsed: u128) -> int {
        if self.phase == Phase::Paused {
            self.paused_segment as int
        } else {
            self.live_segment_time(elapsed)
        }
    }

    /// The state at the start of a tick at reading `elapsed`: the total
    /// time is brought up to date, the queued durations of the best attempt
    /// are written into the record, and the gold override of the previous
    /// tick ends.
    pub open spec fn refreshed(self, elapsed: u128) -> RunStateView {
        RunStateView {
            time: self.live_time(elapsed) as u128,
            run: if self.pending_best_write {
                RunView { pb_times: self.queued_times, ..self.run }
            } else {
                self.run
            },
            pending_best_write: false,
            gold_forced: false,
            last_reading: elapsed,
            ..self
        }
    }

    /// Running to Paused: the live times are frozen into the pause
    /// accumulators.
    pub open spec fn paused(self, elapsed: u128) -> RunStateView {
        RunStateView {
            phase: Phase::Paused,
            paused_total: self.time,
            paused_segment: self.live_segment_time(elapsed) as u128,
            ..self
        }
    }

    /// Paused to Running: both starting points move to the present.
    pub open spec fn resumed(self, elapsed: u128) -> RunStateView {
        RunStateView { phase: Phase::Running, start: elapsed, segment_start: elapsed, ..self }
    }

    /// Idle to the start of an attempt: into the countdown when the record
    /// has a lead-in, else straight into the first segment.
    pub open spec fn started(self, elapsed: u128) -> RunStateView {
        RunStateView {
            phase: if self.run.offset is Some {
                Phase::CountingOffset
            } else {
                Phase::Running
            },
            start: elapsed,
            segment_start: elapsed,
            time: 0,
            ..self
        }
    }

    /// The duration that the active comparison mode expects of the current
    /// segment.
    pub open spec fn reference_duration(self) -> int {
        let i = self.segment_index as int;
        match self.comparison {
            Comparison::PersonalBest => self.run.pb_times[i] as int,
            Comparison::Golds => self.run.gold_times[i] as int,
            Comparison::Average => mean(self.run.sum_times[i]),
            Comparison::NoComparison => 0,
        }
    }

    /// The signed distance of the current segment, completed at `elapsed`,
    /// from its reference duration; zero when nothing is compared.
    pub open spec fn split_diff(self, elapsed: u128) -> int {
        if self.comparison == Comparison::NoComparison {
            0
        } else {
            self.live_segment_time(elapsed) - self.reference_duration()
        }
    }

    /// Whether the current segment, completed at `elapsed`, is a gold.
    pub open spec fn completes_gold(self, elapsed: u128) -> bool {
        is_gold(self.live_segment_time(elapsed), self.run.gold_times[self.segment_index as int])
    }

    /// The cumulative time of the best attempt at the end of the current
    /// segment; zero when there is no best attempt to go by.
    pub open spec fn best_at_boundary(self) -> int {
        prefix_sum(self.run.pb_times, self.segment_index + 1)
    }

    /// The signed distance, at the end of the current segment completed at
    /// `elapsed`, of this attempt's cumulative time from that of the best
    /// attempt; zero when there is no best attempt to go by.
    pub open spec fn boundary_diff(self, elapsed: u128) -> int {
        if self.best_at_boundary() == 0 {
            0
        } else {
            self.recorded() + self.live_segment_time(elapsed) - self.best_at_boundary()
        }
    }

    /// Whether the total time of this attempt improves on the record's
    /// best: strictly less, or no best yet.
    pub open spec fn improves_best(self) -> bool {
        self.time < self.run.pb || self.run.pb == 0
    }

    /// A segment completed while Running. Its duration and distance from
    /// the reference are recorded and the running average takes the
    /// duration in. The gold flag says whether the duration beat the
    /// record's best, and a gold forces the status. After the
    /// last segment the attempt is finished: the flagged golds go into the
    /// record and, where the total improves on the best, so does the
    /// total, with the durations, as they stand now, queued for the next
    /// tick. Before it the next segment begins.
    pub open spec fn completed(self, elapsed: u128) -> RunStateView {
        let i = self.segment_index as int;
        let time = self.live_segment_time(elapsed) as u128;
        let gold = self.completes_gold(elapsed);
        let acc = self.run.sum_times[i];
        let times = self.segment_times.update(i, time);
        let golds = self.segment_golds.update(i, gold);
        let sampled = RunView {
            sum_times: self.run.sum_times.update(i, ((acc.0 + 1) as u128, (acc.1 + time) as u128)),
            ..self.run
        };
        let s = RunStateView {
            run: sampled,
            segment_times: times,
            segment_diffs: self.segment_diffs.update(i, self.split_diff(elapsed) as i128),
            segment_golds: golds,
            status: if gold {
                SplitStatus::Gold
            } else {
                self.status
            },
            gold_forced: gold || self.gold_forced,
            segment_start: elapsed,
            paused_segment: 0,
            pending_save: true,
            ..self
        };
        if i == self.len() - 1 {
            RunStateView {
                run: RunView {
                    gold_times: merged_golds(sampled.gold_times, golds, times),
                    pb: if self.improves_best() {
                        self.time
                    } else {
                        self.run.pb
                    },
                    ..sampled
                },
                phase: Phase::Finished,
                pending_best_write: self.improves_best() || self.pending_best_write,
                queued_times: if self.improves_best() {
                    times
                } else {
                    self.queued_times
                },
                ..s
            }
        } else {
            RunStateView { segment_index: (i + 1) as usize, ..s }
        }
    }

    /// The latest completion taken back while Running: the previous
    /// segment is in progress again, as if it had never ended, and what was
    /// recorded for it is cleared.
    pub open spec fn unsplit(self) -> RunStateView {
        let i = self.segment_index - 1;
        RunStateView {
            segment_index: i as usize,
            paused_segment: 0,
            segment_start: (self.segment_start - self.segment_times[i]) as u128,
            segment_diffs: self.segment_diffs.update(i, 0),
            segment_times: self.segment_times.update(i, 0),
            segment_golds: self.segment_golds.update(i, false),
            gold_forced: false,
            ..self
        }
    }

    /// The current segment left while Running, with a zero duration on
    /// record and no gold. After the last segment the attempt is finished.
    pub open spec fn skipped(self, elapsed: u128) -> RunStateView {
        let i = self.segment_index as int;
        let s = RunStateView {
            segment_times: self.segment_times.update(i, 0),
            segment_diffs: self.segment_diffs.update(i, 0),
            segment_golds: self.segment_golds.update(i, false),
            segment_start: elapsed,
            paused_segment: 0,
            ..self
        };
        if i == self.len() - 1 {
            RunStateView { phase: Phase::Finished, ..s }
        } else {
            RunStateView { segment_index: (i + 1) as usize, ..s }
        }
    }

    /// Back to Idle from any phase, with the per-segment arrays zeroed at
    /// the record's segment count.
    pub open spec fn reset(self) -> RunStateView {
        RunStateView {
            phase: Phase::Idle,
            paused_total: 0,
            paused_segment: 0,
            segment_start: 0,
            start: 0,
            segment_times: zero_times(self.len()),
            segment_diffs: zero_diffs(self.len()),
            segment_golds: no_golds(self.len()),
            segment_index: 0,
            gold_forced: false,
            ..self
        }
    }

    /// The comparison mode moved one step, forward or back, and the
    /// cumulative reference recomputed from the series of the new mode.
    pub open spec fn cycled(self, forward: bool) -> RunStateView {
        let mode = if forward {
            self.comparison.successor()
        } else {
            self.comparison.predecessor()
        };
        RunStateView {
            comparison: mode,
            reference: cumulative(reference_series(self.run, mode)),
            ..self
        }
    }

    /// Whether a segment is in progress that a request can act on: the
    /// attempt is Running and the record has segments.
    pub open spec fn in_segment(self) -> bool {
        self.phase == Phase::Running && self.segment_index < self.len()
    }

    /// The state after one request at clock reading `elapsed`. A request
    /// that does not apply in the current phase changes nothing but the
    /// latest reading.
    pub open spec fn step(self, rq: StateChangeRequest, elapsed: u128) -> RunStateView {
        let s = RunStateView { last_reading: elapsed, ..self };
        match rq {
            StateChangeRequest::Pause => if self.phase == Phase::Running {
                s.paused(elapsed)
            } else if self.phase == Phase::Paused {
                s.resumed(elapsed)
            } else {
                s
            },
            StateChangeRequest::Split => if self.in_segment() {
                s.completed(elapsed)
            } else if self.phase == Phase::Idle {
                s.started(elapsed)
            } else {
                s
            },
            StateChangeRequest::Unsplit => if self.in_segment() && self.segment_index != 0 {
                s.unsplit()
            } else {
                s
            },
            StateChangeRequest::Skip => if self.in_segment() {
                s.skipped(elapsed)
            } else {
                s
            },
            StateChangeRequest::Reset => s.reset(),
            StateChangeRequest::Comparison(forward) => s.cycled(forward),
            StateChangeRequest::NoRequest => s,
        }
    }

    /// The event that ends the current segment when it is completed at
    /// `elapsed`.
    pub open spec fn exit_event(self, elapsed: u128) -> StateChange {
        StateChange::ExitSplit {
            idx: self.segment_index,
            status: if self.completes_gold(elapsed) {
                SplitStatus::Gold
            } else {
                self.status
            },
            time: self.live_segment_time(elapsed) as u128,
            diff: self.boundary_diff(elapsed) as i128,
        }
    }

    /// The event that follows the end of the current segment: the next
    /// segment begins, or the attempt is finished.
    pub open spec fn onward_event(self) -> StateChange {
        if self.segment_index == self.len() - 1 {
            StateChange::Finish
        } else {
            StateChange::EnterSplit { idx: (self.segment_index + 1) as usize }
        }
    }

    /// The events that one request at clock reading `elapsed` gives rise
    /// to, in order.
    pub open spec fn events(self, rq: StateChangeRequest, elapsed: u128) -> Seq<StateChange> {
        match rq {
            StateChangeRequest::Pause => if self.phase == Phase::Running {
                seq![StateChange::Pause]
            } else if self.phase == Phase::Paused {
                seq![StateChange::Unpause { status: self.status }]
            } else {
                seq![StateChange::NoChange]
            },
            StateChangeRequest::Split => if self.in_segment() {
                seq![self.exit_event(elapsed), self.onward_event()]
            } else if self.phase == Phase::Idle {
                if self.run.offset is Some {
                    seq![StateChange::EnterOffset]
                } else {
                    seq![StateChange::EnterSplit { idx: 0 }]
                }
            } else {
                seq![StateChange::NoChange]
            },
            StateChangeRequest::Unsplit => if self.in_segment() && self.segment_index != 0 {
                seq![StateChange::EnterSplit { idx: (self.segment_index - 1) as usize }]
            } else {
                seq![StateChange::NoChange]
            },
            StateChangeRequest::Skip => if self.in_segment() {
                seq![
                    StateChange::ExitSplit {
                        idx: self.segment_index,
                        status: self.status,
                        time: 0,
                        diff: 0,
                    },
                    self.onward_event(),
                ]
            } else {
                seq![StateChange::NoChange]
            },
            StateChangeRequest::Reset => seq![StateChange::Reset { offset: self.run.offset }],
            StateChangeRequest::Comparison(forward) => seq![
                StateChange::ComparisonChanged { comp: self.cycled(forward).comparison },
            ],
            StateChangeRequest::NoRequest => seq![StateChange::NoChange],
        }
    }

    /// The state after a batch of requests, handled in order at one clock
    /// reading.
    pub open spec fn after_requests(
        self,
        rqs: Seq<StateChangeRequest>,
        elapsed: u128,
    ) -> RunStateView
        decreases rqs.len(),
    {
        if rqs.len() == 0 {
            self
        } else {
            self.after_requests(rqs.drop_last(), elapsed).step(rqs.last(), elapsed)
        }
    }

    /// The events of a batch of requests, in order.
    pub open spec fn request_events(
        self,
        rqs: Seq<StateChangeRequest>,
        elapsed: u128,
    ) -> Seq<StateChange>
        decreases rqs.len(),
    {
        if rqs.len() == 0 {
            Seq::empty()
        } else {
            self.request_events(rqs.drop_last(), elapsed) + self.after_requests(
                rqs.drop_last(),
                elapsed,
            ).events(rqs.last(), elapsed)
        }
    }

    /// Whether the countdown of the lead-in has run out.
    pub open spec fn offset_elapsed(self) -> bool {
        &&& self.phase == Phase::CountingOffset
        &&& self.run.offset is Some
        &&& self.run.offset->Some_0 <= self.time
    }

    /// The countdown checked at clock reading `elapsed`: once it has run
    /// out the first segment begins, and the total time with it, from zero.
    pub open spec fn settled(self, elapsed: u128) -> RunStateView {
        if self.offset_elapsed() {
            RunStateView {
                phase: Phase::Running,
                start: elapsed,
                segment_start: elapsed,
                time: 0,
                ..self
            }
        } else {
            self
        }
    }

    /// The signed distance from the reference at the end of the previous
    /// segment; zero in the first segment.
    pub open spec fn buffer(self) -> int {
        if self.segment_index != 0 {
            self.segment_diffs[self.segment_index - 1] as int
        } else {
            0
        }
    }

    /// The time that the attempt may take through the current segment: the
    /// cumulative reference less the buffer.
    pub open spec fn allowed(self) -> int {
        self.reference[self.segment_index as int] - self.buffer()
    }

    /// The pace of the attempt against the active reference. Nothing is
    /// classified unless the attempt is Running under a comparison. A
    /// record without segments is measured by its best total alone. A
    /// cumulative reference of zero, or an allowed time of zero, counts as
    /// no data, and the attempt as ahead.
    pub open spec fn pace(self) -> SplitStatus {
        if self.comparison == Comparison::NoComparison || self.phase != Phase::Running {
            SplitStatus::NoStatus
        } else if self.len() == 0 {
            if self.time < self.run.pb {
                SplitStatus::Ahead
            } else {
                SplitStatus::Behind
            }
        } else if self.reference[self.segment_index as int] == 0 || self.allowed() == 0 {
            SplitStatus::Ahead
        } else {
            pace_against(self.time as int, self.allowed(), self.buffer())
        }
    }

    /// Whether anything is classified: the attempt is Running and measured
    /// against a reference.
    pub open spec fn is_classified(self) -> bool {
        self.comparison != Comparison::NoComparison && self.phase == Phase::Running
    }

    /// The state with its status brought up to date: none where nothing is
    /// classified; else Gold in a tick in which a gold segment was
    /// completed, and the pace in any other.
    pub open spec fn classified(self) -> RunStateView {
        RunStateView {
            status: if !self.is_classified() {
                SplitStatus::NoStatus
            } else if self.gold_forced {
                SplitStatus::Gold
            } else {
                self.pace()
            },
            ..self
        }
    }

    /// The state after one tick at clock reading `elapsed` with the batch
    /// `rqs`.
    pub open spec fn tick(self, rqs: Seq<StateChangeRequest>, elapsed: u128) -> RunStateView {
        self.refreshed(elapsed).after_requests(rqs, elapsed).settled(elapsed).classified()
    }

    /// The events of one tick: those of the batch, then the start of the
    /// first segment where the countdown ran out.
    pub open spec fn tick_events(
        self,
        rqs: Seq<StateChangeRequest>,
        elapsed: u128,
    ) -> Seq<StateChange> {
        let handled = self.refreshed(elapsed).after_requests(rqs, elapsed);
        self.refreshed(elapsed).request_events(rqs, elapsed) + if handled.offset_elapsed() {
            seq![StateChange::EnterSplit { idx: 0 }]
        } else {
            Seq::<StateChange>::empty()
        }
    }
}

} // verus!
