//! The attempt record: the durable history of a category of runs.
use vstd::prelude::*;
use vstd::slice::slice_to_vec;
use crate::timer::limits::{MAX_MILLIS, MEAN_LIMIT, SAMPLE_LIMIT};
use crate::timer::sums::{lemma_prefix_sum_bounded, lemma_prefix_sum_monotonic, prefix_sum};

verus! {

/// The history that a timing session measures an attempt against.
///
/// A record names its segments and keeps, per segment, the duration in the
/// best completed attempt, the best duration ever observed and an
/// accumulator for the running mean. The number of segment names is the
/// record's segment count.
pub struct Run {
    game_title: String,
    category: String,
    offset: Option<u128>,
    pb: u128,
    splits: Vec<String>,
    pb_times: Vec<u128>,
    gold_times: Vec<u128>,
    sum_times: Vec<(u128, u128)>,
}

/// What a [`Run`] holds, as mathematical values.
pub struct RunView {
    /// Free-text title.
    pub game_title: Seq<char>,
    /// Free-text category.
    pub category: Seq<char>,
    /// Length of the lead-in counted down before the first segment, if any.
    pub offset: Option<u128>,
    /// Best total time of a completed attempt; zero when there is none yet.
    pub pb: u128,
    /// Segment names, in order.
    pub splits: Seq<Seq<char>>,
    /// Duration of each segment in the best completed attempt.
    pub pb_times: Seq<u128>,
    /// Best duration ever observed for each segment; zero when there is none.
    pub gold_times: Seq<u128>,
    /// Per segment, the number of samples and their total duration.
    pub sum_times: Seq<(u128, u128)>,
}

impl RunView {
    /// The segment count.
    pub open spec fn len(self) -> nat {
        self.splits.len()
    }

    /// Every per-segment series has exactly one entry per segment.
    pub open spec fn normalized(self) -> bool {
        &&& self.pb_times.len() == self.splits.len()
        &&& self.gold_times.len() == self.splits.len()
        &&& self.sum_times.len() == self.splits.len()
    }

    /// Every duration is at most [`MAX_MILLIS`], and the total of every
    /// accumulator is at most what its samples and one more duration can
    /// add up to. An accumulator may thus hold a total without samples.
    pub open spec fn within_limits(self) -> bool {
        &&& forall|i: int| 0 <= i < self.pb_times.len() ==> #[trigger] self.pb_times[i] <= MAX_MILLIS
        &&& forall|i: int|
            0 <= i < self.gold_times.len() ==> #[trigger] self.gold_times[i] <= MAX_MILLIS
        &&& forall|i: int|
            0 <= i < self.sum_times.len() ==> (#[trigger] self.sum_times[i]).1 <= MAX_MILLIS * (
            self.sum_times[i].0 + 1)
    }

    /// The record can be handed to the timing state machine.
    pub open spec fn wf(self) -> bool {
        self.normalized() && self.within_limits()
    }

    /// Every accumulator can take in `n` more samples.
    pub open spec fn has_room(self, n: nat) -> bool {
        forall|i: int|
            0 <= i < self.sum_times.len() ==> (#[trigger] self.sum_times[i]).0 + n <= SAMPLE_LIMIT
    }

    /// The total of the best segment durations.
    pub open spec fn sum_of_best(self) -> int {
        prefix_sum(self.gold_times, self.gold_times.len() as int)
    }

    /// The running mean duration of segment `i`: the accumulated total
    /// divided by the number of samples, and zero while there is no sample.
    pub open spec fn average(self, i: int) -> int {
        mean(self.sum_times[i])
    }

    /// The running mean of every segment, in order.
    pub open spec fn averages(self) -> Seq<u128> {
        Seq::new(self.sum_times.len(), |i: int| self.average(i) as u128)
    }
}

/// Mean of an accumulator `(samples, total)`, rounded down; zero without
/// samples.
pub open spec fn mean(acc: (u128, u128)) -> int {
    if acc.0 == 0 {
        0
    } else {
        acc.1 as int / acc.0 as int
    }
}

/// An accumulator whose total is at most what its samples and one more
/// duration can add up to has a mean of at most `MEAN_LIMIT`.
pub proof fn lemma_mean_bounded(acc: (u128, u128))
    requires
        acc.1 <= MAX_MILLIS * (acc.0 + 1),
    ensures
        0 <= mean(acc) <= MEAN_LIMIT,
{
    if acc.0 != 0 {
        let n = acc.0 as int;
        let t = acc.1 as int;
        let m = MAX_MILLIS as int;
        assert(0 <= t / n <= 2 * m) by (nonlinear_arith)
            requires
                0 < n,
                0 <= m,
                0 <= t <= m * (n + 1),
        ;
    }
}

/// The sum of best of a record within the limits, with no more segments
/// than a machine can hold, fits 128 bits.
pub proof fn lemma_sum_of_best_fits(run: RunView)
    requires
        run.within_limits(),
        run.gold_times.len() <= usize::MAX,
    ensures
        0 <= run.sum_of_best() <= u128::MAX,
{
    let n = run.gold_times.len() as int;
    lemma_prefix_sum_bounded(run.gold_times, n, MAX_MILLIS as int);
    lemma_prefix_sum_monotonic(run.gold_times, 0, n);
    assert(n * MAX_MILLIS <= 0x1_0000_0000_0000_0000 * MAX_MILLIS) by (nonlinear_arith)
        requires
            0 <= n <= 0x1_0000_0000_0000_0000,
    ;
}

impl View for Run {
    type V = RunView;

    closed spec fn view(&self) -> RunView {
        RunView {
            game_title: self.game_title@,
            category: self.category@,
            offset: self.offset,
            pb: self.pb,
            splits: self.splits.deep_view(),
            pb_times: self.pb_times@,
            gold_times: self.gold_times@,
            sum_times: self.sum_times@,
        }
    }
}

impl Run {
    /// A record with the given contents, taken as they are. The
    /// per-segment series need not match the number of segment names yet:
    /// see [`RunView::normalized`].
    pub fn new(
        game_title: String,
        category: String,
        offset: Option<u128>,
        pb: u128,
        splits: Vec<String>,
        pb_times: Vec<u128>,
        gold_times: Vec<u128>,
        sum_times: Vec<(u128, u128)>,
    ) -> (run: Run)
        ensures
            run@ == (RunView {
                game_title: game_title@,
                category: category@,
                offset,
                pb,
                splits: splits.deep_view(),
                pb_times: pb_times@,
                gold_times: gold_times@,
                sum_times: sum_times@,
            }),
    {
        Run { game_title, category, offset, pb, splits, pb_times, gold_times, sum_times }
    }

    /// The segment count.
    pub fn len(&self) -> (n: usize)
        ensures
            n == self@.len(),
    {
        self.splits.len()
    }

    /// The title.
    pub fn game_title(&self) -> (title: &str)
        ensures
            title@ == self@.game_title,
    {
        self.game_title.as_str()
    }

    /// The category.
    pub fn category(&self) -> (category: &str)
        ensures
            category@ == self@.category,
    {
        self.category.as_str()
    }

    /// The lead-in before the first segment, if the record has one.
    pub fn offset(&self) -> (offset: Option<u128>)
        ensures
            offset == self@.offset,
    {
        self.offset
    }

    /// The best total time; zero when no attempt was completed yet.
    pub fn pb(&self) -> (pb: u128)
        ensures
            pb == self@.pb,
    {
        self.pb
    }

    /// The segment names.
    pub fn splits(&self) -> (splits: &Vec<String>)
        ensures
            splits.deep_view() == self@.splits,
    {
        &self.splits
    }

    /// The segment durations of the best completed attempt.
    pub fn pb_times(&self) -> (times: &Vec<u128>)
        ensures
            times@ == self@.pb_times,
    {
        &self.pb_times
    }

    /// The best duration ever observed for each segment.
    pub fn gold_times(&self) -> (times: &Vec<u128>)
        ensures
            times@ == self@.gold_times,
    {
        &self.gold_times
    }

    /// The running-average accumulators, `(samples, total)` per segment.
    pub fn sum_times(&self) -> (sums: &Vec<(u128, u128)>)
        ensures
            sums@ == self@.sum_times,
    {
        &self.sum_times
    }

    /// Replaces the best total time.
    pub fn set_pb(&mut self, pb: u128)
        ensures
            final(self)@ == (RunView { pb, ..old(self)@ }),
    {
        self.pb = pb;
    }

    /// Replaces the segment durations of the best attempt by a copy of
    /// `times`.
    pub fn set_pb_times(&mut self, times: &[u128])
        ensures
            final(self)@ == (RunView { pb_times: times@, ..old(self)@ }),
    {
        self.pb_times = slice_to_vec(times);
    }

    /// Replaces the best duration of segment `idx`.
    pub fn set_gold_time(&mut self, time: u128, idx: usize)
        requires
            idx < old(self)@.gold_times.len(),
        ensures
            final(self)@ == (RunView {
                gold_times: old(self)@.gold_times.update(idx as int, time),
                ..old(self)@
            }),
    {
        self.gold_times.set(idx, time);
    }

    /// Replaces the running-average accumulator of segment `idx`.
    pub fn set_sum_time(&mut self, sum: (u128, u128), idx: usize)
        requires
            idx < old(self)@.sum_times.len(),
        ensures
            final(self)@ == (RunView {
                sum_times: old(self)@.sum_times.update(idx as int, sum),
                ..old(self)@
            }),
    {
        self.sum_times.set(idx, sum);
    }

    /// The sum of best: the total of the best segment durations, the best
    /// total that the segments on record add up to.
    pub fn sum_of_best(&self) -> (sum: u128)
        requires
            self@.sum_of_best() <= u128::MAX,
        ensures
            sum == self@.sum_of_best(),
    {
        let mut sum: u128 = 0;
        let mut i: usize = 0;
        while i < self.gold_times.len()
            invariant
                i <= self.gold_times@.len(),
                sum == prefix_sum(self.gold_times@, i as int),
                prefix_sum(self.gold_times@, self.gold_times@.len() as int) <= u128::MAX,
            decreases self.gold_times@.len() - i,
        {
            proof {
                lemma_prefix_sum_monotonic(self.gold_times@, i + 1, self.gold_times@.len() as int);
            }
            sum = sum + self.gold_times[i];
            i = i + 1;
        }
        sum
    }

    /// Whether the record is normalized and within the timer's limits, that
    /// is, whether a timing session can be started on it.
    pub fn is_valid(&self) -> (valid: bool)
        ensures
            valid == self@.wf(),
    {
        let n: usize = self.splits.len();
        if self.pb_times.len() != n || self.gold_times.len() != n || self.sum_times.len() != n {
            return false;
        }
        let mut i: usize = 0;
        while i < n
            invariant
                i <= n,
                n == self.splits@.len(),
                self.pb_times@.len() == n,
                self.gold_times@.len() == n,
                self.sum_times@.len() == n,
                forall|j: int| 0 <= j < i ==> #[trigger] self.pb_times@[j] <= MAX_MILLIS,
                forall|j: int| 0 <= j < i ==> #[trigger] self.gold_times@[j] <= MAX_MILLIS,
                forall|j: int|
                    0 <= j < i ==> (#[trigger] self.sum_times@[j]).1 <= MAX_MILLIS * (
                    self.sum_times@[j].0 + 1),
            decreases n - i,
        {
            let (samples, total) = self.sum_times[i];
            if self.pb_times[i] > MAX_MILLIS || self.gold_times[i] > MAX_MILLIS {
                return false;
            }
            // From 2^67 - 1 samples on the bound on the total exceeds every
            // `u128`.
            if samples < 0x7_ffff_ffff_ffff_ffff && total > MAX_MILLIS * (samples + 1) {
                return false;
            }
            i = i + 1;
        }
        true
    }

    /// Whether every running-average accumulator can take in `n` more
    /// samples.
    pub fn has_room(&self, n: usize) -> (room: bool)
        ensures
            room == self@.has_room(n as nat),
    {
        let mut i: usize = 0;
        while i < self.sum_times.len()
            invariant
                i <= self.sum_times@.len(),
                forall|j: int|
                    0 <= j < i ==> (#[trigger] self.sum_times@[j]).0 + n <= SAMPLE_LIMIT,
            decreases self.sum_times@.len() - i,
        {
            let samples: u128 = self.sum_times[i].0;
            if samples > SAMPLE_LIMIT || n as u128 > SAMPLE_LIMIT - samples {
                assert(self@.sum_times[i as int].0 + n > SAMPLE_LIMIT);
                return false;
            }
            i = i + 1;
        }
        true
    }
}

impl Default for Run {
    /// The empty record: no title, no segments, no best time, no lead-in.
    fn default() -> (run: Run)
        ensures
            run@ == (RunView {
                game_title: Seq::<char>::empty(),
                category: Seq::<char>::empty(),
                offset: Option::<u128>::None,
                pb: 0,
                splits: Seq::<Seq<char>>::empty(),
                pb_times: Seq::<u128>::empty(),
                gold_times: Seq::<u128>::empty(),
                sum_times: Seq::<(u128, u128)>::empty(),
            }),
            run@.wf(),
    {
        let run = Run {
            game_title: String::new(),
            category: String::new(),
            offset: None,
            pb: 0,
            splits: Vec::new(),
            pb_times: Vec::new(),
            gold_times: Vec::new(),
            sum_times: Vec::new(),
        };
        assert(run.splits.deep_view() =~= Seq::<Seq<char>>::empty());
        run
    }
}

} // verus!
