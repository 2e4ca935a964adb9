//! Reading and writing the files of the timer: the configuration and the
//! split file.
pub mod config;
pub mod msf;
pub use config::Config;
pub use msf::MsfParser;
use vstd::prelude::*;
use crate::timer::run::{Run, RunView};

verus! {

/// The series `s` brought to length `n`: cut where it is longer, filled
/// up with `fill` where it is shorter.
pub open spec fn fitted<T>(s: Seq<T>, n: nat, fill: T) -> Seq<T> {
    Seq::new(
        n,
        |i: int|
            if i < s.len() {
                s[i]
            } else {
                fill
            },
    )
}

/// The record `run` with every per-segment series brought to the segment
/// count: what is on record stays in place, missing durations are zero
/// and missing accumulators empty.
pub open spec fn sanified(run: RunView) -> RunView {
    RunView {
        pb_times: fitted(run.pb_times, run.len(), 0u128),
        gold_times: fitted(run.gold_times, run.len(), 0u128),
        sum_times: fitted(run.sum_times, run.len(), (0u128, 0u128)),
        ..run
    }
}

/// Normalizing gives a normalized record, keeps every entry that stands
/// at a segment's place, changes nothing in a record that is normalized
/// already, and keeps a record within the limits.
pub proof fn lemma_sanified(run: RunView)
    ensures
        sanified(run).normalized(),
        forall|i: int|
            0 <= i < run.len() && i < run.pb_times.len() ==> sanified(run).pb_times[i]
                == run.pb_times[i],
        forall|i: int|
            0 <= i < run.len() && i < run.gold_times.len() ==> sanified(run).gold_times[i]
                == run.gold_times[i],
        forall|i: int|
            0 <= i < run.len() && i < run.sum_times.len() ==> sanified(run).sum_times[i]
                == run.sum_times[i],
        run.normalized() ==> sanified(run) == run,
        sanified(sanified(run)) == sanified(run),
        run.within_limits() ==> sanified(run).wf(),
{
    let clean = sanified(run);
    if run.normalized() {
        assert(clean.pb_times =~= run.pb_times);
        assert(clean.gold_times =~= run.gold_times);
        assert(clean.sum_times =~= run.sum_times);
    }
    assert(sanified(clean).pb_times =~= clean.pb_times);
    assert(sanified(clean).gold_times =~= clean.gold_times);
    assert(sanified(clean).sum_times =~= clean.sum_times);
}

/// A copy of `times` brought to length `n` with zeros.
fn fit_times(times: &Vec<u128>, n: usize) -> (v: Vec<u128>)
    ensures
        v@ == fitted(times@, n as nat, 0u128),
{
    let mut v: Vec<u128> = Vec::new();
    while v.len() < n
        invariant
            v@.len() <= n,
            forall|j: int| 0 <= j < v@.len() ==> v@[j] == fitted(times@, n as nat, 0u128)[j],
        decreases n - v@.len(),
    {
        let i: usize = v.len();
        if i < times.len() {
            v.push(times[i]);
        } else {
            v.push(0);
        }
    }
    assert(v@ =~= fitted(times@, n as nat, 0u128));
    v
}

/// A copy of `sums` brought to length `n` with empty accumulators.
fn fit_sums(sums: &Vec<(u128, u128)>, n: usize) -> (v: Vec<(u128, u128)>)
    ensures
        v@ == fitted(sums@, n as nat, (0u128, 0u128)),
{
    let mut v: Vec<(u128, u128)> = Vec::new();
    while v.len() < n
        invariant
            v@.len() <= n,
            forall|j: int|
                0 <= j < v@.len() ==> v@[j] == fitted(sums@, n as nat, (0u128, 0u128))[j],
        decreases n - v@.len(),
    {
        let i: usize = v.len();
        if i < sums.len() {
            v.push(sums[i]);
        } else {
            v.push((0, 0));
        }
    }
    assert(v@ =~= fitted(sums@, n as nat, (0u128, 0u128)));
    v
}

/// A copy of the names `names`.
fn copy_names(names: &Vec<String>) -> (v: Vec<String>)
    ensures
        v.deep_view() == names.deep_view(),
{
    let mut v: Vec<String> = Vec::new();
    let mut i: usize = 0;
    while i < names.len()
        invariant
            i <= names@.len(),
            v@.len() == i,
            forall|j: int| 0 <= j < i ==> v@[j]@ == names@[j]@,
        decreases names@.len() - i,
    {
        v.push(names[i].clone());
        i = i + 1;
    }
    assert(v.deep_view() =~= names.deep_view());
    v
}

/// The normalized copy of `run`: every per-segment series has exactly one
/// entry per segment name, the entries that were there are kept in place
/// as they are, and the rest are zero.
pub fn sanify_run(run: &Run) -> (clean: Run)
    ensures
        clean@ == sanified(run@),
        clean@.normalized(),
{
    let n: usize = run.len();
    proof {
        lemma_sanified(run@);
    }
    Run::new(
        run.game_title().to_owned(),
        run.category().to_owned(),
        run.offset(),
        run.pb(),
        copy_names(run.splits()),
        fit_times(run.pb_times(), n),
        fit_times(run.gold_times(), n),
        fit_sums(run.sum_times(), n),
    )
}

} // verus!
