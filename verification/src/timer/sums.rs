//! Running sums over per-segment durations.
use vstd::prelude::*;

verus! {

/// Sum of the first `k` entries of `s`; entries past the end count as zero.
pub open spec fn prefix_sum(s: Seq<u128>, k: int) -> int
    decreases k,
{
    if k <= 0 {
        0
    } else if k <= s.len() {
        prefix_sum(s, k - 1) + s[k - 1]
    } else {
        prefix_sum(s, k - 1)
    }
}

/// The cumulative series of `s`: entry `i` is the sum of `s[0..=i]`.
pub open spec fn running_sums(s: Seq<u128>) -> Seq<int> {
    Seq::new(s.len(), |i: int| prefix_sum(s, i + 1))
}

/// Prefix sums never decrease as more entries are taken in.
pub proof fn lemma_prefix_sum_monotonic(s: Seq<u128>, i: int, j: int)
    requires
        i <= j,
    ensures
        0 <= prefix_sum(s, i) <= prefix_sum(s, j),
    decreases j,
{
    if j <= 0 {
    } else if i == j {
        lemma_prefix_sum_monotonic(s, i - 1, j - 1);
    } else {
        lemma_prefix_sum_monotonic(s, i, j - 1);
    }
}

/// A prefix sum of entries that are each at most `bound` is at most
/// `k * bound`.
pub proof fn lemma_prefix_sum_bounded(s: Seq<u128>, k: int, bound: int)
    requires
        0 <= k <= s.len(),
        forall|i: int| 0 <= i < k ==> s[i] <= bound,
    ensures
        prefix_sum(s, k) <= k * bound,
    decreases k,
{
    if k > 0 {
        lemma_prefix_sum_bounded(s, k - 1, bound);
        assert(k * bound == (k - 1) * bound + bound) by (nonlinear_arith);
    } else {
        assert(k * bound == 0) by (nonlinear_arith)
            requires
                k == 0,
        ;
    }
}

/// A prefix sum reads only the entries it covers.
pub proof fn lemma_prefix_sum_agrees(a: Seq<u128>, b: Seq<u128>, k: int)
    requires
        k <= a.len(),
        k <= b.len(),
        forall|i: int| 0 <= i < k ==> a[i] == b[i],
    ensures
        prefix_sum(a, k) == prefix_sum(b, k),
    decreases k,
{
    if k > 0 {
        lemma_prefix_sum_agrees(a, b, k - 1);
    }
}

/// Cumulative sums of `times`: entry `i` of the result is the sum of
/// `times[0..=i]`.
pub fn split_time_sum(times: &[u128]) -> (sums: Vec<u128>)
    requires
        prefix_sum(times@, times@.len() as int) <= u128::MAX,
    ensures
        sums@.len() == times@.len(),
        forall|i: int| 0 <= i < sums@.len() ==> sums@[i] as int == prefix_sum(times@, i + 1),
{
    let mut sums: Vec<u128> = Vec::new();
    let mut total: u128 = 0;
    let mut i: usize = 0;
    while i < times.len()
        invariant
            i <= times@.len(),
            sums@.len() == i,
            total as int == prefix_sum(times@, i as int),
            prefix_sum(times@, times@.len() as int) <= u128::MAX,
            forall|j: int| 0 <= j < i ==> sums@[j] as int == prefix_sum(times@, j + 1),
        decreases times@.len() - i,
    {
        proof {
            lemma_prefix_sum_monotonic(times@, i + 1, times@.len() as int);
        }
        total = total + times[i];
        sums.push(total);
        i = i + 1;
    }
    sums
}

} // verus!
