use vstd::prelude::*;

verus! {

broadcast use vstd::seq_lib::group_to_multiset_ensures;

pub open spec fn sorted(s: Seq<u64>) -> bool {
    forall|i: int, j: int| 0 <= i <= j < s.len() ==> s[i] <= s[j]
}

pub open spec fn total(s: Seq<u64>) -> int
    decreases s.len(),
{
    if s.len() == 0 {
        0
    } else {
        total(s.drop_last()) + s.last()
    }
}

/// Twice the median of a sorted list: twice its middle element when the
/// length is odd, the sum of its two central elements when it is even.
pub open spec fn median_twice_of(s: Seq<u64>) -> int {
    if s.len() % 2 == 1 {
        2 * s[(s.len() / 2) as int]
    } else {
        s[s.len() / 2 - 1] + s[(s.len() / 2) as int]
    }
}

/// `m` is the least element of `s`.
pub open spec fn is_min(s: Seq<u64>, m: u64) -> bool {
    s.contains(m) && forall|i: int| 0 <= i < s.len() ==> m <= s[i]
}

/// `m` is the greatest element of `s`.
pub open spec fn is_max(s: Seq<u64>, m: u64) -> bool {
    s.contains(m) && forall|i: int| 0 <= i < s.len() ==> s[i] <= m
}

/// Sorts run times in ascending order.
pub fn sort_times(v: &mut Vec<u64>)
    ensures
        sorted(final(v)@),
        final(v)@.to_multiset() == old(v)@.to_multiset(),
{
    let n = v.len();
    if n == 0 {
        return;
    }
    let mut i: usize = 1;
    while i < n
        invariant
            v@.len() == n,
            1 <= i <= n,
            forall|a: int, b: int| 0 <= a <= b < i ==> v@[a] <= v@[b],
            v@.to_multiset() == old(v)@.to_multiset(),
        decreases n - i,
    {
        let mut j: usize = i;
        while j > 0 && v[j - 1] > v[j]
            invariant
                v@.len() == n,
                0 <= j <= i < n,
                v@.to_multiset() == old(v)@.to_multiset(),
                forall|a: int, b: int| 0 <= a <= b <= i && a != j && b != j ==> v@[a] <= v@[b],
                forall|b: int| j < b <= i ==> v@[j as int] <= v@[b],
            decreases j,
        {
            let a = v[j - 1];
            let b = v[j];
            let ghost s0 = v@;
            v.set(j - 1, b);
            v.set(j, a);
            proof {
                let s1 = s0.update(j - 1, b);
                assert(s1.to_multiset() =~= s0.to_multiset().insert(b).remove(a));
                assert(v@.to_multiset() =~= s1.to_multiset().insert(a).remove(b));
                assert(v@.to_multiset() =~= s0.to_multiset());
            }
            j = j - 1;
        }
        i = i + 1;
    }
}

/// Twice the median of sorted run times, so that the result stays exact.
pub fn median_twice(s: &Vec<u64>) -> (r: u128)
    requires
        s@.len() >= 1,
        sorted(s@),
    ensures
        r as int == median_twice_of(s@),
{
    let n = s.len();
    if n % 2 == 1 {
        2 * (s[n / 2] as u128)
    } else {
        (s[n / 2 - 1] as u128) + (s[n / 2] as u128)
    }
}

/// The sum of the run times.
pub fn total_of(s: &Vec<u64>) -> (r: u128)
    ensures
        r as int == total(s@),
{
    let mut acc: u128 = 0;
    let mut i: usize = 0;
    while i < s.len()
        invariant
            0 <= i <= s.len(),
            acc as int == total(s@.take(i as int)),
            acc <= i as int * 0xFFFF_FFFF_FFFF_FFFF,
        decreases s.len() - i,
    {
        assert(s@.take(i + 1).drop_last() =~= s@.take(i as int));
        assert(acc + s[i as int] <= (i + 1) as int * 0xFFFF_FFFF_FFFF_FFFF) by (nonlinear_arith)
            requires acc <= i as int * 0xFFFF_FFFF_FFFF_FFFF, s[i as int] <= 0xFFFF_FFFF_FFFF_FFFFu64;
        assert((i + 1) as int * 0xFFFF_FFFF_FFFF_FFFF < 0x1_0000_0000_0000_0000_0000_0000_0000_0000)
            by (nonlinear_arith)
            requires i < 0x1_0000_0000_0000_0000int;
        acc = acc + s[i] as u128;
        i = i + 1;
    }
    assert(s@.take(i as int) =~= s@);
    acc
}

/// The least run time.
pub fn min_of(s: &Vec<u64>) -> (r: u64)
    requires
        s@.len() >= 1,
    ensures
        is_min(s@, r),
{
    let mut m = s[0];
    let mut at: usize = 0;
    let mut i: usize = 1;
    while i < s.len()
        invariant
            1 <= i <= s.len(),
            at < i,
            s@[at as int] == m,
            forall|k: int| 0 <= k < i ==> m <= s@[k],
        decreases s.len() - i,
    {
        if s[i] < m {
            m = s[i];
            at = i;
        }
        i = i + 1;
    }
    assert(s@.contains(m)) by {
        assert(s@[at as int] == m);
    }
    m
}

/// The greatest run time.
pub fn max_of(s: &Vec<u64>) -> (r: u64)
    requires
        s@.len() >= 1,
    ensures
        is_max(s@, r),
{
    let mut m = s[0];
    let mut at: usize = 0;
    let mut i: usize = 1;
    while i < s.len()
        invariant
            1 <= i <= s.len(),
            at < i,
            s@[at as int] == m,
            forall|k: int| 0 <= k < i ==> s@[k] <= m,
        decreases s.len() - i,
    {
        if s[i] > m {
            m = s[i];
            at = i;
        }
        i = i + 1;
    }
    assert(s@.contains(m)) by {
        assert(s@[at as int] == m);
    }
    m
}

/// What is reported of a series of timed runs, in nanoseconds.
#[derive(Clone, Copy, Debug, PartialEq, Eq, Structural)]
pub struct RunStats {
    pub total_ns: u128,
    /// Twice the median, kept exact for an even count.
    pub median_twice_ns: u128,
    pub min_ns: u64,
    pub max_ns: u64,
}

/// Sorts the run times in place and summarises them.
pub fn summarize(times: &mut Vec<u64>) -> (r: RunStats)
    requires
        old(times)@.len() >= 1,
    ensures
        sorted(final(times)@),
        final(times)@.to_multiset() == old(times)@.to_multiset(),
        r.total_ns == total(old(times)@),
        r.median_twice_ns == median_twice_of(final(times)@),
        is_min(old(times)@, r.min_ns),
        is_max(old(times)@, r.max_ns),
{
    let total_ns = total_of(times);
    let min_ns = min_of(times);
    let max_ns = max_of(times);
    sort_times(times);
    proof {
        assert(times@.len() == times@.to_multiset().len());
        assert(old(times)@.len() == old(times)@.to_multiset().len());
    }
    let median_twice_ns = median_twice(times);
    RunStats { total_ns, median_twice_ns, min_ns, max_ns }
}

} // verus!
