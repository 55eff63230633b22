use vstd::prelude::*;
use vstd::seq_lib::{group_to_multiset_ensures, lemma_multiset_commutative};

verus! {

/// Ascending order over a sequence of round-trip times.
pub open spec fn sorted(s: Seq<u64>) -> bool {
    forall|i: int, j: int| 0 <= i <= j < s.len() ==> s[i] <= s[j]
}

/// Sum of a sequence of round-trip times, as a plain integer.
pub open spec fn sum_of(s: Seq<u64>) -> int
    decreases s.len(),
{
    if s.len() == 0 {
        0
    } else {
        s[0] + sum_of(s.skip(1))
    }
}

/// The mean round-trip time of a non-empty list, rounded down to whole
/// milliseconds; empty lists have no mean.
pub open spec fn mean_opt(s: Seq<u64>) -> Option<u64> {
    if s.len() == 0 {
        None
    } else {
        Some((sum_of(s) / s.len() as int) as u64)
    }
}

/// The median round-trip time of a non-empty list: the middle element, or for
/// an even length the mean of the two middle elements; empty lists have no
/// median. Meaningful when the list is sorted ascending.
pub open spec fn median_opt(s: Seq<u64>) -> Option<u64> {
    if s.len() == 0 {
        None
    } else {
        let mid = s.len() as int / 2;
        if s.len() % 2 == 0 {
            Some(((s[mid - 1] + s[mid]) / 2) as u64)
        } else {
            Some(s[mid])
        }
    }
}

/// Per-hop round-trip-time statistics, in whole milliseconds, derived from
/// the successful queries of one hop. Both fields are empty when no query
/// succeeded.
#[derive(Debug, Clone, Copy, PartialEq, Eq, Structural)]
pub struct HopStats {
    /// The mean of the round-trip times of all queries.
    pub mean: Option<u64>,
    /// The median of the round-trip times of all queries.
    pub median: Option<u64>,
}

impl HopStats {
    pub fn from_durations(durations: &Vec<u64>) -> (s: HopStats)
        ensures
            s.mean == mean_opt(durations@),
            s.median == median_opt(durations@),
    {
        let mean = time_mean(durations);
        let median = time_median(durations);

        HopStats { mean, median }
    }
}

proof fn lemma_sum_bound(s: Seq<u64>)
    ensures
        0 <= sum_of(s) <= s.len() * 0xFFFF_FFFF_FFFF_FFFF,
    decreases s.len(),
{
    if s.len() == 0 {
    } else {
        lemma_sum_bound(s.skip(1));
        assert(s.len() * 0xFFFF_FFFF_FFFF_FFFF == (s.len() - 1) * 0xFFFF_FFFF_FFFF_FFFF
            + 0xFFFF_FFFF_FFFF_FFFF) by (nonlinear_arith);
    }
}

pub fn time_mean(list: &Vec<u64>) -> (r: Option<u64>)
    ensures
        r == mean_opt(list@),
{
    let n = list.len();
    if n == 0 {
        return None;
    }
    let mut acc: u128 = 0;
    let mut i: usize = 0;
    proof {
        assert(list@.skip(0) =~= list@);
        lemma_sum_bound(list@);
    }
    while i < n
        invariant
            i <= n,
            n == list@.len(),
            acc + sum_of(list@.skip(i as int)) == sum_of(list@),
            acc <= i * 0xFFFF_FFFF_FFFF_FFFF,
        decreases n - i,
    {
        let x = list[i];
        proof {
            let rest = list@.skip(i as int);
            assert(rest[0] == list@[i as int]);
            assert(rest.skip(1) =~= list@.skip(i as int + 1));
            lemma_sum_bound(list@.skip(i as int + 1));
            assert((i + 1) * 0xFFFF_FFFF_FFFF_FFFF == i * 0xFFFF_FFFF_FFFF_FFFF
                + 0xFFFF_FFFF_FFFF_FFFF) by (nonlinear_arith);
        }
        acc = acc + (x as u128);
        i = i + 1;
    }
    proof {
        assert(list@.skip(n as int) =~= Seq::<u64>::empty());
        assert(acc == sum_of(list@));
        assert(acc / (n as u128) <= 0xFFFF_FFFF_FFFF_FFFF) by (nonlinear_arith)
            requires
                n >= 1,
                acc <= n * 0xFFFF_FFFF_FFFF_FFFF,
        ;
    }
    Some((acc / (n as u128)) as u64)
}

pub fn time_median(list: &Vec<u64>) -> (r: Option<u64>)
    ensures
        r == median_opt(list@),
{
    let len = list.len();

    if len == 0 {
        return None;
    }

    let mid = len / 2;

    if len % 2 == 0 {
        let a = list[mid - 1];
        let b = list[mid];
        let m = ((a as u128 + b as u128) / 2) as u64;
        Some(m)
    } else {
        Some(list[mid])
    }
}

/// Inserting an element anywhere in a sequence adds it to the multiset of
/// elements.
proof fn lemma_insert_multiset(s: Seq<u64>, i: int, a: u64)
    requires
        0 <= i <= s.len(),
    ensures
        s.insert(i, a).to_multiset() =~= s.to_multiset().insert(a),
{
    broadcast use group_to_multiset_ensures;
    broadcast use vstd::multiset::group_multiset_axioms;

    let left = s.subrange(0, i);
    let right = s.subrange(i, s.len() as int);
    assert(s.insert(i, a) == left.push(a) + right);
    lemma_multiset_commutative(left.push(a), right);
    assert(left.push(a).to_multiset() =~= left.to_multiset().insert(a));
    assert(s =~= left + right);
    lemma_multiset_commutative(left, right);
    assert(left.push(a).to_multiset().add(right.to_multiset()) =~= left.to_multiset().add(
        right.to_multiset(),
    ).insert(a));
}

/// Sort a list of round-trip times ascending. The result is the unique sorted
/// rearrangement of the input: same elements with the same multiplicities.
pub fn sort_durations(list: &Vec<u64>) -> (r: Vec<u64>)
    ensures
        sorted(r@),
        r@.to_multiset() == list@.to_multiset(),
        r@.len() == list@.len(),
{
    broadcast use group_to_multiset_ensures;

    let n = list.len();
    let mut out: Vec<u64> = Vec::new();
    let mut i: usize = 0;
    proof {
        assert(list@.take(0) =~= Seq::<u64>::empty());
        assert(out@.to_multiset() =~= list@.take(0).to_multiset());
    }
    while i < n
        invariant
            i <= n,
            n == list@.len(),
            out@.len() == i,
            sorted(out@),
            out@.to_multiset() == list@.take(i as int).to_multiset(),
        decreases n - i,
    {
        let x = list[i];
        // Find the first position whose element is greater than x.
        let mut k: usize = 0;
        while k < out.len() && out[k] <= x
            invariant
                k <= out@.len(),
                forall|m: int| 0 <= m < k ==> out@[m] <= x,
            decreases out@.len() - k,
        {
            k = k + 1;
        }
        let ghost prev = out@;
        out.insert(k, x);
        proof {
            assert(out@ =~= prev.insert(k as int, x));
            prev.insert_ensures(k as int, x);
            assert forall|a: int, b: int| 0 <= a <= b < out@.len() implies out@[a] <= out@[b] by {
                if b < k {
                } else if a > k {
                    assert(out@[a] == prev[a - 1] && out@[b] == prev[b - 1]);
                } else if a == k && b == k {
                } else if a < k && b == k {
                    assert(out@[a] == prev[a] && prev[a] <= x);
                } else if a == k && b > k {
                    assert(out@[b] == prev[b - 1] && b - 1 >= k);
                    assert(prev[k as int] > x || k as int >= prev.len());
                } else {
                    assert(out@[a] == prev[a] && out@[b] == prev[b - 1]);
                }
            }
            lemma_insert_multiset(prev, k as int, x);
            assert(list@.take(i as int + 1) =~= list@.take(i as int).push(x));
            list@.take(i as int).to_multiset_ensures();
            assert(list@.take(i as int).push(x).to_multiset() =~= list@.take(
                i as int,
            ).to_multiset().insert(x));
        }
        i = i + 1;
    }
    proof {
        assert(list@.take(n as int) =~= list@);
    }
    out
}

} // verus!
