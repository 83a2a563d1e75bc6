//! Median and average over millisecond timings.

use vstd::prelude::*;

verus! {

broadcast use vstd::seq_lib::group_to_multiset_ensures;

/// Position at which `x` enters `s`: just before the first element greater than `x`.
pub open spec fn insert_pos(s: Seq<u64>, x: u64) -> nat
    decreases s.len(),
{
    if s.len() == 0 {
        0
    } else if x < s[0] {
        0
    } else {
        1 + insert_pos(s.drop_first(), x)
    }
}

/// `s` with `x` placed after every element not greater than it.
pub open spec fn insert_sorted(s: Seq<u64>, x: u64) -> Seq<u64> {
    s.insert(insert_pos(s, x) as int, x)
}

/// The ascending arrangement of `s`.
pub open spec fn sorted_of(s: Seq<u64>) -> Seq<u64>
    decreases s.len(),
{
    if s.len() == 0 {
        Seq::empty()
    } else {
        insert_sorted(sorted_of(s.drop_last()), s.last())
    }
}

pub open spec fn is_sorted(s: Seq<u64>) -> bool {
    forall|i: int, j: int| 0 <= i <= j < s.len() ==> s[i] <= s[j]
}

/// The overflow-safe mean of two middle values, rounded down.
pub open spec fn mid_of_two(a: u64, b: u64) -> int {
    (a / 2) as int + (b / 2) as int + ((a % 2) as int + (b % 2) as int) / 2
}

/// Median of an ascending sequence; 0 for an empty one.
pub open spec fn median_of_sorted(s: Seq<u64>) -> int {
    if s.len() == 0 {
        0
    } else if s.len() % 2 == 1 {
        s[s.len() as int / 2] as int
    } else {
        mid_of_two(s[s.len() as int / 2 - 1], s[s.len() as int / 2])
    }
}

pub open spec fn median_spec(s: Seq<u64>) -> int {
    median_of_sorted(sorted_of(s))
}

pub open spec fn sum_of(s: Seq<u64>) -> int
    decreases s.len(),
{
    if s.len() == 0 {
        0
    } else {
        sum_of(s.drop_last()) + s.last() as int
    }
}

/// Mean of `s` truncated toward zero; 0 for an empty sequence.
pub open spec fn average_spec(s: Seq<u64>) -> int {
    if s.len() == 0 {
        0
    } else {
        sum_of(s) / (s.len() as int)
    }
}

proof fn lemma_insert_pos_bounds(s: Seq<u64>, x: u64)
    ensures
        insert_pos(s, x) <= s.len(),
        forall|k: int| 0 <= k < insert_pos(s, x) ==> s[k] <= x,
        insert_pos(s, x) < s.len() ==> x < s[insert_pos(s, x) as int],
    decreases s.len(),
{
    if s.len() > 0 && x >= s[0] {
        lemma_insert_pos_bounds(s.drop_first(), x);
        assert forall|k: int| 0 <= k < insert_pos(s, x) implies s[k] <= x by {
            if k > 0 {
                assert(s[k] == s.drop_first()[k - 1]);
            }
        }
    }
}

proof fn lemma_insert_pos_unique(s: Seq<u64>, x: u64, j: int)
    requires
        0 <= j <= s.len(),
        forall|k: int| 0 <= k < j ==> s[k] <= x,
        j < s.len() ==> x < s[j],
    ensures
        insert_pos(s, x) == j,
    decreases s.len(),
{
    if s.len() > 0 && j > 0 {
        lemma_insert_pos_unique(s.drop_first(), x, j - 1);
    }
}

proof fn lemma_insert_sorted_sorted(s: Seq<u64>, x: u64)
    requires
        is_sorted(s),
    ensures
        is_sorted(insert_sorted(s, x)),
        insert_sorted(s, x).to_multiset() == s.to_multiset().insert(x),
        insert_sorted(s, x).len() == s.len() + 1,
{
    lemma_insert_pos_bounds(s, x);
    let p = insert_pos(s, x) as int;
    let t = insert_sorted(s, x);
    assert forall|i: int, j: int| 0 <= i <= j < t.len() implies t[i] <= t[j] by {
        if i < p && j > p {
            assert(s[i] <= x);
        }
        if i == p && j > p {
            assert(x < s[p]);
            assert(s[p] <= s[j - 1]);
        }
    }
}

/// The ascending arrangement is sorted and holds the same values, each as often.
pub proof fn lemma_sorted_of(s: Seq<u64>)
    ensures
        is_sorted(sorted_of(s)),
        sorted_of(s).to_multiset() == s.to_multiset(),
        sorted_of(s).len() == s.len(),
    decreases s.len(),
{
    if s.len() > 0 {
        lemma_sorted_of(s.drop_last());
        lemma_insert_sorted_sorted(sorted_of(s.drop_last()), s.last());
        assert(s.drop_last().push(s.last()) =~= s);
    }
}

/// The two-middle formula equals the mean of the two values rounded down.
pub proof fn lemma_mid_of_two(a: u64, b: u64)
    ensures
        mid_of_two(a, b) == (a as int + b as int) / 2,
{
    assert(mid_of_two(a, b) == (a as int + b as int) / 2) by (nonlinear_arith);
}

/// Median of an empty sequence is 0, of one value that value, and of an
/// even count the mean of the two middle values rounded down.
pub proof fn lemma_median_cases(s: Seq<u64>)
    ensures
        s.len() == 0 ==> median_spec(s) == 0,
        s.len() == 1 ==> median_spec(s) == s[0] as int,
        s.len() > 0 && s.len() % 2 == 0 ==> median_spec(s) == (sorted_of(s)[s.len() as int / 2 - 1] as int
            + sorted_of(s)[s.len() as int / 2] as int) / 2,
{
    lemma_sorted_of(s);
    if s.len() == 1 {
        assert(s.drop_last() =~= Seq::<u64>::empty());
        assert(sorted_of(s) =~= seq![s[0]]);
    }
    if s.len() > 0 && s.len() % 2 == 0 {
        lemma_mid_of_two(sorted_of(s)[s.len() as int / 2 - 1], sorted_of(s)[s.len() as int / 2]);
    }
}

proof fn lemma_sum_bound(s: Seq<u64>)
    ensures
        0 <= sum_of(s) <= s.len() * (u64::MAX as int),
    decreases s.len(),
{
    if s.len() > 0 {
        lemma_sum_bound(s.drop_last());
        assert((s.len() - 1) * (u64::MAX as int) + u64::MAX as int == s.len() * (u64::MAX as int))
            by (nonlinear_arith);
    }
}

/// The average lies between 0 and the largest value a `u64` holds, whatever the count.
pub proof fn lemma_average_fits(s: Seq<u64>)
    ensures
        0 <= average_spec(s) <= u64::MAX,
{
    lemma_sum_bound(s);
    if s.len() > 0 {
        let n = s.len() as int;
        let t = sum_of(s);
        assert(t / n <= u64::MAX as int) by (nonlinear_arith)
            requires
                0 <= t <= n * (u64::MAX as int),
                n > 0,
        ;
        assert(t / n >= 0) by (nonlinear_arith)
            requires
                0 <= t,
                n > 0,
        ;
    }
}

/// Returns `v` in ascending order.
fn sort_ascending(v: &[u64]) -> (r: Vec<u64>)
    ensures
        r@ == sorted_of(v@),
{
    let mut out: Vec<u64> = Vec::new();
    let mut i: usize = 0;
    while i < v.len()
        invariant
            i <= v@.len(),
            out@ == sorted_of(v@.take(i as int)),
            out@.len() == i,
        decreases v@.len() - i,
    {
        let x = v[i];
        let mut j: usize = 0;
        while j < out.len() && out[j] <= x
            invariant
                j <= out@.len(),
                forall|k: int| 0 <= k < j ==> out@[k] <= x,
            decreases out@.len() - j,
        {
            j = j + 1;
        }
        proof {
            lemma_insert_pos_unique(out@, x, j as int);
            assert(v@.take(i + 1).drop_last() =~= v@.take(i as int));
        }
        out.insert(j, x);
        i = i + 1;
    }
    proof {
        assert(v@.take(i as int) =~= v@);
    }
    out
}

/// Median of `v`: 0 when empty; for an even count the two middle values are
/// combined without overflow.
pub fn median(v: &[u64]) -> (r: u64)
    ensures
        r == median_spec(v@),
{
    if v.len() == 0 {
        return 0;
    }
    let s = sort_ascending(v);
    proof {
        lemma_sorted_of(v@);
    }
    let mid = s.len() / 2;
    if s.len() % 2 == 1 {
        s[mid]
    } else {
        (s[mid - 1] / 2) + (s[mid] / 2) + ((s[mid - 1] % 2 + s[mid] % 2) / 2)
    }
}

/// Mean of `v` truncated toward zero, summed wide enough never to overflow; 0 when empty.
pub fn avg(v: &[u64]) -> (r: u64)
    ensures
        r == average_spec(v@),
{
    if v.len() == 0 {
        return 0;
    }
    let mut sum: u128 = 0;
    let mut i: usize = 0;
    while i < v.len()
        invariant
            i <= v@.len(),
            v@.len() <= usize::MAX,
            sum == sum_of(v@.take(i as int)),
        decreases v@.len() - i,
    {
        proof {
            lemma_sum_bound(v@.take(i as int));
            assert(v@.take(i + 1).drop_last() =~= v@.take(i as int));
            assert((i as int) * (u64::MAX as int) + (u64::MAX as int) < u128::MAX) by (nonlinear_arith)
                requires
                    i < usize::MAX,
                    usize::MAX <= u64::MAX,
            ;
        }
        sum = sum + v[i] as u128;
        i = i + 1;
    }
    proof {
        assert(v@.take(i as int) =~= v@);
        lemma_average_fits(v@);
    }
    (sum / (v.len() as u128)) as u64
}

} // verus!
