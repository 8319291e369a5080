//! Exact integer averaging over a window of readings.
//!
//! All sensor quantities are fixed-point `u64` values, so the window mean is
//! the integer quotient of the window sum by the window length. The sum is
//! a function of the multiset of readings alone, which makes the mean
//! independent of the order in which the sub-reads arrived.

use vstd::prelude::*;
use vstd::arithmetic::div_mod::lemma_div_is_ordered;
use vstd::arithmetic::div_mod::lemma_div_by_multiple;

verus! {

/// The sum of a window's readings, as a mathematical integer.
pub open spec fn sum_of(s: Seq<u64>) -> int
    decreases s.len(),
{
    if s.len() == 0 {
        0
    } else {
        s[0] + sum_of(s.drop_first())
    }
}

/// The arithmetic mean of a window's readings, remainder discarded.
pub open spec fn mean_of(s: Seq<u64>) -> int
    recommends
        s.len() > 0,
{
    sum_of(s) / (s.len() as int)
}

/// The arithmetic mean as a `u64`. For a nonempty window this equals
/// `mean_of` exactly, since the mean of `u64` readings always fits in a
/// `u64` (`lemma_mean64_exact`).
pub open spec fn mean64(s: Seq<u64>) -> u64 {
    mean_of(s) as u64
}

/// The `u64` mean loses nothing: the mean of a nonempty window of `u64`
/// readings is itself a `u64` value.
pub proof fn lemma_mean64_exact(s: Seq<u64>)
    requires
        s.len() > 0,
    ensures
        mean64(s) == mean_of(s),
        0 <= mean_of(s) <= u64::MAX,
{
    lemma_mean_bounds(s, 0, u64::MAX as int);
}

/// Appending one reading adds its value to the sum.
pub proof fn lemma_sum_push(s: Seq<u64>, v: u64)
    ensures
        sum_of(s.push(v)) == sum_of(s) + v,
    decreases s.len(),
{
    if s.len() == 0 {
        assert(s.push(v)[0] == v);
        assert(s.push(v).drop_first() =~= Seq::<u64>::empty());
        assert(sum_of(Seq::<u64>::empty()) == 0);
        assert(sum_of(s) == 0);
        assert(sum_of(s.push(v)) == v + sum_of(Seq::<u64>::empty()));
    } else {
        assert(s.push(v)[0] == s[0]);
        assert(s.push(v).drop_first() =~= s.drop_first().push(v));
        lemma_sum_push(s.drop_first(), v);
    }
}

/// Removing one reading subtracts its value from the sum.
pub proof fn lemma_sum_remove(s: Seq<u64>, i: int)
    requires
        0 <= i < s.len(),
    ensures
        sum_of(s) == s[i] + sum_of(s.remove(i)),
    decreases s.len(),
{
    if i == 0 {
        assert(s.remove(0) =~= s.drop_first());
    } else {
        assert(s.remove(i).drop_first() =~= s.drop_first().remove(i - 1));
        lemma_sum_remove(s.drop_first(), i - 1);
    }
}

/// Every reading between `lo` and `hi` bounds the sum between `len * lo`
/// and `len * hi`.
pub proof fn lemma_sum_bounds(s: Seq<u64>, lo: int, hi: int)
    requires
        forall|i: int| 0 <= i < s.len() ==> lo <= #[trigger] s[i] <= hi,
    ensures
        s.len() * lo <= sum_of(s) <= s.len() * hi,
    decreases s.len(),
{
    if s.len() == 0 {
    } else {
        assert(forall|i: int|
            0 <= i < s.drop_first().len() ==> lo <= #[trigger] s.drop_first()[i] <= hi);
        lemma_sum_bounds(s.drop_first(), lo, hi);
        assert(s.len() * lo == lo + (s.len() - 1) * lo) by (nonlinear_arith);
        assert(s.len() * hi == hi + (s.len() - 1) * hi) by (nonlinear_arith);
    }
}

/// The mean of readings that all lie between `lo` and `hi` lies between
/// `lo` and `hi` itself.
pub proof fn lemma_mean_bounds(s: Seq<u64>, lo: int, hi: int)
    requires
        s.len() > 0,
        forall|i: int| 0 <= i < s.len() ==> lo <= #[trigger] s[i] <= hi,
        0 <= lo,
    ensures
        lo <= mean_of(s) <= hi,
{
    let n = s.len() as int;
    lemma_sum_bounds(s, lo, hi);
    lemma_div_is_ordered(n * lo, sum_of(s), n);
    lemma_div_is_ordered(sum_of(s), n * hi, n);
    lemma_div_by_multiple(lo, n);
    lemma_div_by_multiple(hi, n);
    assert(n * lo == lo * n) by (nonlinear_arith);
    assert(n * hi == hi * n) by (nonlinear_arith);
}

/// Mean-of-one identity: a window holding a single reading reduces to that
/// reading itself.
pub proof fn lemma_mean_singleton(v: u64)
    ensures
        mean_of(seq![v]) == v,
{
    assert(seq![v] =~= Seq::<u64>::empty().push(v));
    lemma_sum_push(Seq::<u64>::empty(), v);
    assert(sum_of(Seq::<u64>::empty()) == 0);
    assert(sum_of(seq![v]) == v);
    assert(v as int / 1int == v as int) by (nonlinear_arith);
}

/// The sum is a function of the multiset of readings alone: two windows
/// holding the same readings in any order have the same sum.
pub proof fn lemma_sum_permutation(a: Seq<u64>, b: Seq<u64>)
    requires
        a.to_multiset() == b.to_multiset(),
    ensures
        sum_of(a) == sum_of(b),
    decreases a.len(),
{
    broadcast use vstd::seq_lib::group_to_multiset_ensures;

    if a.len() == 0 {
        assert(b.to_multiset().len() == 0);
        assert(b.len() == 0);
    } else {
        let x = a[0];
        assert(a.contains(x));
        assert(a.to_multiset().count(x) > 0);
        assert(b.to_multiset().count(x) > 0);
        assert(b.contains(x));
        let j = choose|j: int| 0 <= j < b.len() && b[j] == x;
        assert(a.remove(0).to_multiset() == a.to_multiset().remove(x));
        assert(b.remove(j).to_multiset() == b.to_multiset().remove(x));
        lemma_sum_remove(a, 0);
        lemma_sum_remove(b, j);
        lemma_sum_permutation(a.remove(0), b.remove(j));
    }
}

/// Averaging is order-independent: permuting the sub-reads of a window
/// (the same multiset of readings) leaves the mean unchanged.
pub proof fn lemma_mean_permutation(a: Seq<u64>, b: Seq<u64>)
    requires
        a.to_multiset() == b.to_multiset(),
    ensures
        mean_of(a) == mean_of(b),
{
    broadcast use vstd::seq_lib::group_to_multiset_ensures;

    lemma_sum_permutation(a, b);
    assert(a.len() == a.to_multiset().len());
    assert(b.len() == b.to_multiset().len());
}

/// The window mean, computed exactly in 128-bit intermediate arithmetic.
pub fn mean(v: &Vec<u64>) -> (r: u64)
    requires
        v@.len() > 0,
    ensures
        r == mean_of(v@),
{
    let mut total: u128 = 0;
    let mut i: usize = 0;
    while i < v.len()
        invariant
            i <= v@.len(),
            total == sum_of(v@.take(i as int)),
            total <= (i as int) * (u64::MAX as int),
        decreases v@.len() - i,
    {
        proof {
            assert(v@.take(i as int + 1) =~= v@.take(i as int).push(v@[i as int]));
            lemma_sum_push(v@.take(i as int), v@[i as int]);
            assert((i as int + 1) * (u64::MAX as int) == (i as int) * (u64::MAX as int) + (
            u64::MAX as int)) by (nonlinear_arith);
            assert((i as int + 1) * (u64::MAX as int) <= (u64::MAX as int) * (u64::MAX as int))
                by (nonlinear_arith)
                requires
                    i as int + 1 <= u64::MAX as int,
            ;
        }
        total = total + v[i] as u128;
        i = i + 1;
    }
    proof {
        assert(v@.take(v@.len() as int) =~= v@);
        let n = v@.len() as int;
        lemma_div_is_ordered(total as int, n * (u64::MAX as int), n);
        lemma_div_by_multiple(u64::MAX as int, n);
        assert(n * (u64::MAX as int) == (u64::MAX as int) * n) by (nonlinear_arith);
    }
    let r: u128 = total / (v.len() as u128);
    r as u64
}

} // verus!
