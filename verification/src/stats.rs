//! Exact integer statistics over a series of nanosecond samples.

use vstd::arithmetic::div_mod::{
    lemma_div_by_multiple, lemma_div_denominator, lemma_div_is_ordered, lemma_fundamental_div_mod,
    lemma_hoist_over_denominator,
};
use rayon::iter::{IntoParallelRefIterator, ParallelIterator};
use vstd::prelude::*;

verus! {

/// Sum of all samples of a series.
pub open spec fn total(s: Seq<u64>) -> nat
    decreases s.len(),
{
    if s.len() == 0 {
        0
    } else {
        total(s.drop_last()) + s.last() as nat
    }
}

/// Whether `r` is the integer part of the square root of `x`.
pub open spec fn is_floor_sqrt(r: nat, x: nat) -> bool {
    r * r <= x < (r + 1) * (r + 1)
}

/// Integer part of the square root of `x`.
pub open spec fn floor_sqrt(x: nat) -> nat {
    choose|r: nat| is_floor_sqrt(r, x)
}

/// A number has at most one integer square root.
pub proof fn lemma_floor_sqrt_unique(a: nat, b: nat, x: nat)
    requires
        is_floor_sqrt(a, x),
        is_floor_sqrt(b, x),
    ensures
        a == b,
{
    if a < b {
        assert((a + 1) * (a + 1) <= b * b) by (nonlinear_arith)
            requires
                a + 1 <= b,
        ;
    } else if b < a {
        assert((b + 1) * (b + 1) <= a * a) by (nonlinear_arith)
            requires
                b + 1 <= a,
        ;
    }
}

/// Every number has an integer square root.
pub proof fn lemma_floor_sqrt_exists(x: nat)
    ensures
        is_floor_sqrt(floor_sqrt(x), x),
    decreases x,
{
    if x == 0 {
        assert(is_floor_sqrt(0, 0)) by (nonlinear_arith);
    } else {
        lemma_floor_sqrt_exists((x - 1) as nat);
        let r = floor_sqrt((x - 1) as nat);
        if x < (r + 1) * (r + 1) {
            assert(is_floor_sqrt(r, x));
        } else {
            assert((r + 1) * (r + 1) < (r + 2) * (r + 2)) by (nonlinear_arith);
            assert(is_floor_sqrt(r + 1, x));
        }
    }
}

/// Whether `r` is the integer nearest to the square root of `num / den`,
/// halves rounded up: `r - 1/2 <= sqrt(num / den) < r + 1/2`, with both sides
/// doubled, squared and multiplied by `den`.
pub open spec fn is_nearest_root(r: nat, num: nat, den: nat) -> bool {
    &&& 4 * num < (2 * r + 1) * (2 * r + 1) * den
    &&& r >= 1 ==> (2 * r - 1) * (2 * r - 1) * den <= 4 * num
}

/// `rounded_root(num, den)` is the integer nearest to the square root of
/// `num / den`.
pub proof fn lemma_rounded_root_nearest(num: nat, den: nat)
    requires
        den > 0,
    ensures
        is_nearest_root(rounded_root(num, den), num, den),
{
    let x = 4 * num / den;
    let t = floor_sqrt(x);
    let r = rounded_root(num, den);
    lemma_floor_sqrt_exists(x);
    lemma_fundamental_div_mod((4 * num) as int, den as int);
    assert(x * den <= 4 * num < (x + 1) * den) by (nonlinear_arith)
        requires
            4 * num == den * x + (4 * num) % den,
            0 <= (4 * num) % den < den,
    ;
    assert(t <= 2 * r <= t + 1);
    assert((x + 1) * den <= (2 * r + 1) * (2 * r + 1) * den) by (nonlinear_arith)
        requires
            x < (t + 1) * (t + 1),
            t + 1 <= 2 * r + 1,
    {
        assert((t + 1) * (t + 1) <= (2 * r + 1) * (2 * r + 1));
    }
    if r >= 1 {
        assert((2 * r - 1) * (2 * r - 1) * den <= x * den) by (nonlinear_arith)
            requires
                t * t <= x,
                0 <= 2 * r - 1 <= t,
        {
            assert((2 * r - 1) * (2 * r - 1) <= t * t);
        }
    }
}

/// Adding a sample adds its value to the total.
pub proof fn lemma_total_push(s: Seq<u64>, x: u64)
    ensures
        total(s.push(x)) == total(s) + x,
{
    assert(s.push(x).drop_last() =~= s);
}

/// The total of a concatenation is the sum of the totals.
pub proof fn lemma_total_concat(a: Seq<u64>, b: Seq<u64>)
    ensures
        total(a + b) == total(a) + total(b),
    decreases b.len(),
{
    if b.len() == 0 {
        assert(a + b =~= a);
    } else {
        lemma_total_concat(a, b.drop_last());
        assert((a + b).drop_last() =~= a + b.drop_last());
    }
}

/// No sample exceeds `u64::MAX`, so neither does their average.
pub proof fn lemma_total_bound(s: Seq<u64>)
    ensures
        total(s) <= s.len() * u64::MAX,
    decreases s.len(),
{
    if s.len() > 0 {
        lemma_total_bound(s.drop_last());
        assert(s.len() * u64::MAX == (s.len() - 1) * u64::MAX + u64::MAX) by (nonlinear_arith);
    }
}

/// Integer part of the square root of `x`.
pub fn isqrt(x: u128) -> (r: u64)
    ensures
        is_floor_sqrt(r as nat, x as nat),
        r == floor_sqrt(x as nat),
{
    let mut lo: u128 = 0;
    let mut hi: u128 = 0x1_0000_0000_0000_0000;
    assert(0x1_0000_0000_0000_0000int * 0x1_0000_0000_0000_0000int > u128::MAX) by (nonlinear_arith);
    while hi - lo > 1
        invariant
            lo < hi <= 0x1_0000_0000_0000_0000,
            lo * lo <= x < hi * hi,
        decreases hi - lo,
    {
        let mid: u128 = lo + (hi - lo) / 2;
        assert(mid * mid <= u128::MAX) by (nonlinear_arith)
            requires
                mid <= 0xffff_ffff_ffff_ffff,
        ;
        if mid * mid <= x {
            lo = mid;
        } else {
            hi = mid;
        }
    }
    let r: u64 = lo as u64;
    proof {
        assert(is_floor_sqrt(r as nat, x as nat));
        lemma_floor_sqrt_unique(r as nat, floor_sqrt(x as nat), x as nat);
    }
    r
}

/// Whether `sum` can be the total of `n` samples.
pub open spec fn fits(sum: nat, n: nat) -> bool {
    sum <= n * u64::MAX
}

/// Mean of `n` samples that add up to `sum`, rounded down to whole nanoseconds.
pub open spec fn mean_of(sum: nat, n: nat) -> nat
    recommends
        n > 0,
{
    sum / n
}

/// The square root of `num / den`, rounded to the nearest integer (halves up).
pub open spec fn rounded_root(num: nat, den: nat) -> nat
    recommends
        den > 0,
{
    (floor_sqrt(4 * num / den) + 1) / 2
}

/// The dispersion of `n` samples that add up to `sum`: the square root of
/// `sum / (n - 1)`, in hundredths of a nanosecond, rounded to the nearest
/// hundredth.
pub open spec fn deviation_centis_of(sum: nat, n: nat) -> nat
    recommends
        n >= 2,
{
    rounded_root(10_000 * sum, (n - 1) as nat)
}

/// The dispersion as a share of the mean, in hundredths of a percent, rounded
/// to the nearest hundredth.
pub open spec fn percent_centis_of(sum: nat, n: nat) -> nat
    recommends
        n >= 2,
        mean_of(sum, n) >= 1,
{
    rounded_root(
        100_000_000 * sum,
        ((n - 1) * (mean_of(sum, n) * mean_of(sum, n))) as nat,
    )
}

/// Whether the dispersion has dropped below one percent of the mean:
/// `sqrt(sum / (n - 1)) / mean < 1 / 100`, squared and cleared of fractions.
/// Fewer than two samples, or a mean of zero, never count as converged.
pub open spec fn converged_of(sum: nat, n: nat) -> bool {
    &&& n >= 2
    &&& mean_of(sum, n) >= 1
    &&& 10_000 * sum < mean_of(sum, n) * mean_of(sum, n) * (n - 1)
}

/// Mean of a series, rounded down to whole nanoseconds.
pub open spec fn mean(s: Seq<u64>) -> nat
    recommends
        s.len() > 0,
{
    mean_of(total(s), s.len())
}

/// Dispersion of a series in hundredths of a nanosecond.
pub open spec fn deviation_centis(s: Seq<u64>) -> nat
    recommends
        s.len() >= 2,
{
    deviation_centis_of(total(s), s.len())
}

/// Dispersion of a series in hundredths of a percent of its mean.
pub open spec fn percent_centis(s: Seq<u64>) -> nat
    recommends
        s.len() >= 2,
        mean(s) >= 1,
{
    percent_centis_of(total(s), s.len())
}

/// Whether a series has converged.
pub open spec fn converged(s: Seq<u64>) -> bool {
    converged_of(total(s), s.len())
}

/// Dispersion of a series in hundredths of a nanosecond; undefined for fewer
/// than two samples.
pub open spec fn deviation(s: Seq<u64>) -> Option<nat> {
    if s.len() >= 2 {
        Some(deviation_centis(s))
    } else {
        None
    }
}

/// Dispersion of a series in hundredths of a percent of its mean; undefined
/// for fewer than two samples and for a mean of zero.
pub open spec fn percent(s: Seq<u64>) -> Option<nat> {
    if s.len() >= 2 && mean(s) >= 1 {
        Some(percent_centis(s))
    } else {
        None
    }
}

/// The mean of samples is itself a sample-sized value.
pub proof fn lemma_mean_bound(sum: nat, n: nat)
    requires
        n > 0,
        fits(sum, n),
    ensures
        mean_of(sum, n) <= u64::MAX,
        mean_of(sum, n) * n <= sum < (mean_of(sum, n) + 1) * n,
{
    lemma_div_is_ordered(sum as int, n * u64::MAX, n as int);
    lemma_div_by_multiple(u64::MAX as int, n as int);
    assert(u64::MAX * n == n * u64::MAX) by (nonlinear_arith);
    lemma_fundamental_div_mod(sum as int, n as int);
    let m = sum / n;
    assert(n * m == m * n && (m + 1) * n == m * n + n) by (nonlinear_arith);
}

/// With a mean above twenty microseconds any two or more samples converge.
pub proof fn lemma_large_mean_converges(sum: nat, n: nat)
    requires
        n >= 2,
        fits(sum, n),
        mean_of(sum, n) > 20_000,
    ensures
        converged_of(sum, n),
{
    lemma_mean_bound(sum, n);
    let m = mean_of(sum, n);
    assert(10_000 * sum < m * m * (n - 1)) by (nonlinear_arith)
        requires
            n >= 2,
            m > 20_000,
            sum < (m + 1) * n,
    {
        assert(10_000 * sum < 10_000 * ((m + 1) * n));
        assert(n <= 2 * (n - 1));
        assert((m + 1) * n <= (m + 1) * (2 * (n - 1)));
        assert(20_000 * (m + 1) <= m * m);
        assert(20_000 * (m + 1) * (n - 1) <= m * m * (n - 1));
    }
}

/// Mean of `n` samples that add up to `sum`.
pub(crate) fn mean_of_total(sum: u128, n: usize) -> (m: u64)
    requires
        n > 0,
        fits(sum as nat, n as nat),
    ensures
        m == mean_of(sum as nat, n as nat),
{
    proof {
        lemma_mean_bound(sum as nat, n as nat);
    }
    (sum / (n as u128)) as u64
}

/// Whether `n` samples that add up to `sum` have converged.
pub(crate) fn converged_of_total(sum: u128, n: usize) -> (done: bool)
    requires
        fits(sum as nat, n as nat),
    ensures
        done == converged_of(sum as nat, n as nat),
{
    if n < 2 {
        return false;
    }
    let m: u128 = mean_of_total(sum, n) as u128;
    if m == 0 {
        return false;
    }
    if m > 20_000 {
        proof {
            lemma_large_mean_converges(sum as nat, n as nat);
        }
        return true;
    }
    proof {
        lemma_mean_bound(sum as nat, n as nat);
        assert((m + 1) * n <= 20_001 * 0xffff_ffff_ffff_ffff) by (nonlinear_arith)
            requires
                m <= 20_000,
                n <= 0xffff_ffff_ffff_ffff,
        ;
        assert(m * m <= 400_000_000) by (nonlinear_arith)
            requires
                m <= 20_000,
        ;
        assert(m * m * (n - 1) <= 400_000_000 * 0xffff_ffff_ffff_ffff) by (nonlinear_arith)
            requires
                m * m <= 400_000_000,
                2 <= n <= 0xffff_ffff_ffff_ffff,
        ;
    }
    let square: u128 = m * m;
    10_000 * sum < square * ((n - 1) as u128)
}

/// `scale * sum / den`, computed without leaving 128 bits.
fn scaled_quotient(scale: u128, sum: u128, den: u128) -> (x: u128)
    requires
        1 <= den <= u64::MAX,
        scale <= 400_000_000,
        sum <= (den + 1) * u64::MAX,
    ensures
        x == scale * sum / (den as int),
{
    let q: u128 = sum / den;
    let r: u128 = sum % den;
    proof {
        assert((den + 1) * u64::MAX <= (2 * u64::MAX) * den) by (nonlinear_arith)
            requires
                den >= 1,
        ;
        lemma_div_is_ordered(sum as int, (2 * u64::MAX) * den, den as int);
        lemma_div_by_multiple(2 * u64::MAX, den as int);
        assert(q <= 2 * u64::MAX);
        assert(scale * q <= 400_000_000 * (2 * u64::MAX)) by (nonlinear_arith)
            requires
                scale <= 400_000_000,
                q <= 2 * u64::MAX,
        ;
        assert(scale * r <= 400_000_000 * u64::MAX) by (nonlinear_arith)
            requires
                scale <= 400_000_000,
                r < den <= u64::MAX,
        ;
        lemma_fundamental_div_mod(sum as int, den as int);
        assert(scale * sum == scale * r + (scale * q) * den) by (nonlinear_arith)
            requires
                sum == den * q + r,
        ;
        lemma_hoist_over_denominator((scale * r) as int, (scale * q) as int, den as nat);
        assert((scale * r) / (den as int) <= scale * r) by (nonlinear_arith)
            requires
                den >= 1,
        ;
    }
    scale * q + (scale * r) / den
}

/// Rounds half of an integer square root up: turns the root of `4 * x` into
/// the nearest integer to the root of `x`.
fn half_up(twice: u64) -> (r: u64)
    ensures
        r == (twice + 1) / 2,
{
    ((twice as u128 + 1) / 2) as u64
}

/// Dispersion of `n` samples that add up to `sum`, in hundredths of a nanosecond.
pub(crate) fn deviation_centis_of_total(sum: u128, n: usize) -> (d: u64)
    requires
        n >= 2,
        fits(sum as nat, n as nat),
    ensures
        d == deviation_centis_of(sum as nat, n as nat),
        is_nearest_root(d as nat, 10_000 * sum as nat, (n - 1) as nat),
{
    let den: u128 = (n - 1) as u128;
    let x = scaled_quotient(40_000, sum, den);
    proof {
        assert(4 * (10_000 * sum) == 40_000 * sum);
        lemma_rounded_root_nearest(10_000 * sum as nat, (n - 1) as nat);
    }
    half_up(isqrt(x))
}

/// Dispersion of `n` samples that add up to `sum`, in hundredths of a percent
/// of their mean.
pub(crate) fn percent_centis_of_total(sum: u128, n: usize) -> (p: u64)
    requires
        n >= 2,
        fits(sum as nat, n as nat),
        mean_of(sum as nat, n as nat) >= 1,
    ensures
        p == percent_centis_of(sum as nat, n as nat),
        is_nearest_root(
            p as nat,
            100_000_000 * sum as nat,
            ((n - 1) * (mean_of(sum as nat, n as nat) * mean_of(sum as nat, n as nat))) as nat,
        ),
{
    let den: u128 = (n - 1) as u128;
    let m: u128 = mean_of_total(sum, n) as u128;
    let x = scaled_quotient(400_000_000, sum, den);
    proof {
        assert(m * m <= u128::MAX) by (nonlinear_arith)
            requires
                m <= 0xffff_ffff_ffff_ffff,
        ;
        assert(m * m >= 1) by (nonlinear_arith)
            requires
                m >= 1,
        ;
        assert(4 * (100_000_000 * sum) == 400_000_000 * sum);
        lemma_div_denominator(400_000_000 * sum, den as int, (m * m) as int);
        lemma_rounded_root_nearest(100_000_000 * sum as nat, (den * (m * m)) as nat);
    }
    let square: u128 = m * m;
    half_up(isqrt(x / square))
}

/// Adds up the samples with `rayon`'s parallel `sum`, each sample widened to
/// 128 bits first. The samples are split into parts, the parts summed and the
/// partial sums added; as no partial sum can leave 128 bits, the result is
/// the exact total whatever the split.
#[verifier::external_body]
pub(crate) fn parallel_total(samples: &Vec<u64>) -> (sum: u128)
    ensures
        sum == total(samples@),
{
    samples.par_iter().map(|sample| u128::from(*sample)).sum()
}

} // verus!
