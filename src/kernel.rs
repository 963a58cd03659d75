//! Kernel smoother: the truncated support of a discrete Gaussian blur and the
//! exact exponent of each weight.
//!
//! The weight of sample `j` at output index `i` for bandwidth `b` is
//! `exp(-(i - j)^2 / (2 * b^2))`. Only samples with `|i - j| <= 3 * b` inside
//! the series take part; the smoothed value is the weighted sum over them
//! divided by the sum of their weights plus a small guard.
use vstd::prelude::*;
use crate::window::Span;

verus! {

/// How many bandwidths on either side of an index the support reaches.
pub const TRUNCATION: usize = 3;

/// Whether sample `j` takes part in the smoothed value at `i`.
pub open spec fn in_support(i: int, j: int, n: int, bandwidth: int) -> bool {
    0 <= j < n && i - TRUNCATION * bandwidth <= j <= i + TRUNCATION * bandwidth
}

/// The support of index `i` in a series of `n` samples.
pub open spec fn support_of(i: int, n: int, bandwidth: int) -> Span {
    let radius = TRUNCATION * bandwidth;
    Span {
        start: (if i > radius { i - radius } else { 0 }) as usize,
        end: (if n - i > radius { i + radius + 1 } else { n }) as usize,
    }
}

/// The exponent `-num / den` of a Gaussian weight: `exp(-num / den)`.
#[derive(Clone, Copy, Debug, PartialEq, Eq, Structural)]
pub struct Exponent {
    pub num: u128,
    pub den: u128,
}

/// The exponent of the weight of sample `j` at index `i`:
/// `(i - j)^2` over `2 * bandwidth^2`.
pub open spec fn exponent_of(i: int, j: int, bandwidth: int) -> (int, int) {
    ((i - j) * (i - j), 2 * bandwidth * bandwidth)
}

/// The range of samples that take part in the smoothed value at `i`.
pub fn support(i: usize, n: usize, bandwidth: usize) -> (r: Span)
    requires
        i < n,
        bandwidth >= 1,
        bandwidth <= usize::MAX / 3,
    ensures
        r == support_of(i as int, n as int, bandwidth as int),
        r.start <= i < r.end <= n,
        forall|j: int| r.contains(j) <==> in_support(i as int, j, n as int, bandwidth as int),
{
    let radius = TRUNCATION * bandwidth;
    let start = if i > radius { i - radius } else { 0 };
    let end = if n - i > radius { i + radius + 1 } else { n };
    Span { start, end }
}

/// The exact exponent of the Gaussian weight of sample `j` at index `i`.
pub fn kernel_exponent(i: usize, j: usize, bandwidth: usize) -> (r: Exponent)
    requires
        bandwidth >= 1,
        bandwidth <= usize::MAX / 3,
    ensures
        (r.num as int, r.den as int) == exponent_of(i as int, j as int, bandwidth as int),
        r.den > 0,
{
    let d: u128 = if i > j { (i - j) as u128 } else { (j - i) as u128 };
    let b: u128 = bandwidth as u128;
    assert(d <= u64::MAX && b <= u64::MAX / 3);
    assert(d * d <= u64::MAX * u64::MAX) by (nonlinear_arith)
        requires d <= u64::MAX;
    assert(2 * (b * b) <= 2 * ((u64::MAX / 3) * (u64::MAX / 3))) by (nonlinear_arith)
        requires b <= u64::MAX / 3;
    assert(b * b >= 1) by (nonlinear_arith)
        requires b >= 1;
    let num = d * d;
    let den = 2 * (b * b);
    assert((i - j) * (i - j) == d * d) by (nonlinear_arith)
        requires d == i - j || d == j - i;
    assert(2 * bandwidth * bandwidth == 2 * (b * b)) by (nonlinear_arith)
        requires b == bandwidth;
    Exponent { num, den }
}

/// For a series of `n` samples, the support of every output index.
pub fn smoothing_plan(n: usize, bandwidth: usize) -> (r: Vec<Span>)
    requires
        bandwidth >= 1,
        bandwidth <= usize::MAX / 3,
    ensures
        r@.len() == n,
        forall|i: int| 0 <= i < n ==> #[trigger] r@[i] == support_of(i, n as int, bandwidth as int),
{
    let mut r: Vec<Span> = Vec::new();
    let mut i: usize = 0;
    while i < n
        invariant
            i <= n,
            1 <= bandwidth <= usize::MAX / 3,
            r@.len() == i,
            forall|k: int| 0 <= k < i ==> #[trigger] r@[k] == support_of(k, n as int, bandwidth as int),
        decreases n - i,
    {
        let s = support(i, n, bandwidth);
        r.push(s);
        i = i + 1;
    }
    r
}

/// Away from the ends of the series, smoothing is symmetric about the output
/// index: the support reaches the same distance on both sides, a sample `d`
/// before the index takes part exactly when the one `d` after it does, and
/// the two carry the same weight.
pub proof fn lemma_smoothing_symmetric(i: usize, n: usize, bandwidth: usize, d: int)
    requires
        bandwidth >= 1,
        TRUNCATION * bandwidth <= i,
        i + TRUNCATION * bandwidth < n,
    ensures
        support_of(i as int, n as int, bandwidth as int).start == i - TRUNCATION * bandwidth,
        support_of(i as int, n as int, bandwidth as int).end == i + TRUNCATION * bandwidth + 1,
        in_support(i as int, i - d, n as int, bandwidth as int)
            <==> in_support(i as int, i + d, n as int, bandwidth as int),
        exponent_of(i as int, i - d, bandwidth as int) == exponent_of(i as int, i + d, bandwidth as int),
{
    assert((i - (i - d)) * (i - (i - d)) == (i - (i + d)) * (i - (i + d))) by (nonlinear_arith);
}

} // verus!
