//! Windowed statistics: which preceding samples a trailing mean, a trailing
//! standard deviation and a trailing difference draw on.
//!
//! Convention: the window of index `i` is the half-open range
//! `[i - window, i)`, which excludes the current sample. The trailing mean and
//! the trailing standard deviation both use it. Indices `i < window` are in
//! cold start: the mean there is the sample itself, the standard deviation 0.
use vstd::prelude::*;

verus! {

/// A half-open range of sample indices, `[start, end)`.
#[derive(Clone, Copy, Debug, PartialEq, Eq, Structural)]
pub struct Span {
    pub start: usize,
    pub end: usize,
}

impl Span {
    pub open spec fn len(self) -> int {
        self.end - self.start
    }

    pub open spec fn contains(self, j: int) -> bool {
        self.start <= j < self.end
    }
}

/// The trailing window of index `i`, or `None` in cold start (`i < window`).
pub open spec fn trailing_window_of(i: int, window: int) -> Option<Span> {
    if i < window {
        None
    } else {
        Some(Span { start: (i - window) as usize, end: i as usize })
    }
}

/// The earlier index that a difference at `i` with the given lag subtracts,
/// or `None` where `i < lag` (the difference is 0 there).
pub open spec fn diff_partner_of(i: int, lag: int) -> Option<usize> {
    if i < lag {
        None
    } else {
        Some((i - lag) as usize)
    }
}

/// The trailing window of index `i` for a window of `window` samples.
pub fn trailing_window(i: usize, window: usize) -> (r: Option<Span>)
    requires
        window >= 1,
    ensures
        r == trailing_window_of(i as int, window as int),
        r is None <==> i < window,
        r matches Some(s) ==> s.len() == window && s.end == i,
{
    if i < window {
        None
    } else {
        Some(Span { start: i - window, end: i })
    }
}

/// The index that a difference at `i` subtracts from the sample at `i`.
pub fn diff_partner(i: usize, lag: usize) -> (r: Option<usize>)
    requires
        lag >= 1,
    ensures
        r == diff_partner_of(i as int, lag as int),
{
    if i < lag {
        None
    } else {
        Some(i - lag)
    }
}

/// For a series of `n` samples, the trailing window of every index: the plan
/// that both the trailing mean and the trailing standard deviation fold over.
/// Entry `i` is `None` for `i < window`: the mean there is the sample itself
/// and the standard deviation is 0.
pub fn trailing_plan(n: usize, window: usize) -> (r: Vec<Option<Span>>)
    requires
        window >= 1,
    ensures
        r@.len() == n,
        forall|i: int| 0 <= i < n ==> #[trigger] r@[i] == trailing_window_of(i, window as int),
        forall|i: int| 0 <= i < n && i < window ==> #[trigger] r@[i] is None,
{
    let mut r: Vec<Option<Span>> = Vec::new();
    let mut i: usize = 0;
    while i < n
        invariant
            i <= n,
            window >= 1,
            r@.len() == i,
            forall|k: int| 0 <= k < i ==> #[trigger] r@[k] == trailing_window_of(k, window as int),
        decreases n - i,
    {
        let w = trailing_window(i, window);
        r.push(w);
        i = i + 1;
    }
    r
}

/// For a series of `n` samples, the index that a difference with the given
/// lag subtracts at every index; `None` marks a difference of 0.
pub fn diff_plan(n: usize, lag: usize) -> (r: Vec<Option<usize>>)
    requires
        lag >= 1,
    ensures
        r@.len() == n,
        forall|i: int| 0 <= i < n ==> #[trigger] r@[i] == diff_partner_of(i, lag as int),
        forall|i: int| 0 <= i < n && i < lag ==> #[trigger] r@[i] is None,
{
    let mut r: Vec<Option<usize>> = Vec::new();
    let mut i: usize = 0;
    while i < n
        invariant
            i <= n,
            lag >= 1,
            r@.len() == i,
            forall|k: int| 0 <= k < i ==> #[trigger] r@[k] == diff_partner_of(k, lag as int),
        decreases n - i,
    {
        let d = diff_partner(i, lag);
        r.push(d);
        i = i + 1;
    }
    r
}

} // verus!
