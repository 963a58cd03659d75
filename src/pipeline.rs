//! The pipeline's layout for one ticker: which window, lag and bandwidth each
//! stage uses, the input checks, and the per-index plan of every stage.
//!
//! Stage A folds the close prices over the trailing windows of `window`
//! samples into a mean and a standard deviation, and from them the alpha.
//! Stage B sums the alpha cumulatively, detrends the sum against its own
//! trailing mean over `CALPHA_MEAN_WINDOW` samples, takes its difference at
//! lag `GRADIENT_LAG`, and smooths that with bandwidths `SHORT_BANDWIDTH`
//! (the signal the detector reads) and `LONG_BANDWIDTH` (a diagnostic column).
use vstd::prelude::*;
use crate::kernel::{smoothing_plan, support_of};
use crate::window::{diff_partner_of, diff_plan, trailing_plan, trailing_window_of, Span};

verus! {

/// The trailing window of the close prices when none is chosen.
pub const DEFAULT_WINDOW: usize = 5;

/// The trailing window that the cumulative alpha is detrended over.
pub const CALPHA_MEAN_WINDOW: usize = 20;

/// The lag of the difference that turns the detrended sum into a gradient.
pub const GRADIENT_LAG: usize = 1;

/// The bandwidth of the smoothed signal that the detector reads.
pub const SHORT_BANDWIDTH: usize = 5;

/// The bandwidth of the longer, diagnostic smoothed signal.
pub const LONG_BANDWIDTH: usize = 10;

/// Why a price series cannot go through the pipeline.
#[derive(Clone, Copy, Debug, PartialEq, Eq, Structural)]
pub enum InvalidInput {
    /// The series has no rows.
    EmptySeries,
    /// The trailing window is 0.
    ZeroWindow,
    /// The input columns do not all have the same number of rows.
    MismatchedColumns,
}

/// The per-index plan of every stage for a series of a given length.
pub struct StagePlan {
    /// The trailing windows of the close prices (mean and standard deviation).
    pub price_windows: Vec<Option<Span>>,
    /// The trailing windows of the cumulative alpha.
    pub calpha_windows: Vec<Option<Span>>,
    /// The earlier index that the gradient subtracts at each index.
    pub gradient: Vec<Option<usize>>,
    /// The support of the short smoothing at each index.
    pub short_support: Vec<Span>,
    /// The support of the long smoothing at each index.
    pub long_support: Vec<Span>,
}

impl StagePlan {
    /// Every stage has one entry per row, each as its stage defines it.
    pub open spec fn is_plan_for(&self, n: nat, window: nat) -> bool {
        &&& self.price_windows@.len() == n
        &&& self.calpha_windows@.len() == n
        &&& self.gradient@.len() == n
        &&& self.short_support@.len() == n
        &&& self.long_support@.len() == n
        &&& forall|i: int|
            0 <= i < n ==> {
                &&& #[trigger] self.price_windows@[i] == trailing_window_of(i, window as int)
                &&& self.calpha_windows@[i] == trailing_window_of(i, CALPHA_MEAN_WINDOW as int)
                &&& self.gradient@[i] == diff_partner_of(i, GRADIENT_LAG as int)
                &&& self.short_support@[i] == support_of(i, n as int, SHORT_BANDWIDTH as int)
                &&& self.long_support@[i] == support_of(i, n as int, LONG_BANDWIDTH as int)
            }
    }
}

/// The number of rows of a price series given the lengths of its date, close,
/// high and low columns.
pub fn row_count(dates: usize, close: usize, high: usize, low: usize) -> (r: Result<
    usize,
    InvalidInput,
>)
    ensures
        r == (if dates != close || high != close || low != close {
            Err(InvalidInput::MismatchedColumns)
        } else if close == 0 {
            Err(InvalidInput::EmptySeries)
        } else {
            Ok(close)
        }),
{
    if dates != close || high != close || low != close {
        Err(InvalidInput::MismatchedColumns)
    } else if close == 0 {
        Err(InvalidInput::EmptySeries)
    } else {
        Ok(close)
    }
}

/// Plans every stage for a series of `n` rows and a trailing window of
/// `window` samples.
pub fn plan_pipeline(n: usize, window: usize) -> (r: Result<StagePlan, InvalidInput>)
    ensures
        n == 0 <==> r == Err::<StagePlan, InvalidInput>(InvalidInput::EmptySeries),
        n > 0 && window == 0 <==> r == Err::<StagePlan, InvalidInput>(InvalidInput::ZeroWindow),
        r matches Ok(p) ==> p.is_plan_for(n as nat, window as nat),
        n > 0 && window > 0 ==> r is Ok,
{
    if n == 0 {
        return Err(InvalidInput::EmptySeries);
    }
    if window == 0 {
        return Err(InvalidInput::ZeroWindow);
    }
    let plan = StagePlan {
        price_windows: trailing_plan(n, window),
        calpha_windows: trailing_plan(n, CALPHA_MEAN_WINDOW),
        gradient: diff_plan(n, GRADIENT_LAG),
        short_support: smoothing_plan(n, SHORT_BANDWIDTH),
        long_support: smoothing_plan(n, LONG_BANDWIDTH),
    };
    assert(plan.is_plan_for(n as nat, window as nat));
    Ok(plan)
}

} // verus!
