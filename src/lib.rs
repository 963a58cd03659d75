//! Index-level logic of a price-series alpha signal: which samples each
//! trailing statistic and each smoothed value draws on, the Gaussian kernel's
//! exact exponents, the pipeline's stage layout, and the buy/sell detector.
//! The floating-point folds over those plans are left to the caller.

pub mod window;
pub mod kernel;
pub mod detector;
pub mod pipeline;
