//! When a sample determines a line.
//!
//! The trend of a sample is the least-squares line through the points
//! `(k, sample[k])`, the rank of a sample against its value. The ranks are
//! pairwise different, so the line is determined as soon as there are two
//! points, and never with fewer.

use vstd::prelude::*;
use crate::error::ScaleError;

verus! {

/// The least number of samples that determine a line.
pub const MIN_FIT_POINTS: usize = 2;

/// Admits a sample of `sample_count` items to the fit, and hands the count
/// back for the fit to use. A sample of fewer than two items is refused.
pub fn fit_sample_count(sample_count: usize) -> (result: Result<usize, ScaleError>)
    ensures
        sample_count < 2 ==> result == Err::<usize, ScaleError>(ScaleError::DegenerateFit),
        sample_count >= 2 ==> result == Ok::<usize, ScaleError>(sample_count),
{
    if sample_count < MIN_FIT_POINTS {
        Err(ScaleError::DegenerateFit)
    } else {
        Ok(sample_count)
    }
}

} // verus!
