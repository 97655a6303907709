//! The failures of the pipeline.

use vstd::prelude::*;

verus! {

/// Why a stage of the pipeline gave no result.
#[derive(Clone, Copy, Debug, PartialEq, Eq, Structural)]
pub enum ScaleError {
    /// The image or the sample has no item, so nothing can be sampled,
    /// fitted or scaled.
    EmptyInput,
    /// The sample does not determine a line.
    DegenerateFit,
}

} // verus!
