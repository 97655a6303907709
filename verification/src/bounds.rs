//! The display range and what it takes from the sample itself.
//!
//! The display range is the stretch of the fitted line over the sample, held
//! to the sample: its lower end never lies below the smallest sample and its
//! upper end never above the largest. In an ascending sample those raw
//! extremes are the first and the last item, and the median is the item in
//! the middle. Nothing orders the two ends of the range: a line that misses
//! the sample gives a range whose ends are out of order.

use vstd::prelude::*;
use crate::error::ScaleError;
use crate::ordinal::{
    is_lower, larger, larger_of, lemma_larger_and_smaller, lower, not_higher, numeric, smaller,
    smaller_of, POSITIVE_ZERO,
};
use crate::sorting::is_ascending;

verus! {

/// A display range: the intensities shown darkest and brightest, as
/// ordinals.
#[derive(Clone, Copy, Debug, PartialEq, Eq, Structural)]
pub struct Bounds {
    pub min: i32,
    pub max: i32,
}

/// The range from `line_low` to `line_high` held to the extremes `lowest` and
/// `highest`: the lower end is the larger of `lowest` and `line_low`, the
/// upper end the smaller of `highest` and `line_high`.
pub open spec fn held_to(lowest: i32, highest: i32, line_low: i32, line_high: i32) -> Bounds {
    Bounds { min: larger_of(lowest, line_low), max: smaller_of(highest, line_high) }
}

/// The raw extremes of a sample: its first and its last item.
///
/// An empty sample has none. In an ascending sample no item lies below the
/// first of the pair and none above the second.
pub fn raw_extremes(samples: &Vec<i32>) -> (result: Result<(i32, i32), ScaleError>)
    ensures
        samples@.len() == 0 ==> result == Err::<(i32, i32), ScaleError>(ScaleError::EmptyInput),
        samples@.len() > 0 ==> result == Ok::<(i32, i32), ScaleError>(
            (samples@[0], samples@[samples@.len() - 1]),
        ),
        is_ascending(samples@) ==> (result matches Ok(ends) ==> ends.0 <= ends.1 && forall|k: int|
            0 <= k < samples@.len() ==> ends.0 <= #[trigger] samples@[k] <= ends.1),
{
    let len = samples.len();
    if len == 0 {
        Err(ScaleError::EmptyInput)
    } else {
        Ok((samples[0], samples[len - 1]))
    }
}

/// The median of a sample: the item at half its length, rounded down.
///
/// An empty sample has none. In an ascending sample no item up to the middle
/// lies above the median and no item from the middle on lies below it.
pub fn sample_median(samples: &Vec<i32>) -> (result: Result<i32, ScaleError>)
    ensures
        samples@.len() == 0 ==> result == Err::<i32, ScaleError>(ScaleError::EmptyInput),
        samples@.len() > 0 ==> result == Ok::<i32, ScaleError>(samples@[samples@.len() as int / 2]),
        is_ascending(samples@) ==> (result matches Ok(median) ==> forall|k: int|
            0 <= k < samples@.len() ==> (k <= samples@.len() as int / 2 ==> #[trigger] samples@[k]
                <= median) && (k >= samples@.len() as int / 2 ==> samples@[k] >= median)),
{
    let len = samples.len();
    if len == 0 {
        Err(ScaleError::EmptyInput)
    } else {
        Ok(samples[len / 2])
    }
}

/// Tells whether the fitted slope is to be divided by the contrast: only by
/// a contrast above zero.
pub fn contrast_applies(contrast: i32) -> (r: bool)
    ensures
        r == lower(POSITIVE_ZERO, contrast),
{
    is_lower(POSITIVE_ZERO, contrast)
}

/// The display range of a sample whose fitted line runs from `line_low` to
/// `line_high`: the line's range held to the sample's raw extremes.
///
/// An empty sample has no extremes and is refused. An end of the line that
/// is not a number leaves the raw extreme in its place.
pub fn display_bounds(samples: &Vec<i32>, line_low: i32, line_high: i32) -> (result: Result<
    Bounds,
    ScaleError,
>)
    ensures
        samples@.len() == 0 ==> result == Err::<Bounds, ScaleError>(ScaleError::EmptyInput),
        samples@.len() > 0 ==> result == Ok::<Bounds, ScaleError>(
            held_to(samples@[0], samples@[samples@.len() - 1], line_low, line_high),
        ),
{
    let (lowest, highest) = raw_extremes(samples)?;
    Ok(Bounds { min: larger(lowest, line_low), max: smaller(highest, line_high) })
}

/// The display range lies within the raw extremes: where the extremes are
/// numbers, so are the ends of the range, the lower end is not below the
/// lowest sample and the upper end not above the highest.
pub proof fn lemma_bounds_within_extremes(lowest: i32, highest: i32, line_low: i32, line_high: i32)
    requires
        numeric(lowest),
        numeric(highest),
    ensures
        numeric(held_to(lowest, highest, line_low, line_high).min),
        numeric(held_to(lowest, highest, line_low, line_high).max),
        not_higher(lowest, held_to(lowest, highest, line_low, line_high).min),
        not_higher(held_to(lowest, highest, line_low, line_high).max, highest),
{
    lemma_larger_and_smaller(lowest, line_low);
    lemma_larger_and_smaller(highest, line_high);
}

/// When the ends of the display range are in order: exactly when neither
/// the lowest sample nor the low end of the line lies above the highest
/// sample or the high end of the line.
pub proof fn lemma_bounds_in_order(lowest: i32, highest: i32, line_low: i32, line_high: i32)
    requires
        numeric(lowest),
        numeric(highest),
        numeric(line_low),
        numeric(line_high),
    ensures
        not_higher(
            held_to(lowest, highest, line_low, line_high).min,
            held_to(lowest, highest, line_low, line_high).max,
        ) <==> {
            &&& not_higher(lowest, highest)
            &&& not_higher(lowest, line_high)
            &&& not_higher(line_low, highest)
            &&& not_higher(line_low, line_high)
        },
{
}

/// A line that lies within the raw extremes is its own display range.
pub proof fn lemma_line_within_extremes(lowest: i32, highest: i32, line_low: i32, line_high: i32)
    requires
        lower(lowest, line_low),
        lower(line_high, highest),
    ensures
        held_to(lowest, highest, line_low, line_high) == (Bounds { min: line_low, max: line_high }),
{
}

} // verus!
