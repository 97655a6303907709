//! The survey of an image: everything the stretch reads off the image before
//! it computes on intensities.
//!
//! The stretch needs the sample to fit a line to, the median of the sample
//! as the lower end of the display range, and the raw extremes to hold the
//! range to. The survey draws the sample once and reads the three off it. It
//! fails at the first step that has nothing to work on: an image without
//! pixels or a sample without items is empty input, and a sample of a single
//! item does not determine a line.

use vstd::prelude::*;
use crate::bounds::{held_to, raw_extremes, sample_median};
use crate::error::ScaleError;
use crate::fit::fit_sample_count;
use crate::ordinal::{equal_values, not_higher, numeric};
use crate::sampler::{
    extract_samples_with, lemma_constant_image, lemma_sample_count, samples_of, SAMPLE_TARGET,
};
use crate::sorting::is_ascending;

verus! {

/// The sample of an image with its median and its raw extremes.
#[derive(Debug, PartialEq, Eq)]
pub struct Survey {
    /// The sample, ascending; at least two items.
    pub samples: Vec<i32>,
    /// The smallest sample.
    pub lowest: i32,
    /// The sample at half the sample's length, rounded down.
    pub median: i32,
    /// The largest sample.
    pub highest: i32,
}

impl Survey {
    /// Whether this is the survey of `image` for a target of `target`
    /// samples.
    pub open spec fn describes(self, image: Seq<i32>, target: int) -> bool {
        &&& self.samples@ == samples_of(image, target)
        &&& self.samples@.len() >= 2
        &&& self.lowest == self.samples@[0]
        &&& self.median == self.samples@[self.samples@.len() as int / 2]
        &&& self.highest == self.samples@[self.samples@.len() - 1]
    }
}

/// Surveys `image` for a target of `target` samples.
///
/// The survey fails with `EmptyInput` where the image or its sample is
/// empty, and with `DegenerateFit` where the sample is a single item. Every
/// other image is surveyed.
pub fn survey_with(image: &Vec<i32>, target: usize) -> (result: Result<Survey, ScaleError>)
    requires
        target >= 1,
    ensures
        samples_of(image@, target as int).len() == 0 ==> result == Err::<Survey, ScaleError>(
            ScaleError::EmptyInput,
        ),
        samples_of(image@, target as int).len() == 1 ==> result == Err::<Survey, ScaleError>(
            ScaleError::DegenerateFit,
        ),
        samples_of(image@, target as int).len() >= 2 ==> (result matches Ok(survey)
            && survey.describes(image@, target as int)),
        result matches Ok(survey) ==> {
            &&& is_ascending(survey.samples@)
            &&& survey.lowest <= survey.median <= survey.highest
        },
{
    proof {
        lemma_sample_count(image@, target as int);
    }
    let samples = extract_samples_with(image, target)?;
    let median = sample_median(&samples)?;
    let (lowest, highest) = raw_extremes(&samples)?;
    let _ = fit_sample_count(samples.len())?;
    Ok(Survey { samples, lowest, median, highest })
}

/// Surveys `image` for the usual target of 2000 samples.
///
/// An image without pixels is `EmptyInput`, an image of a single pixel is
/// `DegenerateFit`, and every other image is surveyed.
pub fn survey(image: &Vec<i32>) -> (result: Result<Survey, ScaleError>)
    ensures
        image@.len() == 0 ==> result == Err::<Survey, ScaleError>(ScaleError::EmptyInput),
        image@.len() == 1 ==> result == Err::<Survey, ScaleError>(ScaleError::DegenerateFit),
        image@.len() >= 2 ==> (result matches Ok(survey) && survey.describes(
            image@,
            SAMPLE_TARGET as int,
        )),
        result matches Ok(survey) ==> {
            &&& is_ascending(survey.samples@)
            &&& survey.lowest <= survey.median <= survey.highest
        },
{
    proof {
        lemma_sample_count(image@, SAMPLE_TARGET as int);
    }
    survey_with(image, SAMPLE_TARGET)
}

/// The survey of an image whose pixels are all one value reads that value
/// three times: as the lowest sample, as the median and as the highest.
pub proof fn lemma_survey_of_constant_image(
    survey: Survey,
    image: Seq<i32>,
    target: int,
    value: i32,
)
    requires
        target >= 1,
        survey.describes(image, target),
        forall|j: int| 0 <= j < image.len() ==> image[j] == value,
    ensures
        survey.lowest == value,
        survey.median == value,
        survey.highest == value,
{
    lemma_constant_image(image, target, value);
}

/// A constant image has a degenerate display range: where its one value is a
/// number and the fitted line ends at or above it, the median and the upper
/// end of the display bounds are equal.
pub proof fn lemma_constant_image_is_degenerate(
    survey: Survey,
    image: Seq<i32>,
    target: int,
    value: i32,
    line_low: i32,
    line_high: i32,
)
    requires
        target >= 1,
        survey.describes(image, target),
        forall|j: int| 0 <= j < image.len() ==> image[j] == value,
        numeric(value),
        not_higher(value, line_high),
    ensures
        equal_values(
            survey.median,
            held_to(survey.lowest, survey.highest, line_low, line_high).max,
        ),
{
    lemma_survey_of_constant_image(survey, image, target, value);
}

} // verus!
