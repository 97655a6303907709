//! Drawing the sample.
//!
//! The sample is an evenly spaced subset of the image, put in ascending
//! order. For a target of `n` samples the stride is the image's length
//! divided by `n`, rounded down, and the items at the stride, twice the
//! stride and so on are taken: the item at index 0 is never among them. An
//! image shorter than the target has no such stride and is sampled whole.

use vstd::prelude::*;
use vstd::arithmetic::div_mod::{lemma_fundamental_div_mod, lemma_mod_bound};
use vstd::seq_lib::to_multiset_contains;
use crate::error::ScaleError;
use crate::ordinal::{lemma_ordinals_refine_values, not_higher, numeric};
use crate::sorting::{
    ascending, is_ascending, lemma_ascending_arranges, lemma_ascending_fixed, lemma_ascending_unique,
    sort_ascending,
};

verus! {

/// The number of samples aimed at where the caller names none.
pub const SAMPLE_TARGET: usize = 2000;

/// Every `stride`-th item of `image` after the first: the items at `stride`,
/// `2 * stride`, and so on.
pub open spec fn strided(image: Seq<i32>, stride: int) -> Seq<i32> {
    Seq::new(((image.len() - 1) / stride) as nat, |k: int| image[(k + 1) * stride])
}

/// The items picked from `image` for a target of `target` samples, in the
/// order in which they stand in the image.
pub open spec fn sample_picks(image: Seq<i32>, target: int) -> Seq<i32> {
    if image.len() < target {
        image
    } else {
        strided(image, image.len() as int / target)
    }
}

/// The sample of `image` for a target of `target` samples: the picked items
/// in ascending order.
pub open spec fn samples_of(image: Seq<i32>, target: int) -> Seq<i32> {
    ascending(sample_picks(image, target))
}

/// Collects every `stride`-th item of `image` after the first.
fn gather(image: &Vec<i32>, stride: usize) -> (picks: Vec<i32>)
    requires
        1 <= stride,
        1 <= image.len(),
    ensures
        picks@ == strided(image@, stride as int),
{
    let len = image.len();
    let count = (len - 1) / stride;
    assert(count * stride <= len - 1) by (nonlinear_arith)
        requires
            count == (len - 1) / (stride as int),
            1 <= stride,
            1 <= len,
    ;
    let mut picks: Vec<i32> = Vec::with_capacity(count);
    let mut k: usize = 0;
    while k < count
        invariant
            k <= count,
            len == image.len(),
            count * stride <= len - 1,
            picks@.len() == k,
            forall|m: int| 0 <= m < k ==> picks@[m] == image@[(m + 1) * stride],
        decreases count - k,
    {
        assert((k + 1) * stride <= count * stride) by (nonlinear_arith)
            requires
                k + 1 <= count,
                0 <= stride,
        ;
        let at = (k + 1) * stride;
        picks.push(image[at]);
        k = k + 1;
    }
    assert(picks@ =~= strided(image@, stride as int));
    picks
}

/// Copies a vector of ordinals.
fn copy_of(image: &Vec<i32>) -> (copy: Vec<i32>)
    ensures
        copy@ == image@,
{
    let mut copy: Vec<i32> = Vec::with_capacity(image.len());
    let mut k: usize = 0;
    while k < image.len()
        invariant
            k <= image.len(),
            copy@ == image@.take(k as int),
        decreases image.len() - k,
    {
        copy.push(image[k]);
        assert(image@.take(k + 1) =~= image@.take(k as int).push(image@[k as int]));
        k = k + 1;
    }
    assert(image@.take(k as int) =~= image@);
    copy
}

/// Draws the sample of `image` for a target of `target` samples.
///
/// An empty image has no sample and is refused. Every other image has one:
/// the picked items in ascending order. An image shorter than the target
/// gives as many samples as it has pixels, any other image at least one less
/// than the target and less than twice the target.
pub fn extract_samples_with(image: &Vec<i32>, target: usize) -> (result: Result<
    Vec<i32>,
    ScaleError,
>)
    requires
        target >= 1,
    ensures
        image@.len() == 0 ==> result == Err::<Vec<i32>, ScaleError>(ScaleError::EmptyInput),
        image@.len() > 0 ==> (result matches Ok(samples) && samples@ == samples_of(
            image@,
            target as int,
        )),
        result matches Ok(samples) ==> {
            &&& is_ascending(samples@)
            &&& samples@.to_multiset() == sample_picks(image@, target as int).to_multiset()
            &&& image@.len() < target ==> samples@.len() == image@.len()
            &&& image@.len() >= target ==> target - 1 <= samples@.len() < 2 * target
        },
{
    proof {
        lemma_sample_count(image@, target as int);
    }
    let len = image.len();
    if len == 0 {
        return Err(ScaleError::EmptyInput);
    }
    let picks = if len < target {
        copy_of(image)
    } else {
        proof {
            lemma_stride_bounds(len as int, target as int);
        }
        gather(image, len / target)
    };
    Ok(sort_ascending(&picks))
}

/// Draws the sample of `image` for the usual target of 2000 samples.
///
/// An empty image is refused. An image of fewer than 2000 pixels is sampled
/// whole, any other image at every stride after its first pixel.
pub fn extract_samples(image: &Vec<i32>) -> (result: Result<Vec<i32>, ScaleError>)
    ensures
        image@.len() == 0 ==> result == Err::<Vec<i32>, ScaleError>(ScaleError::EmptyInput),
        image@.len() > 0 ==> (result matches Ok(samples) && samples@ == samples_of(
            image@,
            SAMPLE_TARGET as int,
        )),
        result matches Ok(samples) ==> {
            &&& is_ascending(samples@)
            &&& samples@.to_multiset() == sample_picks(image@, SAMPLE_TARGET as int).to_multiset()
            &&& image@.len() < 2000 ==> samples@.len() == image@.len()
            &&& image@.len() >= 2000 ==> 1999 <= samples@.len() < 4000
        },
{
    extract_samples_with(image, SAMPLE_TARGET)
}

/// The sample never falls and is a rearrangement of the picked items.
pub proof fn lemma_samples_ascend(image: Seq<i32>, target: int)
    ensures
        is_ascending(samples_of(image, target)),
        samples_of(image, target).to_multiset() == sample_picks(image, target).to_multiset(),
        samples_of(image, target).len() == sample_picks(image, target).len(),
{
    lemma_ascending_arranges(sample_picks(image, target));
}

/// Samples that are numbers never fall in intensity: of two such samples the
/// earlier is lower than or equal to the later.
pub proof fn lemma_sample_values_never_fall(image: Seq<i32>, target: int, i: int, j: int)
    requires
        0 <= i <= j < samples_of(image, target).len(),
        numeric(samples_of(image, target)[i]),
        numeric(samples_of(image, target)[j]),
    ensures
        not_higher(samples_of(image, target)[i], samples_of(image, target)[j]),
{
    lemma_samples_ascend(image, target);
    lemma_ordinals_refine_values(samples_of(image, target)[i], samples_of(image, target)[j]);
}

/// The sample is the only ascending arrangement of the picked items:
/// whatever never falls and holds the picked items, each as often as it was
/// picked, is the sample.
pub proof fn lemma_sample_is_unique(image: Seq<i32>, target: int, other: Seq<i32>)
    requires
        is_ascending(other),
        other.to_multiset() == sample_picks(image, target).to_multiset(),
    ensures
        other == samples_of(image, target),
{
    lemma_samples_ascend(image, target);
    lemma_ascending_unique(other, samples_of(image, target));
}

/// An ascending image shorter than the target is its own sample.
pub proof fn lemma_short_ascending_image(image: Seq<i32>, target: int)
    requires
        image.len() < target,
        is_ascending(image),
    ensures
        samples_of(image, target) == image,
{
    lemma_ascending_fixed(image);
}

/// Every picked item is a pixel of the image.
proof fn lemma_picks_are_pixels(image: Seq<i32>, target: int, m: int)
    requires
        target >= 1,
        0 <= m < sample_picks(image, target).len(),
    ensures
        image.contains(sample_picks(image, target)[m]),
{
    if image.len() < target {
        assert(image[m] == sample_picks(image, target)[m]);
    } else {
        let len = image.len() as int;
        let stride = len / target;
        lemma_stride_bounds(len, target);
        let count = (len - 1) / stride;
        assert(count * stride <= len - 1) by (nonlinear_arith)
            requires
                count == (len - 1) / stride,
                1 <= stride,
                1 <= len,
        ;
        assert(0 <= (m + 1) * stride <= count * stride) by (nonlinear_arith)
            requires
                0 <= m,
                m + 1 <= count,
                1 <= stride,
        ;
        assert(image[(m + 1) * stride] == sample_picks(image, target)[m]);
    }
}

/// Every sample is a pixel of the image.
pub proof fn lemma_samples_are_pixels(image: Seq<i32>, target: int, k: int)
    requires
        target >= 1,
        0 <= k < samples_of(image, target).len(),
    ensures
        image.contains(samples_of(image, target)[k]),
{
    let samples = samples_of(image, target);
    let picks = sample_picks(image, target);
    lemma_samples_ascend(image, target);
    to_multiset_contains(samples, samples[k]);
    to_multiset_contains(picks, samples[k]);
    assert(samples.contains(samples[k]));
    let m = choose|m: int| 0 <= m < picks.len() && picks[m] == samples[k];
    lemma_picks_are_pixels(image, target, m);
}

/// The sample of an image whose pixels are all one value holds nothing but
/// that value.
pub proof fn lemma_constant_image(image: Seq<i32>, target: int, value: i32)
    requires
        target >= 1,
        forall|j: int| 0 <= j < image.len() ==> image[j] == value,
    ensures
        forall|k: int|
            0 <= k < samples_of(image, target).len() ==> #[trigger] samples_of(image, target)[k]
                == value,
{
    assert forall|k: int| 0 <= k < samples_of(image, target).len() implies #[trigger] samples_of(
        image,
        target,
    )[k] == value by {
        lemma_samples_are_pixels(image, target, k);
    }
}

/// How many samples an image gives.
///
/// An image shorter than the target gives as many samples as it has items.
/// Any other image gives one sample for each whole stride after the first
/// item, which is at least one less than the target and less than twice the
/// target.
pub proof fn lemma_sample_count(image: Seq<i32>, target: int)
    requires
        target >= 1,
    ensures
        image.len() < target ==> samples_of(image, target).len() == image.len(),
        image.len() >= target ==> {
            &&& samples_of(image, target).len() == (image.len() - 1) / (image.len() as int
                / target)
            &&& target - 1 <= samples_of(image, target).len() < 2 * target
            &&& samples_of(image, target).len() < image.len()
        },
{
    lemma_samples_ascend(image, target);
    if image.len() >= target {
        let len = image.len() as int;
        lemma_stride_bounds(len, target);
        lemma_count_bounds(len, target, len / target);
    }
}

/// The stride of an image at least as long as the target is at least 1, and
/// the image is at least `stride` targets long and less than `stride + 1`.
proof fn lemma_stride_bounds(len: int, target: int)
    requires
        1 <= target <= len,
    ensures
        1 <= len / target,
        (len / target) * target <= len < (len / target + 1) * target,
        len == (len / target) * target + len % target,
        0 <= len % target < target,
{
    lemma_fundamental_div_mod(len, target);
    lemma_mod_bound(len, target);
    let s = len / target;
    let r = len % target;
    assert(target * s == s * target) by (nonlinear_arith);
    assert((s + 1) * target == s * target + target) by (nonlinear_arith);
    if s < 1 {
        assert(s * target <= 0) by (nonlinear_arith)
            requires
                s <= 0,
                target >= 1,
        ;
    }
}

/// The number of whole strides after the first item, held against the
/// target.
proof fn lemma_count_bounds(len: int, target: int, stride: int)
    requires
        1 <= target <= len,
        stride == len / target,
    ensures
        target - 1 <= (len - 1) / stride < 2 * target,
        (len - 1) / stride < len,
        (len - 1) / stride <= target <==> len % target <= stride,
{
    lemma_stride_bounds(len, target);
    let r = len % target;
    let count = (len - 1) / stride;
    lemma_fundamental_div_mod(len - 1, stride);
    lemma_mod_bound(len - 1, stride);
    assert(stride * count == count * stride) by (nonlinear_arith);
    // Now len - 1 is known twice over: as count * stride plus a rest below
    // stride, and as stride * target + r - 1.
    if count < target - 1 {
        assert(count * stride <= (target - 2) * stride) by (nonlinear_arith)
            requires
                count <= target - 2,
                stride >= 1,
        ;
        assert((target - 2) * stride == stride * target - 2 * stride) by (nonlinear_arith);
    }
    if count >= 2 * target {
        assert(count * stride >= 2 * target * stride) by (nonlinear_arith)
            requires
                count >= 2 * target,
                stride >= 1,
        ;
        assert(2 * target * stride == stride * target + stride * target) by (nonlinear_arith);
        assert(stride * target >= target) by (nonlinear_arith)
            requires
                stride >= 1,
                target >= 1,
        ;
    }
    if count >= len {
        assert(count * stride >= count) by (nonlinear_arith)
            requires
                count >= 0,
                stride >= 1,
        ;
    }
    if count <= target {
        if r > stride {
            assert(count * stride <= target * stride) by (nonlinear_arith)
                requires
                    count <= target,
                    stride >= 1,
            ;
            assert(target * stride == stride * target) by (nonlinear_arith);
        }
    } else {
        if r <= stride {
            assert(count * stride >= (target + 1) * stride) by (nonlinear_arith)
                requires
                    count >= target + 1,
                    stride >= 1,
            ;
            assert((target + 1) * stride == stride * target + stride) by (nonlinear_arith);
        }
    }
}

/// When the sample stays within the target.
///
/// An image at least as long as the target gives at most `target` samples
/// exactly when the remainder of its length by the target is at most its
/// stride.
pub proof fn lemma_sample_count_within_target(image: Seq<i32>, target: int)
    requires
        1 <= target <= image.len(),
    ensures
        samples_of(image, target).len() <= target <==> (image.len() as int) % target <= (
        image.len() as int) / target,
{
    lemma_samples_ascend(image, target);
    let len = image.len() as int;
    lemma_count_bounds(len, target, len / target);
}

/// An image of at least `target * (target - 1)` items gives at most `target`
/// samples.
pub proof fn lemma_sample_count_of_large_image(image: Seq<i32>, target: int)
    requires
        1 <= target <= image.len(),
        image.len() >= target * (target - 1),
    ensures
        target - 1 <= samples_of(image, target).len() <= target,
{
    lemma_sample_count(image, target);
    lemma_sample_count_within_target(image, target);
    let len = image.len() as int;
    lemma_stride_bounds(len, target);
    let stride = len / target;
    if stride < target - 1 {
        assert((stride + 1) * target <= (target - 1) * target) by (nonlinear_arith)
            requires
                stride + 1 <= target - 1,
                target >= 1,
        ;
        assert((target - 1) * target == target * (target - 1)) by (nonlinear_arith);
    }
}

} // verus!
