//! The intensity mapper: into the display range, and from linear levels to
//! gamma-corrected output levels.
//!
//! Every pixel is first brought into the display range, then stretched
//! linearly over `0..=255` and rounded, then sent through the gamma table.
//! A display range whose ends are equal has no width and is widened before it
//! is used. The linear stretch hands over one integer level per pixel; a
//! level is meant to lie in `0..=255`, but rounding at the edges of the range
//! can push it just outside, so every level is clamped before it is looked
//! up.

use vstd::prelude::*;
use crate::gamma::{gamma_adjust_table, gamma_curve, gamma_level, lemma_gamma_level_bounds};
use crate::ordinal::{equal_values, is_equal, is_lower, lower, not_higher, numeric};

verus! {

/// An intensity brought into the range from `min` to `max`: `min` where it is
/// lower than `min`, else `max` where it is higher than `max`, else itself.
/// What is not a number is neither lower nor higher and stays as it is.
pub open spec fn clamped_value(value: i32, min: i32, max: i32) -> i32 {
    if lower(value, min) {
        min
    } else if lower(max, value) {
        max
    } else {
        value
    }
}

/// A whole image brought into the range from `min` to `max`, pixel by pixel.
pub open spec fn clamped_image(image: Seq<i32>, min: i32, max: i32) -> Seq<i32> {
    Seq::new(image.len(), |k: int| clamped_value(image[k], min, max))
}

/// A linear level brought into `0..=255`.
pub open spec fn clamped_level(level: int) -> int {
    if level < 0 {
        0
    } else if level > 255 {
        255
    } else {
        level
    }
}

/// The output level of a linear level: the gamma curve at the clamped level.
pub open spec fn corrected_level(level: int) -> int {
    gamma_level(clamped_level(level))
}

/// The output of a whole buffer of linear levels, element by element.
pub open spec fn corrected(levels: Seq<i64>) -> Seq<u8> {
    Seq::new(levels.len(), |k: int| corrected_level(levels[k] as int) as u8)
}

/// Tells whether a display range is degenerate: whether its two ends are
/// equal, so that it has no width to stretch and must be widened first.
pub fn is_degenerate(zmin: i32, zmax: i32) -> (r: bool)
    ensures
        r == equal_values(zmin, zmax),
{
    is_equal(zmin, zmax)
}

/// Brings one intensity into the range from `min` to `max`.
pub fn clamp_value(value: i32, min: i32, max: i32) -> (r: i32)
    ensures
        r == clamped_value(value, min, max),
{
    if is_lower(value, min) {
        min
    } else if is_lower(max, value) {
        max
    } else {
        value
    }
}

/// Brings every pixel of an image into the range from `min` to `max`. The
/// output has the length of the input.
pub fn clamp_to_range(image: &Vec<i32>, min: i32, max: i32) -> (out: Vec<i32>)
    ensures
        out@ == clamped_image(image@, min, max),
        out@.len() == image@.len(),
{
    let mut out: Vec<i32> = Vec::with_capacity(image.len());
    let mut k: usize = 0;
    while k < image.len()
        invariant
            k <= image.len(),
            out@.len() == k,
            forall|m: int| 0 <= m < k ==> out@[m] == clamped_value(#[trigger] image@[m], min, max),
        decreases image.len() - k,
    {
        out.push(clamp_value(image[k], min, max));
        k = k + 1;
    }
    assert(out@ =~= clamped_image(image@, min, max));
    out
}

/// The gamma table as a value: built once, never changed, and handed to the
/// mapping by reference.
pub struct GammaTable {
    entries: Vec<u8>,
}

impl GammaTable {
    #[verifier::type_invariant]
    spec fn holds_curve(self) -> bool {
        self.entries@ == gamma_curve()
    }

    /// The 256 output levels of the table.
    pub closed spec fn view(&self) -> Seq<u8> {
        self.entries@
    }

    /// Builds the table.
    pub fn new() -> (table: Self)
        ensures
            table@ == gamma_curve(),
    {
        GammaTable { entries: gamma_adjust_table() }
    }

    /// The output level of one linear level. A level below 0 is read as 0 and
    /// a level above 255 as 255.
    pub fn lookup(&self, level: i64) -> (out: u8)
        ensures
            out == corrected_level(level as int),
            out == self@[clamped_level(level as int)],
    {
        proof {
            use_type_invariant(self);
            lemma_gamma_level_bounds(clamped_level(level as int));
        }
        let index: usize = if level < 0 {
            0
        } else if level > 255 {
            255
        } else {
            level as usize
        };
        self.entries[index]
    }

    /// Maps a buffer of linear levels to output levels, element by element.
    /// The output has the length of the input.
    pub fn map_levels(&self, levels: &Vec<i64>) -> (pixels: Vec<u8>)
        ensures
            pixels@ == corrected(levels@),
            pixels@.len() == levels@.len(),
            forall|k: int|
                0 <= k < levels@.len() ==> pixels@[k] == corrected_level(#[trigger] levels@[k] as int),
    {
        let mut pixels: Vec<u8> = Vec::with_capacity(levels.len());
        let mut k: usize = 0;
        while k < levels.len()
            invariant
                k <= levels.len(),
                pixels@.len() == k,
                forall|m: int| 0 <= m < k ==> pixels@[m] == corrected_level(#[trigger] levels@[m] as int),
            decreases levels.len() - k,
        {
            pixels.push(self.lookup(levels[k]));
            k = k + 1;
        }
        proof {
            assert forall|m: int| 0 <= m < levels@.len() implies pixels@[m] == corrected(levels@)[m] by {
                lemma_gamma_level_bounds(clamped_level(levels@[m] as int));
            }
            assert(pixels@ =~= corrected(levels@));
        }
        pixels
    }

    /// The table's entries, entry `i` being the output level of input level `i`.
    pub fn entries(&self) -> (entries: &Vec<u8>)
        ensures
            entries@ == self@,
            entries@ == gamma_curve(),
    {
        proof {
            use_type_invariant(self);
        }
        &self.entries
    }
}

/// A number brought into a range whose ends are in order lies within the
/// range.
pub proof fn lemma_clamped_within(value: i32, min: i32, max: i32)
    requires
        numeric(value),
        not_higher(min, max),
    ensures
        not_higher(min, clamped_value(value, min, max)),
        not_higher(clamped_value(value, min, max), max),
{
}

/// Bringing an intensity into a range a second time changes nothing, as long
/// as the upper end of the range is not lower than the lower end.
pub proof fn lemma_clamp_settles(value: i32, min: i32, max: i32)
    requires
        !lower(max, min),
    ensures
        clamped_value(clamped_value(value, min, max), min, max) == clamped_value(value, min, max),
{
}

/// A range whose ends are out of order leaves every number at one of the
/// ends: at the lower end what is lower than it, at the upper end the rest.
pub proof fn lemma_clamp_out_of_order(value: i32, min: i32, max: i32)
    requires
        numeric(value),
        lower(max, min),
    ensures
        clamped_value(value, min, max) == if lower(value, min) {
            min
        } else {
            max
        },
{
}

/// Every output level lies in `0..=255`, whatever the linear level was.
pub proof fn lemma_corrected_level_bounds(level: int)
    ensures
        0 <= corrected_level(level) <= 255,
{
    lemma_gamma_level_bounds(clamped_level(level));
}

} // verus!
