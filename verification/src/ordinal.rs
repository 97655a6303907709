//! Intensities as ordinals.
//!
//! An intensity is a 32-bit IEEE 754 value. Its bit pattern is a sign bit over
//! a 31-bit magnitude, so patterns with the sign bit clear grow with the
//! intensity and patterns with the sign bit set shrink with it. The ordinal of
//! a pattern undoes that: it is a signed integer whose order is the total
//! order of the intensities, negative zero directly below positive zero.
//! The mapping is one to one, so the pattern is found again from the ordinal.
//!
//! The numbers are the ordinals from negative infinity up to positive
//! infinity; the ordinals beyond either infinity stand for what is not a
//! number. Comparing two intensities is comparing their ordinals, with the two
//! exceptions of IEEE 754: the two zeros are equal, and what is not a number
//! is neither below, nor above, nor equal to anything.

use vstd::prelude::*;

verus! {

/// The ordinal of negative infinity, the lowest number.
pub const LOWEST_NUMBER: i32 = -0x7F80_0001;

/// The ordinal of positive infinity, the highest number.
pub const HIGHEST_NUMBER: i32 = 0x7F80_0000;

/// The ordinal of negative zero.
pub const NEGATIVE_ZERO: i32 = -1;

/// The ordinal of positive zero.
pub const POSITIVE_ZERO: i32 = 0;

/// The ordinal of a bit pattern: the magnitude itself where the sign bit is
/// clear, and `-1 - magnitude` where it is set.
pub open spec fn ordinal(bits: u32) -> int {
    if bits < 0x8000_0000 {
        bits as int
    } else {
        0x7FFF_FFFF - bits
    }
}

/// The bit pattern of an ordinal, the inverse of `ordinal`.
pub open spec fn pattern(k: i32) -> int {
    if k >= 0 {
        k as int
    } else {
        0x7FFF_FFFF - k
    }
}

/// Whether an ordinal stands for a number, infinities included.
pub open spec fn numeric(k: i32) -> bool {
    LOWEST_NUMBER <= k <= HIGHEST_NUMBER
}

/// Whether an ordinal stands for one of the two zeros.
pub open spec fn zero(k: i32) -> bool {
    k == NEGATIVE_ZERO || k == POSITIVE_ZERO
}

/// Whether two ordinals stand for equal intensities.
pub open spec fn equal_values(a: i32, b: i32) -> bool {
    numeric(a) && numeric(b) && (a == b || (zero(a) && zero(b)))
}

/// Whether the intensity of `a` is lower than that of `b`.
pub open spec fn lower(a: i32, b: i32) -> bool {
    numeric(a) && numeric(b) && a < b && !(zero(a) && zero(b))
}

/// Whether the intensity of `a` is lower than or equal to that of `b`.
pub open spec fn not_higher(a: i32, b: i32) -> bool {
    lower(a, b) || equal_values(a, b)
}

/// The larger of two intensities. What is not a number gives way to the
/// other; of the two zeros the positive one is taken.
pub open spec fn larger_of(a: i32, b: i32) -> i32 {
    if !numeric(a) {
        b
    } else if !numeric(b) {
        a
    } else if a < b {
        b
    } else {
        a
    }
}

/// The smaller of two intensities. What is not a number gives way to the
/// other; of the two zeros the negative one is taken.
pub open spec fn smaller_of(a: i32, b: i32) -> i32 {
    if !numeric(a) {
        b
    } else if !numeric(b) {
        a
    } else if b < a {
        b
    } else {
        a
    }
}

/// Turns a bit pattern into its ordinal.
pub fn ordinal_of_bits(bits: u32) -> (k: i32)
    ensures
        k == ordinal(bits),
        pattern(k) == bits,
{
    if bits < 0x8000_0000 {
        bits as i32
    } else {
        (0x7FFF_FFFF - bits as i64) as i32
    }
}

/// Turns an ordinal back into its bit pattern.
pub fn bits_of_ordinal(k: i32) -> (bits: u32)
    ensures
        bits == pattern(k),
        ordinal(bits) == k,
{
    if k >= 0 {
        k as u32
    } else {
        (0x7FFF_FFFF - k as i64) as u32
    }
}

/// Tells whether an ordinal stands for a number.
pub fn is_number(k: i32) -> (r: bool)
    ensures
        r == numeric(k),
{
    LOWEST_NUMBER <= k && k <= HIGHEST_NUMBER
}

/// Tells whether every ordinal of a buffer stands for a number.
pub fn all_numbers(values: &Vec<i32>) -> (r: bool)
    ensures
        r == forall|k: int| 0 <= k < values@.len() ==> numeric(#[trigger] values@[k]),
{
    let mut k: usize = 0;
    while k < values.len()
        invariant
            k <= values.len(),
            forall|m: int| 0 <= m < k ==> numeric(#[trigger] values@[m]),
        decreases values.len() - k,
    {
        if !is_number(values[k]) {
            return false;
        }
        k = k + 1;
    }
    true
}

/// Tells whether two ordinals stand for equal intensities.
pub fn is_equal(a: i32, b: i32) -> (r: bool)
    ensures
        r == equal_values(a, b),
{
    is_number(a) && is_number(b) && (a == b || ((a == NEGATIVE_ZERO || a == POSITIVE_ZERO) && (b
        == NEGATIVE_ZERO || b == POSITIVE_ZERO)))
}

/// Tells whether the intensity of `a` is lower than that of `b`.
pub fn is_lower(a: i32, b: i32) -> (r: bool)
    ensures
        r == lower(a, b),
{
    is_number(a) && is_number(b) && a < b && !(a == NEGATIVE_ZERO && b == POSITIVE_ZERO)
}

/// Tells whether the intensity of `a` is lower than or equal to that of `b`.
pub fn is_not_higher(a: i32, b: i32) -> (r: bool)
    ensures
        r == not_higher(a, b),
{
    is_lower(a, b) || is_equal(a, b)
}

/// The larger of two intensities.
pub fn larger(a: i32, b: i32) -> (r: i32)
    ensures
        r == larger_of(a, b),
{
    if !is_number(a) {
        b
    } else if !is_number(b) {
        a
    } else if a < b {
        b
    } else {
        a
    }
}

/// The smaller of two intensities.
pub fn smaller(a: i32, b: i32) -> (r: i32)
    ensures
        r == smaller_of(a, b),
{
    if !is_number(a) {
        b
    } else if !is_number(b) {
        a
    } else if b < a {
        b
    } else {
        a
    }
}

/// Ordinals and bit patterns correspond one to one.
pub proof fn lemma_ordinal_round_trip(bits: u32, k: i32)
    ensures
        i32::MIN <= ordinal(bits) <= i32::MAX,
        0 <= pattern(k) <= u32::MAX,
        pattern(ordinal(bits) as i32) == bits,
        ordinal(pattern(k) as u32) == k,
{
}

/// The order of ordinals is the order of sign and magnitude: among patterns
/// with the sign bit clear the larger pattern has the larger ordinal, among
/// patterns with the sign bit set the smaller one has, and every pattern with
/// the sign bit set lies below every pattern with it clear.
pub proof fn lemma_ordinal_order(a: u32, b: u32)
    ensures
        a < 0x8000_0000 && b < 0x8000_0000 ==> (ordinal(a) <= ordinal(b) <==> a <= b),
        a >= 0x8000_0000 && b >= 0x8000_0000 ==> (ordinal(a) <= ordinal(b) <==> a >= b),
        a >= 0x8000_0000 && b < 0x8000_0000 ==> ordinal(a) < ordinal(b),
        ordinal(a) == ordinal(b) ==> a == b,
{
}

/// The numbers are the patterns whose exponent field is not all ones or whose
/// fraction field is zero: the magnitudes up to that of infinity.
pub proof fn lemma_numbers_are_magnitudes_up_to_infinity(bits: u32)
    ensures
        bits < 0x8000_0000 ==> (numeric(ordinal(bits) as i32) <==> bits <= 0x7F80_0000),
        bits >= 0x8000_0000 ==> (numeric(ordinal(bits) as i32) <==> bits - 0x8000_0000
            <= 0x7F80_0000),
{
}

/// Two numbers compare in exactly one way: the first is lower, they are
/// equal, or the second is lower. What is not a number compares in none.
pub proof fn lemma_values_compare(a: i32, b: i32)
    ensures
        numeric(a) && numeric(b) ==> (lower(a, b) || equal_values(a, b) || lower(b, a)),
        !(lower(a, b) && equal_values(a, b)),
        !(lower(a, b) && lower(b, a)),
        !(lower(b, a) && equal_values(a, b)),
        !numeric(a) || !numeric(b) ==> !lower(a, b) && !equal_values(a, b) && !lower(b, a),
        not_higher(a, b) <==> numeric(a) && numeric(b) && !lower(b, a),
{
}

/// Lower and equal intensities chain as an order does.
pub proof fn lemma_values_chain(a: i32, b: i32, c: i32)
    ensures
        lower(a, b) && lower(b, c) ==> lower(a, c),
        lower(a, b) && equal_values(b, c) ==> lower(a, c),
        equal_values(a, b) && lower(b, c) ==> lower(a, c),
        equal_values(a, b) && equal_values(b, c) ==> equal_values(a, c),
        not_higher(a, b) && not_higher(b, c) ==> not_higher(a, c),
        equal_values(a, b) ==> equal_values(b, a),
        numeric(a) ==> equal_values(a, a),
{
}

/// Among numbers, a lower intensity has a lower ordinal, and a lower
/// ordinal has an intensity that is not higher: the order of ordinals
/// refines the order of intensities.
pub proof fn lemma_ordinals_refine_values(a: i32, b: i32)
    ensures
        lower(a, b) ==> a < b,
        numeric(a) && numeric(b) && a <= b ==> not_higher(a, b),
{
}

/// The larger of two intensities is one of them and not lower than either
/// number among them; likewise the smaller.
pub proof fn lemma_larger_and_smaller(a: i32, b: i32)
    ensures
        larger_of(a, b) == a || larger_of(a, b) == b,
        smaller_of(a, b) == a || smaller_of(a, b) == b,
        numeric(a) ==> not_higher(a, larger_of(a, b)) && not_higher(smaller_of(a, b), a),
        numeric(b) ==> not_higher(b, larger_of(a, b)) && not_higher(smaller_of(a, b), b),
        numeric(a) || numeric(b) ==> numeric(larger_of(a, b)) && numeric(smaller_of(a, b)),
{
}

} // verus!
