//! The gamma curve and the table built from it.
//!
//! The curve sends an input level `i` in `0..=255` to
//! `floor(256 * (i / 255)^(2/5))`, capped at 255. Raising both sides of
//! `t <= 256 * (i / 255)^(2/5)` to the fifth power and clearing the fractions
//! gives `t^5 * 255^2 <= 256^5 * i^2`, a comparison of integers, so the table
//! is exact.

use vstd::prelude::*;

verus! {

/// Number of entries of the gamma table.
pub const GAMMA_LEVELS: usize = 256;

/// Largest input and output level.
pub const MAX_LEVEL: u8 = 255;

/// Whether `t <= 256 * (i / 255)^(2/5)`, stated as `t^5 * 255^2 <= 256^5 * i^2`.
pub open spec fn under_curve(t: int, i: int) -> bool {
    t * t * t * t * t * 65025 <= 1099511627776 * (i * i)
}

/// Whether `t` is the output level of input level `i`: the largest level in
/// `0..=255` that lies on or under the curve at `i`.
pub open spec fn is_gamma_level(t: int, i: int) -> bool {
    &&& 0 <= t <= 255
    &&& under_curve(t, i)
    &&& (t < 255 ==> !under_curve(t + 1, i))
}

/// The output level of input level `i`: `floor(256 * (i / 255)^(2/5))`, capped
/// at 255.
pub open spec fn gamma_level(i: int) -> int {
    choose|t: int| is_gamma_level(t, i)
}

/// The whole curve as a sequence of 256 output levels.
pub open spec fn gamma_curve() -> Seq<u8> {
    Seq::new(256, |i: int| gamma_level(i) as u8)
}

proof fn lemma_fifth_power_monotone(a: int, b: int)
    requires
        0 <= a <= b,
    ensures
        a * a * a * a * a <= b * b * b * b * b,
{
    assert(a * a <= b * b) by (nonlinear_arith)
        requires
            0 <= a <= b,
    ;
    assert(a * a * a <= b * b * b) by (nonlinear_arith)
        requires
            0 <= a <= b,
            0 <= a * a <= b * b,
    ;
    assert(a * a * a * a <= b * b * b * b) by (nonlinear_arith)
        requires
            0 <= a <= b,
            0 <= a * a * a <= b * b * b,
    ;
    assert(a * a * a * a * a <= b * b * b * b * b) by (nonlinear_arith)
        requires
            0 <= a <= b,
            0 <= a * a * a * a <= b * b * b * b,
    ;
}

/// A level under the curve stays under it when it is lowered.
proof fn lemma_under_curve_lower(t: int, u: int, i: int)
    requires
        0 <= t <= u,
        under_curve(u, i),
    ensures
        under_curve(t, i),
{
    lemma_fifth_power_monotone(t, u);
}

/// A level under the curve stays under it when the input level is raised.
proof fn lemma_under_curve_later(t: int, i: int, j: int)
    requires
        0 <= i <= j,
        under_curve(t, i),
    ensures
        under_curve(t, j),
{
    assert(i * i <= j * j) by (nonlinear_arith)
        requires
            0 <= i <= j,
    ;
}

/// Walks up from a level under the curve to the output level of `i`.
proof fn lemma_level_above(t: int, i: int) -> (level: int)
    requires
        0 <= t <= 255,
        under_curve(t, i),
    ensures
        is_gamma_level(level, i),
    decreases 255 - t,
{
    if t < 255 && under_curve(t + 1, i) {
        lemma_level_above(t + 1, i)
    } else {
        t
    }
}

/// Every input level has an output level, and `gamma_level` is it.
pub proof fn lemma_gamma_level_exists(i: int)
    ensures
        is_gamma_level(gamma_level(i), i),
{
    assert(i * i >= 0) by (nonlinear_arith);
    assert(under_curve(0, i));
    let level = lemma_level_above(0, i);
    assert(is_gamma_level(level, i));
}

/// The output level of an input level is unique: whatever satisfies
/// `is_gamma_level` at `i` is `gamma_level(i)`.
pub proof fn lemma_gamma_level_unique(t: int, i: int)
    requires
        is_gamma_level(t, i),
    ensures
        gamma_level(i) == t,
{
    lemma_gamma_level_exists(i);
    let g = gamma_level(i);
    if g < t {
        lemma_under_curve_lower(g + 1, t, i);
    } else if t < g {
        lemma_under_curve_lower(t + 1, g, i);
    }
}

/// Output levels lie in `0..=255`.
pub proof fn lemma_gamma_level_bounds(i: int)
    ensures
        0 <= gamma_level(i) <= 255,
{
    lemma_gamma_level_exists(i);
}

/// The gamma curve never falls: a higher input level gives an output level
/// at least as high.
pub proof fn lemma_gamma_monotone(i: int, j: int)
    requires
        0 <= i <= j,
    ensures
        gamma_level(i) <= gamma_level(j),
{
    lemma_gamma_level_exists(i);
    lemma_gamma_level_exists(j);
    let a = gamma_level(i);
    let b = gamma_level(j);
    if b < a {
        lemma_under_curve_later(a, i, j);
        lemma_under_curve_lower(b + 1, a, j);
    }
}

/// The two ends of the curve: level 0 stays 0 and level 255 stays 255.
pub proof fn lemma_gamma_ends()
    ensures
        gamma_level(0) == 0,
        gamma_level(255) == 255,
{
    assert(is_gamma_level(0, 0));
    lemma_gamma_level_unique(0, 0);
    assert(is_gamma_level(255, 255));
    lemma_gamma_level_unique(255, 255);
}

/// Decides `under_curve` for a candidate level and an input level.
fn lies_under_curve(t: u64, i: u64) -> (r: bool)
    requires
        t <= 256,
        i <= 255,
    ensures
        r == under_curve(t as int, i as int),
{
    assert(t * t <= 65536) by (nonlinear_arith)
        requires
            t <= 256,
    ;
    let t2: u64 = t * t;
    assert(t2 * t <= 16777216) by (nonlinear_arith)
        requires
            t2 <= 65536,
            t <= 256,
    ;
    let t3: u64 = t2 * t;
    assert(t3 * t <= 4294967296) by (nonlinear_arith)
        requires
            t3 <= 16777216,
            t <= 256,
    ;
    let t4: u64 = t3 * t;
    assert(t4 * t <= 1099511627776) by (nonlinear_arith)
        requires
            t4 <= 4294967296,
            t <= 256,
    ;
    let t5: u64 = t4 * t;
    assert(i * i <= 65025) by (nonlinear_arith)
        requires
            i <= 255,
    ;
    let i2: u64 = i * i;
    t5 * 65025 <= 1099511627776 * i2
}

/// Builds the gamma table: 256 output levels, entry `i` holding
/// `gamma_level(i)`.
pub fn gamma_adjust_table() -> (table: Vec<u8>)
    ensures
        table@ == gamma_curve(),
        forall|i: int| 0 <= i < 256 ==> table@[i] == gamma_level(i),
        forall|i: int, j: int| 0 <= i <= j < 256 ==> table@[i] <= table@[j],
{
    let mut table: Vec<u8> = Vec::with_capacity(GAMMA_LEVELS);
    let mut level: u8 = 0;
    let mut i: u64 = 0;
    assert(under_curve(0, 0));
    while i < 256
        invariant
            i <= 256,
            table@.len() == i,
            under_curve(level as int, i as int),
            forall|k: int| 0 <= k < i ==> table@[k] == gamma_level(k),
        decreases 256 - i,
    {
        while level < MAX_LEVEL && lies_under_curve(level as u64 + 1, i)
            invariant
                i < 256,
                under_curve(level as int, i as int),
            decreases 255 - level,
        {
            level = level + 1;
        }
        proof {
            lemma_gamma_level_unique(level as int, i as int);
            lemma_under_curve_later(level as int, i as int, i + 1);
        }
        table.push(level);
        i = i + 1;
    }
    proof {
        assert forall|a: int, b: int| 0 <= a <= b < 256 implies table@[a] <= table@[b] by {
            lemma_gamma_monotone(a, b);
        }
        assert forall|k: int| 0 <= k < 256 implies table@[k] == gamma_curve()[k] by {
            lemma_gamma_level_bounds(k);
        }
        assert(table@ =~= gamma_curve());
    }
    table
}

} // verus!
