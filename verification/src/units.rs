//! Whole-number layout units.
//!
//! Every length and coordinate of the library is an `i32` count of layout
//! units. A host that wants sub-pixel precision picks a unit smaller than a
//! pixel. Arithmetic never wraps: a result that leaves the `i32` range is
//! pinned to the nearest end of it, so an extent that grows without bound ends
//! at `i32::MAX`, which stands for "unbounded".

use vstd::prelude::*;

verus! {

/// `v` pinned to the range of `i32`.
pub open spec fn saturate(v: int) -> int {
    if v < i32::MIN as int {
        i32::MIN as int
    } else if v > i32::MAX as int {
        i32::MAX as int
    } else {
        v
    }
}

/// The larger of two integers.
pub open spec fn max_of(a: int, b: int) -> int {
    if a >= b {
        a
    } else {
        b
    }
}

/// The smaller of two integers.
pub open spec fn min_of(a: int, b: int) -> int {
    if a <= b {
        a
    } else {
        b
    }
}

/// `v` if it is positive, else zero.
pub open spec fn at_least_zero(v: int) -> int {
    max_of(0, v)
}

/// `pct` percent of `extent`, rounded down and pinned to the `i32` range.
#[verifier::opaque]
pub open spec fn percent_of_spec(extent: int, pct: int) -> int {
    saturate((extent * pct) / 100)
}

/// What is left of `outer` once `before` and `after` are taken off both
/// ends: never negative.
pub open spec fn inner_extent_spec(outer: int, before: int, after: int) -> int {
    at_least_zero(saturate(outer - before - after))
}

/// Pins a wide intermediate result to the `i32` range.
pub fn sat(v: i64) -> (r: i32)
    ensures
        r as int == saturate(v as int),
{
    if v < -2147483648i64 {
        -2147483648i32
    } else if v > 2147483647i64 {
        2147483647i32
    } else {
        v as i32
    }
}

/// Saturating sum of two lengths.
pub fn sat_add(a: i32, b: i32) -> (r: i32)
    ensures
        r as int == saturate(a + b),
{
    sat(a as i64 + b as i64)
}

/// Saturating sum of three lengths, taken in one step.
pub fn sat_add3(a: i32, b: i32, c: i32) -> (r: i32)
    ensures
        r as int == saturate(a + b + c),
{
    sat(a as i64 + b as i64 + c as i64)
}

/// Saturating difference of two lengths.
pub fn sat_sub(a: i32, b: i32) -> (r: i32)
    ensures
        r as int == saturate(a - b),
{
    sat(a as i64 - b as i64)
}

/// The larger of two lengths.
pub fn max_i32(a: i32, b: i32) -> (r: i32)
    ensures
        r as int == max_of(a as int, b as int),
{
    if a >= b {
        a
    } else {
        b
    }
}

/// The smaller of two lengths.
pub fn min_i32(a: i32, b: i32) -> (r: i32)
    ensures
        r as int == min_of(a as int, b as int),
{
    if a <= b {
        a
    } else {
        b
    }
}

/// `pct` percent of `extent`. The quotient is rounded down, also for a
/// negative product, and the result is pinned to the `i32` range.
pub fn percent_of(extent: i32, pct: i32) -> (r: i32)
    ensures
        r as int == percent_of_spec(extent as int, pct as int),
{
    reveal(percent_of_spec);
    assert(-0x4000_0000_0000_0000 <= (extent as int) * (pct as int) <= 0x4000_0000_0000_0000)
        by (nonlinear_arith)
        requires
            -0x8000_0000 <= extent as int <= 0x8000_0000,
            -0x8000_0000 <= pct as int <= 0x8000_0000,
    ;
    let prod: i64 = (extent as i64) * (pct as i64);
    let quot: i64 = if prod >= 0 {
        prod / 100
    } else {
        let neg: i64 = -prod;
        let q: i64 = neg / 100;
        let m: i64 = neg % 100;
        if m == 0 {
            -q
        } else {
            -q - 1
        }
    };
    assert(quot as int == (prod as int) / 100);
    sat(quot)
}

/// What is left of `outer` once `before` and `after` are taken off both
/// ends. A negative remainder, where the two together exceed `outer`,
/// becomes zero.
pub fn inner_extent(outer: i32, before: i32, after: i32) -> (r: i32)
    ensures
        r as int == inner_extent_spec(outer as int, before as int, after as int),
        r >= 0,
{
    let v: i32 = sat(outer as i64 - before as i64 - after as i64);
    if v < 0 {
        0
    } else {
        v
    }
}

/// Where something of extent `inner` starts so that it sits in the middle of
/// something that starts at `start` and has the extent `outer`. Half an odd
/// difference is rounded down.
pub open spec fn centered_spec(start: int, outer: int, inner: int) -> int {
    saturate(start + (outer - inner) / 2)
}

/// Where something of extent `inner` starts so that it sits in the middle of
/// something that starts at `start` and has the extent `outer`.
pub fn centered(start: i32, outer: i32, inner: i32) -> (r: i32)
    ensures
        r as int == centered_spec(start as int, outer as int, inner as int),
{
    let diff: i64 = outer as i64 - inner as i64;
    let half: i64 = if diff >= 0 {
        diff / 2
    } else {
        -((1 - diff) / 2)
    };
    assert(half as int == (diff as int) / 2);
    sat(start as i64 + half)
}

/// `v` taken `n` times, pinned to the `i32` range.
pub fn times(v: i32, n: usize) -> (r: i32)
    ensures
        r as int == saturate(v * n),
{
    if v == 0 || n == 0 {
        assert(v * n == 0) by (nonlinear_arith)
            requires
                v == 0 || n == 0,
        ;
        0
    } else if n > 0x8000_0000usize {
        if v > 0 {
            assert(v * n > i32::MAX) by (nonlinear_arith)
                requires
                    v >= 1,
                    n > 0x8000_0000,
            ;
            2147483647i32
        } else {
            assert(v * n < i32::MIN) by (nonlinear_arith)
                requires
                    v <= -1,
                    n > 0x8000_0000,
            ;
            -2147483648i32
        }
    } else {
        assert(-0x4000_0000_0000_0000 <= v * n <= 0x4000_0000_0000_0000) by (nonlinear_arith)
            requires
                -0x8000_0000 <= v <= 0x8000_0000,
                0 <= n <= 0x8000_0000,
        ;
        sat(v as i64 * n as i64)
    }
}

} // verus!
