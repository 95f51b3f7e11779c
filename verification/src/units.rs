//! Shared fixed-point helpers: positions are milli-units (one thousandth of a
//! world unit), times are milliseconds.

use vstd::prelude::*;

verus! {

/// Milli-units per world unit.
pub const MILLI: i64 = 1000;

/// Absolute value of a mathematical integer.
pub open spec fn spec_abs(v: int) -> int {
    if v < 0 {
        -v
    } else {
        v
    }
}

/// `v` clamped to the closed interval `[lo, hi]`.
pub open spec fn spec_clamp(v: int, lo: int, hi: int) -> int {
    if v < lo {
        lo
    } else if v > hi {
        hi
    } else {
        v
    }
}

/// `a + b`, saturating at `u64::MAX`.
pub open spec fn spec_cap_add(a: int, b: int) -> int {
    if a + b <= u64::MAX {
        a + b
    } else {
        u64::MAX as int
    }
}

/// Absolute value on machine integers.
pub fn abs_i64(v: i64) -> (r: i64)
    requires
        v > i64::MIN,
    ensures
        r as int == spec_abs(v as int),
{
    if v < 0 {
        -v
    } else {
        v
    }
}

/// Clamp on machine integers.
pub fn clamp_i64(v: i64, lo: i64, hi: i64) -> (r: i64)
    requires
        lo <= hi,
    ensures
        r as int == spec_clamp(v as int, lo as int, hi as int),
{
    if v < lo {
        lo
    } else if v > hi {
        hi
    } else {
        v
    }
}

/// Saturating addition on `u64`.
pub fn cap_add_u64(a: u64, b: u64) -> (r: u64)
    ensures
        r as int == spec_cap_add(a as int, b as int),
{
    if a <= u64::MAX - b {
        a + b
    } else {
        u64::MAX
    }
}

} // verus!
