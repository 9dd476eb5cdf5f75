//! Unit constants and saturating integer arithmetic shared by the trackers.

use vstd::prelude::*;

verus! {

/// Milliseconds in one day; the logging system advances its flush deadline
/// by exactly this much after every flush.
pub const MILLIS_PER_DAY: i64 = 86_400_000;

/// Micro-core-seconds (thousandths of usage times milliseconds) in one
/// core-minute; rule time budgets are expressed in minutes.
pub const MICRO_CORE_SECONDS_PER_MINUTE: u128 = 60_000_000;

/// MB-milliseconds in one MB-minute.
pub const MB_MILLIS_PER_MINUTE: u128 = 60_000;

/// Saturating addition on the range of `u128`, as a mathematical function.
pub open spec fn sat_add(a: int, b: int) -> int {
    if a + b <= u128::MAX {
        a + b
    } else {
        u128::MAX as int
    }
}

/// Saturating addition on the range of `i64`, as a mathematical function
/// (used for timestamps, which never decrease when a day is added).
pub open spec fn sat_add_i64(a: int, b: int) -> int {
    if a + b <= i64::MAX {
        a + b
    } else {
        i64::MAX as int
    }
}

/// Elapsed milliseconds from `b` to `a`, clamped to the range of a
/// non-negative `i64` (elapsed time is never negative).
pub open spec fn sub_floor_zero(a: int, b: int) -> int {
    if a - b < 0 {
        0
    } else if a - b > i64::MAX {
        i64::MAX as int
    } else {
        a - b
    }
}

/// Saturating addition of two accumulators.
pub fn sat_add_u128(a: u128, b: u128) -> (r: u128)
    ensures
        r as int == sat_add(a as int, b as int),
{
    if a <= u128::MAX - b {
        a + b
    } else {
        u128::MAX
    }
}

/// Saturating addition of a non-negative duration to a timestamp.
pub fn sat_add_time(a: i64, b: i64) -> (r: i64)
    requires
        b >= 0,
    ensures
        r as int == sat_add_i64(a as int, b as int),
{
    if a <= i64::MAX - b {
        a + b
    } else {
        i64::MAX
    }
}

/// Elapsed time from `b` to `a`, never negative.
pub fn elapsed_since(a: i64, b: i64) -> (r: i64)
    ensures
        r as int == sub_floor_zero(a as int, b as int),
{
    let d: i128 = (a as i128) - (b as i128);
    if d < 0 {
        0
    } else if d > i64::MAX as i128 {
        i64::MAX
    } else {
        d as i64
    }
}

/// The product of two 64-bit quantities, widened so it cannot overflow.
pub fn widening_mul(a: u64, b: u64) -> (r: u128)
    ensures
        r as int == a as int * b as int,
{
    proof {
        lemma_u64_mul_fits(a as int, b as int);
    }
    (a as u128) * (b as u128)
}

/// The product of two values below `2^64` fits in a `u128`.
proof fn lemma_u64_mul_fits(a: int, b: int)
    requires
        0 <= a <= u64::MAX,
        0 <= b <= u64::MAX,
    ensures
        0 <= a * b <= u128::MAX,
{
    assert(a * b <= (u64::MAX as int) * (u64::MAX as int)) by (nonlinear_arith)
        requires
            0 <= a <= u64::MAX,
            0 <= b <= u64::MAX,
    ;
    assert(a * b >= 0) by (nonlinear_arith)
        requires
            0 <= a,
            0 <= b,
    ;
}

} // verus!
