use vstd::prelude::*;

verus! {

/// Ticks in one playfield unit.
pub const TICKS_PER_UNIT: i64 = 1_000_000_000;

/// Velocity of one playfield unit per second, in ticks per microsecond.
pub const UNIT_PER_SECOND: i64 = 1_000;

/// A point of the playfield or a velocity, by its two components.
#[derive(Clone, Copy, Debug, PartialEq, Eq, Structural)]
pub struct Vector2 {
    pub x: i64,
    pub y: i64,
}

/// Width and height of an axis-aligned rectangle.
#[derive(Clone, Copy, Debug, PartialEq, Eq, Structural)]
pub struct Extent {
    pub width: u64,
    pub height: u64,
}

/// `v` held to the interval from `lo` to `hi`. Where `hi < lo` the result is `lo`.
pub open spec fn clamped(v: int, lo: int, hi: int) -> int {
    if v < lo {
        lo
    } else if v > hi {
        if hi < lo {
            lo
        } else {
            hi
        }
    } else {
        v
    }
}

/// `v` held to the range of `i64`.
pub open spec fn saturated(v: int) -> int {
    clamped(v, i64::MIN as int, i64::MAX as int)
}

/// The length travelled at `velocity` during `elapsed`.
pub open spec fn displacement(velocity: int, elapsed: int) -> int {
    velocity * elapsed
}

/// Whether both components can change sign within `i64`.
pub open spec fn negatable(v: Vector2) -> bool {
    v.x > i64::MIN && v.y > i64::MIN
}

/// The square of the length of `v`.
pub open spec fn squared_length(v: Vector2) -> int {
    v.x * v.x + v.y * v.y
}

/// Moves `start` by `velocity * elapsed`, holds the result to `[lo, hi]`.
pub fn advance_clamped(start: i64, velocity: i64, elapsed: u64, lo: i64, hi: i64) -> (end: i64)
    ensures
        end == clamped(start + displacement(velocity as int, elapsed as int), lo as int, hi as int),
        lo <= hi ==> lo <= end <= hi,
{
    let v: i128 = velocity as i128;
    let t: i128 = elapsed as i128;
    assert(-0x7fff_ffff_ffff_ffff_8000_0000_0000_0000 <= v * t
        <= 0x7fff_ffff_ffff_ffff_8000_0000_0000_0000) by (nonlinear_arith)
        requires
            -0x8000_0000_0000_0000 <= v <= 0x8000_0000_0000_0000,
            0 <= t <= 0xffff_ffff_ffff_ffff,
    ;
    let target: i128 = start as i128 + v * t;
    if target < lo as i128 {
        lo
    } else if target > hi as i128 {
        if hi < lo {
            lo
        } else {
            hi
        }
    } else {
        target as i64
    }
}

/// Moves `start` by `velocity * elapsed`; the result stops at the ends of `i64`.
pub fn advance(start: i64, velocity: i64, elapsed: u64) -> (end: i64)
    ensures
        end == saturated(start + displacement(velocity as int, elapsed as int)),
        i64::MIN <= start + displacement(velocity as int, elapsed as int) <= i64::MAX ==> end
            == start + displacement(velocity as int, elapsed as int),
{
    advance_clamped(start, velocity, elapsed, i64::MIN, i64::MAX)
}

} // verus!
