//! Fixed-point quantities used by the controller.
//!
//! Lengths are micrometres, speeds micrometres per second, accelerations
//! micrometres per second squared and durations microseconds. Directions
//! (contact normals, the body's up axis) are integer vectors whose unit
//! length is `UNIT`; cosine thresholds use the same scale.
use vstd::prelude::*;

verus! {

/// Microseconds in one second.
pub const MICROS_PER_SECOND: i64 = 1_000_000;

/// Length of a unit direction vector, and the scale of cosine thresholds.
pub const UNIT: i64 = 10_000;

/// Largest magnitude of a velocity component, in micrometres per second.
pub const MAX_SPEED: i64 = 1_000_000_000;

/// Largest magnitude of a position component accepted by the solver, in micrometres.
pub const MAX_COORD: i64 = 1_000_000_000_000;

/// Longest time step accepted by one solver call, in microseconds.
pub const MAX_STEP_MICROS: u64 = 1_000_000;

/// A 3D integer vector: a position, a displacement, a velocity or a direction.
#[derive(Clone, Copy, Debug, PartialEq, Eq, Structural)]
pub struct Vector3 {
    pub x: i64,
    pub y: i64,
    pub z: i64,
}

pub open spec fn abs(a: int) -> int {
    if a >= 0 {
        a
    } else {
        -a
    }
}

/// Division rounding toward zero, as Rust's `/` on integers does.
pub open spec fn tdiv(a: int, b: int) -> int {
    if a >= 0 {
        a / b
    } else {
        -((-a) / b)
    }
}

pub open spec fn dot(a: Vector3, b: Vector3) -> int {
    a.x * b.x + a.y * b.y + a.z * b.z
}

pub open spec fn norm_sq(a: Vector3) -> int {
    dot(a, a)
}

/// Sum of the magnitudes of the components.
pub open spec fn l1(a: Vector3) -> int {
    abs(a.x as int) + abs(a.y as int) + abs(a.z as int)
}

/// Every component lies in `[-bound, bound]`.
pub open spec fn in_box(a: Vector3, bound: int) -> bool {
    -bound <= a.x <= bound && -bound <= a.y <= bound && -bound <= a.z <= bound
}

/// A direction: a unit vector scaled by `UNIT`, no component longer than
/// `UNIT`, its squared length within one percent of `UNIT * UNIT`
/// (100_000_000), room enough for rounding a unit vector to integers.
pub open spec fn is_direction(n: Vector3) -> bool {
    &&& in_box(n, UNIT as int)
    &&& 99_000_000 <= norm_sq(n) <= 101_000_000
}

/// `a` and `b` differ by at most `d` in every component.
pub open spec fn within(a: Vector3, b: Vector3, d: int) -> bool {
    abs(a.x - b.x) <= d && abs(a.y - b.y) <= d && abs(a.z - b.z) <= d
}

/// Squared distance between `a` and `b`.
pub open spec fn dist_sq(a: Vector3, b: Vector3) -> int {
    (a.x - b.x) * (a.x - b.x) + (a.y - b.y) * (a.y - b.y) + (a.z - b.z) * (a.z - b.z)
}

pub open spec fn vec_add(a: Vector3, b: Vector3) -> Vector3 {
    Vector3 { x: (a.x + b.x) as i64, y: (a.y + b.y) as i64, z: (a.z + b.z) as i64 }
}

pub open spec fn clamp(a: int, bound: int) -> int {
    if a > bound {
        bound
    } else if a < -bound {
        -bound
    } else {
        a
    }
}

/// Each component saturated to `[-MAX_SPEED, MAX_SPEED]`.
pub open spec fn saturate(v: Vector3) -> Vector3 {
    Vector3 {
        x: clamp(v.x as int, MAX_SPEED as int) as i64,
        y: clamp(v.y as int, MAX_SPEED as int) as i64,
        z: clamp(v.z as int, MAX_SPEED as int) as i64,
    }
}

/// The integer square root: the largest `r` with `r * r <= x`.
pub open spec fn is_isqrt(x: int, r: int) -> bool {
    0 <= r && r * r <= x < (r + 1) * (r + 1)
}

/// The integer square root of a non-negative `x`.
pub open spec fn sqrt_floor(x: int) -> int {
    choose|r: int| is_isqrt(x, r)
}

/// A number has at most one integer square root.
pub proof fn lemma_isqrt_unique(x: int, a: int, b: int)
    requires
        is_isqrt(x, a),
        is_isqrt(x, b),
    ensures
        a == b,
{
    if a < b {
        assert((a + 1) * (a + 1) <= b * b) by (nonlinear_arith)
            requires
                0 <= a + 1 <= b,
        ;
    } else if b < a {
        assert((b + 1) * (b + 1) <= a * a) by (nonlinear_arith)
            requires
                0 <= b + 1 <= a,
        ;
    }
}

pub proof fn lemma_tdiv_bounds(a: int, b: int)
    requires
        b > 0,
    ensures
        abs(tdiv(a, b)) * b <= abs(a),
        abs(tdiv(a, b)) <= abs(a),
        abs(a - b * tdiv(a, b)) < b,
        a >= 0 ==> tdiv(a, b) >= 0,
        a <= 0 ==> tdiv(a, b) <= 0,
        a % b == 0 && a >= 0 ==> a == b * tdiv(a, b),
{
    if a >= 0 {
        assert(a == b * (a / b) + a % b) by (nonlinear_arith)
            requires
                b > 0,
        ;
        assert(0 <= a % b < b);
        assert(a / b >= 0) by (nonlinear_arith)
            requires
                b > 0,
                a >= 0,
        ;
        assert((a / b) * b <= a) by (nonlinear_arith)
            requires
                a == b * (a / b) + a % b,
                a % b >= 0,
        ;
        assert(a / b <= a) by (nonlinear_arith)
            requires
                (a / b) * b <= a,
                b > 0,
                a / b >= 0,
        ;
    } else {
        let c = -a;
        assert(c == b * (c / b) + c % b) by (nonlinear_arith)
            requires
                b > 0,
        ;
        assert(0 <= c % b < b);
        assert(c / b >= 0) by (nonlinear_arith)
            requires
                b > 0,
                c >= 0,
        ;
        assert((c / b) * b <= c) by (nonlinear_arith)
            requires
                c == b * (c / b) + c % b,
                c % b >= 0,
        ;
        assert(c / b <= c) by (nonlinear_arith)
            requires
                (c / b) * b <= c,
                b > 0,
                c / b >= 0,
        ;
        assert(a - b * tdiv(a, b) == -(c % b)) by (nonlinear_arith)
            requires
                c == b * (c / b) + c % b,
                a == -c,
                tdiv(a, b) == -(c / b),
        ;
    }
}

pub proof fn lemma_mul_bound(a: int, b: int, x: int, y: int)
    requires
        abs(a) <= x,
        abs(b) <= y,
    ensures
        abs(a * b) <= x * y,
{
    assert(abs(a * b) == abs(a) * abs(b)) by (nonlinear_arith);
    assert(abs(a) * abs(b) <= x * y) by (nonlinear_arith)
        requires
            0 <= abs(a) <= x,
            0 <= abs(b) <= y,
    ;
}

pub proof fn lemma_square_le(a: int, b: int)
    requires
        abs(a) <= abs(b),
    ensures
        a * a <= b * b,
{
    assert(abs(a) * abs(a) <= abs(b) * abs(b)) by (nonlinear_arith)
        requires
            0 <= abs(a) <= abs(b),
    ;
    assert(a * a == abs(a) * abs(a)) by (nonlinear_arith);
    assert(b * b == abs(b) * abs(b)) by (nonlinear_arith);
}

pub proof fn lemma_abs_from_square(a: int, b: int)
    requires
        b >= 0,
        a * a <= b * b,
    ensures
        abs(a) <= b,
{
    if abs(a) > b {
        assert(abs(a) * abs(a) > b * b) by (nonlinear_arith)
            requires
                abs(a) > b,
                b >= 0,
        ;
        assert(a * a == abs(a) * abs(a)) by (nonlinear_arith);
    }
}

/// Each component of `v` is bounded by the square root of its squared norm.
pub proof fn lemma_component_bound(v: Vector3, b: int)
    requires
        b >= 0,
        norm_sq(v) <= b * b,
    ensures
        in_box(v, b),
{
    assert(v.x * v.x >= 0 && v.y * v.y >= 0 && v.z * v.z >= 0) by (nonlinear_arith);
    lemma_abs_from_square(v.x as int, b);
    lemma_abs_from_square(v.y as int, b);
    lemma_abs_from_square(v.z as int, b);
}

/// Rust's `/` on a value and a positive divisor, stated as `tdiv`.
pub fn trunc_div(a: i128, b: i128) -> (r: i128)
    requires
        b > 0,
        a > i128::MIN,
    ensures
        r == tdiv(a as int, b as int),
{
    if a >= 0 {
        a / b
    } else {
        -((-a) / b)
    }
}

/// The integer square root of `x`, by bisection.
pub fn isqrt(x: u64) -> (r: u64)
    ensures
        is_isqrt(x as int, r as int),
        r < 0x1_0000_0000,
        x >= 1 ==> r >= 1,
        r == sqrt_floor(x as int),
{
    let mut lo: u64 = 0;
    let mut hi: u64 = 0x1_0000_0000;
    assert(x < 0x1_0000_0000u64 as int * 0x1_0000_0000u64 as int);
    while hi - lo > 1
        invariant
            lo < hi <= 0x1_0000_0000,
            lo * lo <= x,
            x < hi * hi,
        decreases hi - lo,
    {
        let mid: u64 = lo + (hi - lo) / 2;
        assert(lo < mid < hi);
        assert(mid * mid < 0x1_0000_0000u64 as int * 0x1_0000_0000u64 as int) by (nonlinear_arith)
            requires
                mid < 0x1_0000_0000u64,
        ;
        let sq: u128 = (mid as u128) * (mid as u128);
        if sq <= x as u128 {
            lo = mid;
        } else {
            hi = mid;
        }
    }
    assert(hi == lo + 1);
    proof {
        let s = sqrt_floor(x as int);
        assert(is_isqrt(x as int, lo as int));
        lemma_isqrt_unique(x as int, lo as int, s);
    }
    if x >= 1 && lo == 0 {
        assert(hi * hi == 1) by (nonlinear_arith)
            requires
                hi == 1,
        ;
    }
    lo
}

/// Saturates each component to `[-MAX_SPEED, MAX_SPEED]`.
pub fn saturate_velocity(v: Vector3) -> (r: Vector3)
    ensures
        r == saturate(v),
        in_box(r, MAX_SPEED as int),
{
    Vector3 {
        x: clamp_i64(v.x, MAX_SPEED),
        y: clamp_i64(v.y, MAX_SPEED),
        z: clamp_i64(v.z, MAX_SPEED),
    }
}

pub fn clamp_i64(a: i64, bound: i64) -> (r: i64)
    requires
        bound >= 0,
    ensures
        r == clamp(a as int, bound as int),
{
    if a > bound {
        bound
    } else if a < -bound {
        -bound
    } else {
        a
    }
}

} // verus!
