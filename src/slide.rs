//! Move-and-slide: turns a desired velocity into a collision-respecting
//! displacement over one time step, by repeated sweeps against the world
//! and projection of the velocity onto each contacted surface.
use vstd::prelude::*;

use crate::fixed::{
    abs, dot, in_box, is_direction, is_isqrt, isqrt, l1, lemma_abs_from_square,
    lemma_component_bound, lemma_mul_bound, lemma_square_le, lemma_tdiv_bounds, norm_sq, saturate,
    saturate_velocity, tdiv, trunc_div, vec_add, dist_sq, within, Vector3, MAX_COORD, MAX_SPEED,
    MAX_STEP_MICROS, MICROS_PER_SECOND, UNIT,
};

verus! {

/// A blocking contact reported by a sweep.
#[derive(Clone, Copy, Debug, PartialEq, Eq, Structural)]
pub struct Contact {
    /// Distance travelled along the motion before touching, in micrometres.
    pub distance: i64,
    /// Normal of the touched surface.
    pub normal: Vector3,
    /// Identity of the touched entity.
    pub entity: u64,
    /// The touched entity is a surface that forces sliding.
    pub forces_slide: bool,
}

/// Parameters of one solver call.
#[derive(Clone, Copy, Debug, PartialEq, Eq, Structural)]
pub struct MoveAndSlideConfig {
    /// Most sweeps made by one call.
    pub move_and_slide_iterations: u8,
    /// Clearance kept from a contacted surface, in micrometres.
    pub skin_width: i64,
}

/// One contact as the solver resolved it.
#[derive(Clone, Copy, Debug, PartialEq, Eq, Structural)]
pub struct ResolvedHit {
    /// Where the sweep started.
    pub from: Vector3,
    /// The swept motion.
    pub motion: Vector3,
    /// Length of `motion`, rounded down, in micrometres.
    pub sweep_length: i64,
    /// What the sweep reported.
    pub contact: Contact,
    /// Where the body came to rest, short of the contact by the skin width.
    pub to: Vector3,
    /// Velocity with which the body met the surface.
    pub incoming_velocity: Vector3,
    /// Time of the step still to be resolved after this contact, in microseconds.
    pub time_left: u64,
}

/// The result of one solver call.
#[derive(Clone, Debug)]
pub struct SlideOutcome {
    pub position: Vector3,
    /// Velocity as last projected onto a contacted surface.
    pub projected_velocity: Vector3,
    /// The contacts met, in order.
    pub hits: Vec<ResolvedHit>,
    /// Time of the step left unresolved, in microseconds.
    pub time_left: u64,
}

pub open spec fn is_zero(v: Vector3) -> bool {
    v.x == 0 && v.y == 0 && v.z == 0
}

/// Displacement of `v` over `t` microseconds.
pub open spec fn motion_of(v: Vector3, t: int) -> Vector3 {
    Vector3 {
        x: tdiv(v.x * t, MICROS_PER_SECOND as int) as i64,
        y: tdiv(v.y * t, MICROS_PER_SECOND as int) as i64,
        z: tdiv(v.z * t, MICROS_PER_SECOND as int) as i64,
    }
}

/// A contact distance held to the swept length.
pub open spec fn reached(distance: int, len: int) -> int {
    if distance < 0 {
        0
    } else if distance > len {
        len
    } else {
        distance
    }
}

/// How far the body moves toward a contact: the contact distance less the skin width, never negative.
pub open spec fn safe_distance(distance: int, len: int, skin: int) -> int {
    if reached(distance, len) - skin > 0 {
        reached(distance, len) - skin
    } else {
        0
    }
}

/// The part of `m`, of length `len`, that covers `dist`.
pub open spec fn along(m: Vector3, len: int, dist: int) -> Vector3 {
    Vector3 {
        x: tdiv(m.x * dist, len) as i64,
        y: tdiv(m.y * dist, len) as i64,
        z: tdiv(m.z * dist, len) as i64,
    }
}

/// Time left after a contact at `distance` along a sweep of length `len`.
pub open spec fn time_after(t: int, len: int, distance: int) -> int {
    t * (len - reached(distance, len)) / len
}

pub open spec fn slide_numerator(vi: int, ni: int, vn: int, d: int) -> int {
    d * vi - ni * vn
}

/// `v` with its component along `n` removed, each coordinate rounded toward zero.
pub open spec fn slide_velocity(v: Vector3, n: Vector3) -> Vector3 {
    let d = norm_sq(n);
    let vn = dot(v, n);
    Vector3 {
        x: tdiv(slide_numerator(v.x as int, n.x as int, vn, d), d) as i64,
        y: tdiv(slide_numerator(v.y as int, n.y as int, vn, d), d) as i64,
        z: tdiv(slide_numerator(v.z as int, n.z as int, vn, d), d) as i64,
    }
}

/// Two of the three components are zero.
pub open spec fn is_axis_aligned(n: Vector3) -> bool {
    (n.x == 0 && n.y == 0) || (n.y == 0 && n.z == 0) || (n.x == 0 && n.z == 0)
}

/// `hit` is the resolution of a sweep from `pos` with velocity `vel` and
/// `t` microseconds left, with skin width `skin`.
pub open spec fn hit_follows(hit: ResolvedHit, pos: Vector3, vel: Vector3, t: int, skin: int) -> bool {
    &&& hit.from == pos
    &&& hit.incoming_velocity == vel
    &&& hit.motion == motion_of(vel, t)
    &&& !is_zero(hit.motion)
    &&& is_isqrt(norm_sq(hit.motion), hit.sweep_length as int)
    &&& hit.to == vec_add(
        pos,
        along(
            hit.motion,
            hit.sweep_length as int,
            safe_distance(hit.contact.distance as int, hit.sweep_length as int, skin),
        ),
    )
    &&& hit.time_left == time_after(t, hit.sweep_length as int, hit.contact.distance as int)
}

/// Position, velocity and time left before sweep `k` of a call.
pub open spec fn state_before(
    start: Vector3,
    velocity: Vector3,
    dt: u64,
    hits: Seq<ResolvedHit>,
    k: int,
) -> (Vector3, Vector3, u64) {
    if k == 0 {
        (start, velocity, dt)
    } else {
        let h = hits[k - 1];
        (h.to, slide_velocity(h.incoming_velocity, h.contact.normal), h.time_left)
    }
}

/// No sweep of `sweep` ever reports a contact.
pub open spec fn unobstructed<F: Fn(Vector3, Vector3) -> Option<Contact>>(sweep: F) -> bool {
    forall|p: Vector3, m: Vector3, r: Option<Contact>| #[trigger] sweep.ensures((p, m), r) ==> r is None
}

/// Every contact that `sweep` reports has a direction as its normal.
pub open spec fn reports_directions<F: Fn(Vector3, Vector3) -> Option<Contact>>(sweep: F) -> bool {
    forall|p: Vector3, m: Vector3, c: Contact| #[trigger] sweep.ensures((p, m), Some(c)) ==> is_direction(c.normal)
}

/// Hit `k` of `hits` is what sweep `k` of a call reported, resolved.
pub open spec fn resolved_by<F: Fn(Vector3, Vector3) -> Option<Contact>>(
    sweep: F,
    start: Vector3,
    velocity: Vector3,
    dt: u64,
    skin: i64,
    hits: Seq<ResolvedHit>,
    k: int,
) -> bool {
    let (p, v, t) = state_before(start, velocity, dt, hits, k);
    &&& hit_follows(hits[k], p, v, t as int, skin as int)
    &&& sweep.ensures((p, hits[k].motion), Some(hits[k].contact))
}

/// How a call ends from position `p`, velocity `v` and `t` microseconds
/// left, when it may still sweep (`capped` is false) or may not: with
/// nothing left to move, with the sweep cap reached, or by travelling the
/// whole remaining motion when the last sweep found nothing.
pub open spec fn ends_at<F: Fn(Vector3, Vector3) -> Option<Contact>>(
    sweep: F,
    p: Vector3,
    v: Vector3,
    t: u64,
    capped: bool,
    position: Vector3,
    time_left: u64,
) -> bool {
    let m = motion_of(v, t as int);
    if is_zero(m) || capped {
        position == p && time_left == t
    } else {
        sweep.ensures((p, m), None) && position == vec_add(p, m) && time_left == 0
    }
}

/// Moving from `a` to `b` covers no more than `velocity` does in `t`
/// microseconds. Summed over the legs of a call, whose times add up to at
/// most the step, the distance covered is at most the speed times the step.
pub open spec fn leg_within_speed(a: Vector3, b: Vector3, velocity: Vector3, t: int) -> bool {
    dist_sq(b, a) * 1_000_000_000_000 <= norm_sq(velocity) * (t * t)
}

/// What a call of `move_and_slide` from `start` with `velocity` for `dt`
/// microseconds returns: each hit is the resolution of the sweep that met
/// it; the call ends with nothing left to move, with the sweep cap reached,
/// or by travelling the rest of the motion when a sweep found nothing; the
/// velocity is the last projection, saturated. The time left never grows
/// from one hit to the next and never exceeds `dt`; with no obstacle the
/// body ends exactly at `start` plus the whole motion; and with speeds in
/// range the final velocity keeps no component along the last normal.
pub open spec fn is_slide_outcome<F: Fn(Vector3, Vector3) -> Option<Contact>>(
    sweep: F,
    start: Vector3,
    velocity: Vector3,
    dt: u64,
    config: MoveAndSlideConfig,
    out: SlideOutcome,
) -> bool {
    let hits = out.hits@;
    let (p, v, t) = state_before(start, velocity, dt, hits, hits.len() as int);
    &&& hits.len() <= config.move_and_slide_iterations
    &&& forall|k: int|
        0 <= k < hits.len() ==> #[trigger] resolved_by(
            sweep,
            start,
            velocity,
            dt,
            config.skin_width,
            hits,
            k,
        )
    &&& out.projected_velocity == saturate(v)
    &&& ends_at(
        sweep,
        p,
        v,
        t,
        hits.len() == config.move_and_slide_iterations,
        out.position,
        out.time_left,
    )
    &&& forall|k: int|
        0 <= k < hits.len() ==> #[trigger] hits[k].time_left <= state_before(
            start,
            velocity,
            dt,
            hits,
            k,
        ).2
    &&& out.time_left <= dt
    &&& forall|k: int|
        0 <= k < hits.len() ==> #[trigger] leg_within_speed(
            hits[k].from,
            hits[k].to,
            velocity,
            state_before(start, velocity, dt, hits, k).2 - hits[k].time_left,
        )
    &&& leg_within_speed(p, out.position, velocity, t - out.time_left)
    &&& (unobstructed(sweep) && config.move_and_slide_iterations > 0 ==> hits.len() == 0
        && out.position == vec_add(start, motion_of(velocity, dt as int)))
    &&& (norm_sq(velocity) <= MAX_SPEED * MAX_SPEED && hits.len() > 0 ==> {
        let n = hits[hits.len() - 1].contact.normal;
        &&& abs(dot(out.projected_velocity, n)) < l1(n)
        &&& is_axis_aligned(n) ==> dot(out.projected_velocity, n) == 0
    })
}

proof fn lemma_square_of_difference(d: int, a: int, b: int, c: int)
    ensures
        (d * a - b * c) * (d * a - b * c) == d * d * (a * a) - 2 * d * c * (b * a) + c * c * (b * b),
{
    let p = d * a;
    let q = b * c;
    assert((p - q) * (p - q) == p * p - 2 * (p * q) + q * q) by (nonlinear_arith);
    lemma_mul_swap(d, a, d, a);
    lemma_mul_swap(d, a, b, c);
    lemma_mul_swap(b, c, b, c);
    assert((d * c) * (a * b) == d * c * (b * a)) by (nonlinear_arith);
    assert((d * b) * (a * c) == (d * c) * (a * b)) by (nonlinear_arith);
    assert((b * b) * (c * c) == c * c * (b * b)) by (nonlinear_arith);
    assert(2 * d * c * (b * a) == 2 * ((d * c) * (b * a))) by (nonlinear_arith);
}

proof fn lemma_mul_swap(a: int, b: int, c: int, d: int)
    ensures
        (a * b) * (c * d) == (a * c) * (b * d),
{
    assert((a * b) * (c * d) == (a * c) * (b * d)) by (nonlinear_arith);
}

/// The squared numerators of the sliding projection sum to
/// `d * d * |v|^2 - d * (v . n)^2`, with `d = |n|^2`.
proof fn lemma_slide_numerators(vx: int, vy: int, vz: int, nx: int, ny: int, nz: int)
    ensures
        ({
            let d = nx * nx + ny * ny + nz * nz;
            let vn = vx * nx + vy * ny + vz * nz;
            let vv = vx * vx + vy * vy + vz * vz;
            (d * vx - nx * vn) * (d * vx - nx * vn) + (d * vy - ny * vn) * (d * vy - ny * vn) + (d
                * vz - nz * vn) * (d * vz - nz * vn) == d * d * vv - d * vn * vn
        }),
{
    let d = nx * nx + ny * ny + nz * nz;
    let vn = vx * nx + vy * ny + vz * nz;
    let vv = vx * vx + vy * vy + vz * vz;
    lemma_square_of_difference(d, vx, nx, vn);
    lemma_square_of_difference(d, vy, ny, vn);
    lemma_square_of_difference(d, vz, nz, vn);
    assert(d * d * (vx * vx) + d * d * (vy * vy) + d * d * (vz * vz) == d * d * vv) by (nonlinear_arith)
        requires
            vv == vx * vx + vy * vy + vz * vz,
    ;
    assert(2 * d * vn * (nx * vx) + 2 * d * vn * (ny * vy) + 2 * d * vn * (nz * vz) == 2 * d * vn
        * vn) by (nonlinear_arith)
        requires
            vn == vx * nx + vy * ny + vz * nz,
    ;
    assert(vn * vn * (nx * nx) + vn * vn * (ny * ny) + vn * vn * (nz * nz) == vn * vn * d) by (nonlinear_arith)
        requires
            d == nx * nx + ny * ny + nz * nz,
    ;
    assert(vn * vn * d == d * vn * vn) by (nonlinear_arith);
    assert(2 * d * vn * vn == 2 * (d * vn * vn)) by (nonlinear_arith);
}

/// The sliding projection never lengthens the velocity.
pub proof fn lemma_slide_norm(v: Vector3, n: Vector3)
    requires
        is_direction(n),
        norm_sq(v) <= 3 * MAX_SPEED * MAX_SPEED,
    ensures
        norm_sq(slide_velocity(v, n)) <= norm_sq(v),
        in_box(slide_velocity(v, n), 2 * MAX_SPEED),
        slide_velocity(v, n).x == tdiv(slide_numerator(v.x as int, n.x as int, dot(v, n), norm_sq(n)), norm_sq(n)),
        slide_velocity(v, n).y == tdiv(slide_numerator(v.y as int, n.y as int, dot(v, n), norm_sq(n)), norm_sq(n)),
        slide_velocity(v, n).z == tdiv(slide_numerator(v.z as int, n.z as int, dot(v, n), norm_sq(n)), norm_sq(n)),
{
    let d = norm_sq(n);
    let vn = dot(v, n);
    let nx = slide_numerator(v.x as int, n.x as int, vn, d);
    let ny = slide_numerator(v.y as int, n.y as int, vn, d);
    let nz = slide_numerator(v.z as int, n.z as int, vn, d);
    let sx = tdiv(nx, d);
    let sy = tdiv(ny, d);
    let sz = tdiv(nz, d);
    lemma_tdiv_bounds(nx, d);
    lemma_tdiv_bounds(ny, d);
    lemma_tdiv_bounds(nz, d);
    assert(abs(sx * d) <= abs(nx)) by (nonlinear_arith)
        requires
            abs(sx) * d <= abs(nx),
            d > 0,
    ;
    assert(abs(sy * d) <= abs(ny)) by (nonlinear_arith)
        requires
            abs(sy) * d <= abs(ny),
            d > 0,
    ;
    assert(abs(sz * d) <= abs(nz)) by (nonlinear_arith)
        requires
            abs(sz) * d <= abs(nz),
            d > 0,
    ;
    lemma_square_le(sx * d, nx);
    lemma_square_le(sy * d, ny);
    lemma_square_le(sz * d, nz);
    let vv = norm_sq(v);
    lemma_slide_numerators(
        v.x as int,
        v.y as int,
        v.z as int,
        n.x as int,
        n.y as int,
        n.z as int,
    );
    assert(d * vn * vn >= 0) by (nonlinear_arith)
        requires
            d > 0,
    ;
    let ss = sx * sx + sy * sy + sz * sz;
    assert((sx * d) * (sx * d) == d * d * (sx * sx)) by (nonlinear_arith);
    assert((sy * d) * (sy * d) == d * d * (sy * sy)) by (nonlinear_arith);
    assert((sz * d) * (sz * d) == d * d * (sz * sz)) by (nonlinear_arith);
    assert(d * d * ss == d * d * (sx * sx) + d * d * (sy * sy) + d * d * (sz * sz)) by (nonlinear_arith)
        requires
            ss == sx * sx + sy * sy + sz * sz,
    ;
    assert(d * d * ss <= d * d * vv);
    assert(ss <= vv) by (nonlinear_arith)
        requires
            d * d * ss <= d * d * vv,
            d > 0,
    ;
    assert(sx * sx >= 0 && sy * sy >= 0 && sz * sz >= 0) by (nonlinear_arith);
    let m = 2 * MAX_SPEED;
    assert(3 * MAX_SPEED * MAX_SPEED <= m * m) by (nonlinear_arith)
        requires
            m == 2 * MAX_SPEED,
    ;
    lemma_abs_from_square(sx, m);
    lemma_abs_from_square(sy, m);
    lemma_abs_from_square(sz, m);
    let s = slide_velocity(v, n);
    assert(s.x == sx && s.y == sy && s.z == sz);
}

/// Sliding removes the velocity's component along the contact normal: what
/// remains of it is under one unit per normal component (rounding toward
/// zero), and nothing at all when the normal lies along an axis.
pub proof fn lemma_slide_clears_normal(v: Vector3, n: Vector3)
    requires
        is_direction(n),
        norm_sq(v) <= 3 * MAX_SPEED * MAX_SPEED,
    ensures
        abs(dot(slide_velocity(v, n), n)) < l1(n),
        is_axis_aligned(n) ==> dot(slide_velocity(v, n), n) == 0,
{
    lemma_slide_norm(v, n);
    let d = norm_sq(n);
    let vn = dot(v, n);
    let nx = slide_numerator(v.x as int, n.x as int, vn, d);
    let ny = slide_numerator(v.y as int, n.y as int, vn, d);
    let nz = slide_numerator(v.z as int, n.z as int, vn, d);
    let sx = tdiv(nx, d);
    let sy = tdiv(ny, d);
    let sz = tdiv(nz, d);
    lemma_tdiv_bounds(nx, d);
    lemma_tdiv_bounds(ny, d);
    lemma_tdiv_bounds(nz, d);
    let rx = nx - d * sx;
    let ry = ny - d * sy;
    let rz = nz - d * sz;
    lemma_normal_weights_cancel(v.x as int, v.y as int, v.z as int, n.x as int, n.y as int, n.z as int);
    let ds = d * (sx * n.x + sy * n.y + sz * n.z);
    lemma_distribute3(d, sx, n.x as int, sy, n.y as int, sz, n.z as int);
    assert(n.x * (d * sx) == n.x * nx - n.x * rx) by (nonlinear_arith)
        requires
            d * sx == nx - rx,
    ;
    assert(n.y * (d * sy) == n.y * ny - n.y * ry) by (nonlinear_arith)
        requires
            d * sy == ny - ry,
    ;
    assert(n.z * (d * sz) == n.z * nz - n.z * rz) by (nonlinear_arith)
        requires
            d * sz == nz - rz,
    ;
    assert(ds == -(n.x * rx + n.y * ry + n.z * rz));
    lemma_weighted_remainder(n.x as int, rx, d);
    lemma_weighted_remainder(n.y as int, ry, d);
    lemma_weighted_remainder(n.z as int, rz, d);
    let l = l1(n);
    assert(abs(n.x as int) * (d - 1) + abs(n.y as int) * (d - 1) + abs(n.z as int) * (d - 1) == (d
        - 1) * l) by (nonlinear_arith)
        requires
            l == abs(n.x as int) + abs(n.y as int) + abs(n.z as int),
    ;
    assert(abs(ds) <= (d - 1) * l);
    assert(l > 0) by {
        if l == 0 {
            assert(n.x == 0 && n.y == 0 && n.z == 0);
            assert(d == 0) by (nonlinear_arith)
                requires
                    n.x == 0 && n.y == 0 && n.z == 0,
                    d == n.x * n.x + n.y * n.y + n.z * n.z,
            ;
        }
    }
    let dt = sx * n.x + sy * n.y + sz * n.z;
    assert(abs(dt) < l) by (nonlinear_arith)
        requires
            abs(ds) <= (d - 1) * l,
            ds == d * dt,
            d > 0,
            l > 0,
    ;
    if is_axis_aligned(n) {
        if n.y == 0 && n.z == 0 {
            assert(nx == 0) by (nonlinear_arith)
                requires
                    n.y == 0 && n.z == 0,
                    d == n.x * n.x + n.y * n.y + n.z * n.z,
                    vn == v.x * n.x + v.y * n.y + v.z * n.z,
                    nx == d * v.x - n.x * vn,
            ;
            assert(sx == 0);
            assert(sx * n.x + sy * n.y + sz * n.z == 0) by (nonlinear_arith)
                requires
                    sx == 0,
                    n.y == 0,
                    n.z == 0,
            ;
        } else if n.x == 0 && n.z == 0 {
            assert(ny == 0) by (nonlinear_arith)
                requires
                    n.x == 0 && n.z == 0,
                    d == n.x * n.x + n.y * n.y + n.z * n.z,
                    vn == v.x * n.x + v.y * n.y + v.z * n.z,
                    ny == d * v.y - n.y * vn,
            ;
            assert(sy == 0);
            assert(sy * n.y + sx * n.x + sz * n.z == 0) by (nonlinear_arith)
                requires
                    sy == 0,
                    n.x == 0,
                    n.z == 0,
            ;
        } else {
            assert(nz == 0) by (nonlinear_arith)
                requires
                    n.x == 0 && n.y == 0,
                    d == n.x * n.x + n.y * n.y + n.z * n.z,
                    vn == v.x * n.x + v.y * n.y + v.z * n.z,
                    nz == d * v.z - n.z * vn,
            ;
            assert(sz == 0);
            assert(sz * n.z + sx * n.x + sy * n.y == 0) by (nonlinear_arith)
                requires
                    sz == 0,
                    n.x == 0,
                    n.y == 0,
            ;
        }
    }
}

/// The normal-weighted sum of the sliding numerators is zero.
proof fn lemma_normal_weights_cancel(vx: int, vy: int, vz: int, nx: int, ny: int, nz: int)
    ensures
        ({
            let d = nx * nx + ny * ny + nz * nz;
            let vn = vx * nx + vy * ny + vz * nz;
            nx * (d * vx - nx * vn) + ny * (d * vy - ny * vn) + nz * (d * vz - nz * vn) == 0
        }),
{
    let d = nx * nx + ny * ny + nz * nz;
    let vn = vx * nx + vy * ny + vz * nz;
    assert(nx * (d * vx - nx * vn) == d * (vx * nx) - vn * (nx * nx)) by (nonlinear_arith);
    assert(ny * (d * vy - ny * vn) == d * (vy * ny) - vn * (ny * ny)) by (nonlinear_arith);
    assert(nz * (d * vz - nz * vn) == d * (vz * nz) - vn * (nz * nz)) by (nonlinear_arith);
    assert(d * (vx * nx) + d * (vy * ny) + d * (vz * nz) == d * vn) by (nonlinear_arith)
        requires
            vn == vx * nx + vy * ny + vz * nz,
    ;
    assert(vn * (nx * nx) + vn * (ny * ny) + vn * (nz * nz) == vn * d) by (nonlinear_arith)
        requires
            d == nx * nx + ny * ny + nz * nz,
    ;
    assert(d * vn == vn * d) by (nonlinear_arith);
}

proof fn lemma_distribute3(d: int, a1: int, b1: int, a2: int, b2: int, a3: int, b3: int)
    ensures
        d * (a1 * b1 + a2 * b2 + a3 * b3) == b1 * (d * a1) + b2 * (d * a2) + b3 * (d * a3),
{
    assert(d * (a1 * b1 + a2 * b2 + a3 * b3) == d * (a1 * b1) + d * (a2 * b2) + d * (a3 * b3)) by (nonlinear_arith);
    lemma_mul_rotate(d, a1, b1);
    lemma_mul_rotate(d, a2, b2);
    lemma_mul_rotate(d, a3, b3);
}

proof fn lemma_mul_rotate(d: int, a: int, b: int)
    ensures
        d * (a * b) == b * (d * a),
{
    assert(d * (a * b) == b * (d * a)) by (nonlinear_arith);
}

proof fn lemma_weighted_remainder(a: int, r: int, d: int)
    requires
        abs(r) < d,
    ensures
        abs(a * r) <= abs(a) * (d - 1),
{
    assert(abs(a * r) == abs(a) * abs(r)) by (nonlinear_arith);
    assert(abs(a) * abs(r) <= abs(a) * (d - 1)) by (nonlinear_arith)
        requires
            abs(r) <= d - 1,
            abs(a) >= 0,
    ;
}

/// `v` with its component along `n` removed: the velocity left after
/// sliding along a surface with normal `n`.
pub fn project_on_plane(v: Vector3, n: Vector3) -> (r: Vector3)
    requires
        is_direction(n),
        norm_sq(v) <= 3 * MAX_SPEED * MAX_SPEED,
    ensures
        r == slide_velocity(v, n),
        norm_sq(r) <= norm_sq(v),
{
    proof {
        assert(3 * MAX_SPEED * MAX_SPEED <= (2 * MAX_SPEED) * (2 * MAX_SPEED)) by (nonlinear_arith);
        lemma_component_bound(v, 2 * MAX_SPEED);
        lemma_slide_norm(v, n);
        let u = UNIT as int;
        let m = 2 * MAX_SPEED;
        lemma_mul_bound(n.x as int, n.x as int, u, u);
        lemma_mul_bound(n.y as int, n.y as int, u, u);
        lemma_mul_bound(n.z as int, n.z as int, u, u);
        lemma_mul_bound(v.x as int, n.x as int, m, u);
        lemma_mul_bound(v.y as int, n.y as int, m, u);
        lemma_mul_bound(v.z as int, n.z as int, m, u);
        let d = norm_sq(n);
        let vn = dot(v, n);
        assert(abs(d) <= 3 * u * u);
        assert(abs(vn) <= 3 * m * u);
        lemma_mul_bound(d, v.x as int, 3 * u * u, m);
        lemma_mul_bound(d, v.y as int, 3 * u * u, m);
        lemma_mul_bound(d, v.z as int, 3 * u * u, m);
        lemma_mul_bound(n.x as int, vn, u, 3 * m * u);
        lemma_mul_bound(n.y as int, vn, u, 3 * m * u);
        lemma_mul_bound(n.z as int, vn, u, 3 * m * u);
        assert(3 * u * u * m == 600_000_000_000_000_000 && u * (3 * m * u)
            == 600_000_000_000_000_000) by (nonlinear_arith)
            requires
                u == 10_000,
                m == 2_000_000_000,
        ;
    }
    let nx = n.x as i128;
    let ny = n.y as i128;
    let nz = n.z as i128;
    let d: i128 = nx * nx + ny * ny + nz * nz;
    let vn: i128 = (v.x as i128) * nx + (v.y as i128) * ny + (v.z as i128) * nz;
    let x = trunc_div(d * (v.x as i128) - nx * vn, d);
    let y = trunc_div(d * (v.y as i128) - ny * vn, d);
    let z = trunc_div(d * (v.z as i128) - nz * vn, d);
    Vector3 { x: x as i64, y: y as i64, z: z as i64 }
}

/// Displacement of `v` over `t` microseconds, each coordinate rounded toward zero.
pub fn displacement(v: Vector3, t: u64) -> (m: Vector3)
    requires
        in_box(v, 2 * MAX_SPEED),
        t <= MAX_STEP_MICROS,
    ensures
        m == motion_of(v, t as int),
        abs(m.x as int) <= abs(v.x as int),
        abs(m.y as int) <= abs(v.y as int),
        abs(m.z as int) <= abs(v.z as int),
{
    proof {
        lemma_displacement_component(v.x as int, t as int);
        lemma_displacement_component(v.y as int, t as int);
        lemma_displacement_component(v.z as int, t as int);
    }
    let x = trunc_div((v.x as i128) * (t as i128), MICROS_PER_SECOND as i128);
    let y = trunc_div((v.y as i128) * (t as i128), MICROS_PER_SECOND as i128);
    let z = trunc_div((v.z as i128) * (t as i128), MICROS_PER_SECOND as i128);
    Vector3 { x: x as i64, y: y as i64, z: z as i64 }
}

proof fn lemma_displacement_component(a: int, t: int)
    requires
        abs(a) <= 2 * MAX_SPEED,
        0 <= t <= MAX_STEP_MICROS,
    ensures
        abs(a * t) <= 2 * MAX_SPEED * MAX_STEP_MICROS,
        abs(tdiv(a * t, MICROS_PER_SECOND as int)) <= abs(a),
{
    lemma_mul_bound(a, t, 2 * MAX_SPEED, MAX_STEP_MICROS as int);
    lemma_tdiv_bounds(a * t, MICROS_PER_SECOND as int);
    let q = tdiv(a * t, MICROS_PER_SECOND as int);
    assert(abs(a * t) <= abs(a) * MICROS_PER_SECOND) by (nonlinear_arith)
        requires
            0 <= t <= MICROS_PER_SECOND,
    ;
    assert(abs(q) <= abs(a)) by (nonlinear_arith)
        requires
            abs(q) * MICROS_PER_SECOND <= abs(a * t),
            abs(a * t) <= abs(a) * MICROS_PER_SECOND,
    ;
}

/// The part of `m`, a motion of length `len`, that covers `dist <= len`.
fn scale_motion(m: Vector3, len: i64, dist: i64) -> (r: Vector3)
    requires
        in_box(m, 2 * MAX_SPEED),
        0 < len < 0x1_0000_0000,
        0 <= dist <= len,
    ensures
        r == along(m, len as int, dist as int),
        abs(r.x as int) <= abs(m.x as int),
        abs(r.y as int) <= abs(m.y as int),
        abs(r.z as int) <= abs(m.z as int),
{
    proof {
        lemma_scale_component(m.x as int, len as int, dist as int);
        lemma_scale_component(m.y as int, len as int, dist as int);
        lemma_scale_component(m.z as int, len as int, dist as int);
    }
    let x = trunc_div((m.x as i128) * (dist as i128), len as i128);
    let y = trunc_div((m.y as i128) * (dist as i128), len as i128);
    let z = trunc_div((m.z as i128) * (dist as i128), len as i128);
    Vector3 { x: x as i64, y: y as i64, z: z as i64 }
}

proof fn lemma_scale_component(a: int, len: int, dist: int)
    requires
        abs(a) <= 2 * MAX_SPEED,
        0 < len < 0x1_0000_0000,
        0 <= dist <= len,
    ensures
        abs(a * dist) <= 2 * MAX_SPEED * 0x1_0000_0000,
        abs(tdiv(a * dist, len)) <= abs(a),
{
    lemma_mul_bound(a, dist, 2 * MAX_SPEED, 0x1_0000_0000);
    lemma_tdiv_bounds(a * dist, len);
    let q = tdiv(a * dist, len);
    assert(abs(a * dist) <= abs(a) * len) by (nonlinear_arith)
        requires
            0 <= dist <= len,
    ;
    assert(abs(q) <= abs(a)) by (nonlinear_arith)
        requires
            abs(q) * len <= abs(a * dist),
            abs(a * dist) <= abs(a) * len,
            len > 0,
    ;
}

fn add_vectors(a: Vector3, b: Vector3) -> (r: Vector3)
    requires
        in_box(a, 3 * MAX_COORD),
        in_box(b, 2 * MAX_SPEED),
    ensures
        r == vec_add(a, b),
{
    Vector3 { x: a.x + b.x, y: a.y + b.y, z: a.z + b.z }
}

fn squared_length(m: Vector3) -> (r: u64)
    requires
        norm_sq(m) <= 3 * MAX_SPEED * MAX_SPEED,
    ensures
        r == norm_sq(m),
{
    proof {
        assert(m.x * m.x >= 0 && m.y * m.y >= 0 && m.z * m.z >= 0) by (nonlinear_arith);
    }
    let x = m.x as i128;
    let y = m.y as i128;
    let z = m.z as i128;
    (x * x + y * y + z * z) as u64
}

proof fn lemma_smaller_norm(a: Vector3, b: Vector3)
    requires
        abs(a.x as int) <= abs(b.x as int),
        abs(a.y as int) <= abs(b.y as int),
        abs(a.z as int) <= abs(b.z as int),
    ensures
        norm_sq(a) <= norm_sq(b),
{
    lemma_square_le(a.x as int, b.x as int);
    lemma_square_le(a.y as int, b.y as int);
    lemma_square_le(a.z as int, b.z as int);
}

/// Moves a body from `start` with `velocity` for `dt` microseconds,
/// sweeping it with `sweep` (from a position, along a motion) and sliding
/// along each surface met, for at most `move_and_slide_iterations` sweeps.
/// At each contact the body stops short of the surface by the skin width,
/// its velocity loses the component along the surface normal, and the
/// rest of the step continues from there for the time not yet used.
/// The velocity returned is the last projection, saturated to `MAX_SPEED`.
pub fn move_and_slide<F: Fn(Vector3, Vector3) -> Option<Contact>>(
    start: Vector3,
    velocity: Vector3,
    dt: u64,
    config: &MoveAndSlideConfig,
    sweep: &F,
) -> (out: SlideOutcome)
    requires
        in_box(start, 2 * MAX_COORD),
        in_box(velocity, MAX_SPEED as int),
        dt <= MAX_STEP_MICROS,
        config.skin_width >= 0,
        forall|p: Vector3, m: Vector3| sweep.requires((p, m)),
        reports_directions(*sweep),
    ensures
        is_slide_outcome(*sweep, start, velocity, dt, *config, out),
        within(out.position, start, 512 * MAX_SPEED),
{
    let mut pos = start;
    let mut vel = velocity;
    let mut time_left = dt;
    let mut hits: Vec<ResolvedHit> = Vec::new();
    let mut done = false;
    let mut cleared = false;
    let mut last_motion = Vector3 { x: 0, y: 0, z: 0 };
    let mut count: u8 = 0;
    let skin = config.skin_width;
    let iterations = config.move_and_slide_iterations;
    proof {
        let m = MAX_SPEED as int;
        lemma_mul_bound(velocity.x as int, velocity.x as int, m, m);
        lemma_mul_bound(velocity.y as int, velocity.y as int, m, m);
        lemma_mul_bound(velocity.z as int, velocity.z as int, m, m);
        assert(velocity.x * velocity.x >= 0 && velocity.y * velocity.y >= 0 && velocity.z
            * velocity.z >= 0) by (nonlinear_arith);
    }
    while count < iterations && !done
        invariant
            hits.len() == count as int,
            count <= iterations,
            iterations == config.move_and_slide_iterations,
            skin == config.skin_width,
            skin >= 0,
            dt <= MAX_STEP_MICROS,
            forall|p: Vector3, m: Vector3| sweep.requires((p, m)),
            reports_directions(*sweep),
            (pos, vel, time_left) == state_before(start, velocity, dt, hits@, count as int),
            norm_sq(vel) <= 3 * MAX_SPEED * MAX_SPEED,
            norm_sq(vel) <= norm_sq(velocity),
            forall|k: int|
                0 <= k < hits.len() ==> norm_sq(#[trigger] hits[k].incoming_velocity) <= norm_sq(
                    velocity,
                ),
            forall|k: int|
                0 <= k < hits.len() ==> #[trigger] leg_within_speed(
                    hits[k].from,
                    hits[k].to,
                    velocity,
                    state_before(start, velocity, dt, hits@, k).2 - hits[k].time_left,
                ),
            time_left <= dt,
            in_box(start, 2 * MAX_COORD),
            within(pos, start, count * (2 * MAX_SPEED)),
            forall|k: int|
                0 <= k < hits.len() ==> #[trigger] resolved_by(
                    *sweep,
                    start,
                    velocity,
                    dt,
                    skin,
                    hits@,
                    k,
                ),
            forall|k: int|
                0 <= k < hits.len() ==> #[trigger] hits[k].time_left <= state_before(
                    start,
                    velocity,
                    dt,
                    hits@,
                    k,
                ).2,
            !done ==> !cleared,
            done ==> count < iterations,
            done && cleared ==> !is_zero(motion_of(vel, time_left as int)) && sweep.ensures(
                (pos, motion_of(vel, time_left as int)),
                None,
            ) && last_motion == motion_of(vel, time_left as int),
            done && !cleared ==> is_zero(motion_of(vel, time_left as int)),
            unobstructed(*sweep) ==> hits.len() == 0,
        decreases iterations - count + (if done {
            0int
        } else {
            1int
        }),
    {
        proof {
            assert(3 * MAX_SPEED * MAX_SPEED <= (2 * MAX_SPEED) * (2 * MAX_SPEED)) by (nonlinear_arith);
            lemma_component_bound(vel, 2 * MAX_SPEED);
        }
        let m = displacement(vel, time_left);
        if m.x == 0 && m.y == 0 && m.z == 0 {
            done = true;
        } else {
            proof {
                lemma_smaller_norm(m, vel);
                assert(norm_sq(m) >= 1) by (nonlinear_arith)
                    requires
                        m.x != 0 || m.y != 0 || m.z != 0,
                        norm_sq(m) == m.x * m.x + m.y * m.y + m.z * m.z,
                ;
                lemma_component_bound(m, 2 * MAX_SPEED);
            }
            let len_sq = squared_length(m);
            let root = isqrt(len_sq);
            let len = root as i64;
            match sweep(pos, m) {
                None => {
                    done = true;
                    cleared = true;
                    last_motion = m;
                },
                Some(c) => {
                    proof {
                        assert(count * (2 * MAX_SPEED) <= 255 * (2 * MAX_SPEED)) by (nonlinear_arith)
                            requires
                                count <= 255,
                        ;
                    }
                    let hit = resolve_contact(pos, vel, time_left, m, len, c, skin);
                    let to = hit.to;
                    let next_time = hit.time_left;
                    let next_vel = project_on_plane(vel, c.normal);
                    let ghost old_hits = hits@;
                    hits.push(hit);
                    proof {
                        assert forall|k: int| 0 <= k < old_hits.len() implies state_before(
                            start,
                            velocity,
                            dt,
                            hits@,
                            k,
                        ) == state_before(start, velocity, dt, old_hits, k) by {
                            if k > 0 {
                                assert(hits@[k - 1] == old_hits[k - 1]);
                            }
                        }
                        assert forall|k: int| 0 <= k < hits.len() implies #[trigger] resolved_by(
                            *sweep,
                            start,
                            velocity,
                            dt,
                            skin,
                            hits@,
                            k,
                        ) by {
                            if k < old_hits.len() {
                                assert(resolved_by(*sweep, start, velocity, dt, skin, old_hits, k));
                                assert(hits@[k] == old_hits[k]);
                            }
                        }
                        assert forall|k: int| 0 <= k < hits.len() implies norm_sq(
                            #[trigger] hits[k].incoming_velocity,
                        ) <= norm_sq(velocity) by {
                            if k < old_hits.len() {
                                assert(hits@[k] == old_hits[k]);
                            }
                        }
                        assert forall|k: int| 0 <= k < hits.len() implies #[trigger] hits[k].time_left
                            <= state_before(start, velocity, dt, hits@, k).2 by {
                            if k < old_hits.len() {
                                assert(hits@[k] == old_hits[k]);
                            }
                        }
                        lemma_slower_leg(pos, to, vel, velocity, time_left - next_time);
                        assert forall|k: int| 0 <= k < hits.len() implies #[trigger] leg_within_speed(
                            hits[k].from,
                            hits[k].to,
                            velocity,
                            state_before(start, velocity, dt, hits@, k).2 - hits[k].time_left,
                        ) by {
                            if k < old_hits.len() {
                                assert(hits@[k] == old_hits[k]);
                            }
                        }
                    }
                    pos = to;
                    vel = next_vel;
                    time_left = next_time;
                    proof {
                        assert((count + 1) * (2 * MAX_SPEED) == count * (2 * MAX_SPEED) + 2
                            * MAX_SPEED) by (nonlinear_arith);
                    }
                    count = count + 1;
                },
            }
        }
    }
    let position = if cleared {
        proof {
            assert(count * (2 * MAX_SPEED) <= 255 * (2 * MAX_SPEED)) by (nonlinear_arith)
                requires
                    count <= 255,
            ;
            assert(3 * MAX_SPEED * MAX_SPEED <= (2 * MAX_SPEED) * (2 * MAX_SPEED)) by (nonlinear_arith);
            lemma_component_bound(vel, 2 * MAX_SPEED);
            lemma_displacement_bounds(vel, time_left);
        }
        add_vectors(pos, last_motion)
    } else {
        pos
    };
    let left = if cleared {
        0
    } else {
        time_left
    };
    proof {
        let tl = time_left as int;
        if cleared {
            lemma_motion_length(vel, tl);
            assert(dist_sq(position, pos) == norm_sq(last_motion));
            lemma_slower_leg(pos, position, vel, velocity, tl - 0);
        } else {
            assert(norm_sq(velocity) >= 0) by (nonlinear_arith);
            assert(norm_sq(velocity) * ((tl - tl) * (tl - tl)) >= 0) by (nonlinear_arith)
                requires
                    norm_sq(velocity) >= 0,
            ;
            assert(dist_sq(position, pos) == 0);
        }
        if norm_sq(velocity) <= MAX_SPEED * MAX_SPEED && hits.len() > 0 {
            let last = hits@[hits.len() - 1];
            assert(resolved_by(*sweep, start, velocity, dt, skin, hits@, hits.len() - 1));
            assert(norm_sq(last.incoming_velocity) <= norm_sq(velocity));
            lemma_slide_clears_normal(last.incoming_velocity, last.contact.normal);
            lemma_component_bound(vel, MAX_SPEED as int);
        }
    }
    SlideOutcome { position, projected_velocity: saturate_velocity(vel), hits, time_left: left }
}

/// Resolves a contact `c` met by a sweep of `m` (of length `len`) from
/// `pos`, made with velocity `vel` and `time_left` microseconds left.
fn resolve_contact(
    pos: Vector3,
    vel: Vector3,
    time_left: u64,
    m: Vector3,
    len: i64,
    c: Contact,
    skin: i64,
) -> (hit: ResolvedHit)
    requires
        in_box(pos, 3 * MAX_COORD),
        in_box(vel, 2 * MAX_SPEED),
        time_left <= MAX_STEP_MICROS,
        m == motion_of(vel, time_left as int),
        !is_zero(m),
        in_box(m, 2 * MAX_SPEED),
        is_isqrt(norm_sq(m), len as int),
        0 < len < 0x1_0000_0000,
        skin >= 0,
    ensures
        hit_follows(hit, pos, vel, time_left as int, skin as int),
        hit.contact == c,
        hit.time_left <= time_left,
        abs(hit.to.x - pos.x) <= 2 * MAX_SPEED,
        abs(hit.to.y - pos.y) <= 2 * MAX_SPEED,
        abs(hit.to.z - pos.z) <= 2 * MAX_SPEED,
        dist_sq(hit.to, pos) * 1_000_000_000_000 <= norm_sq(vel) * ((time_left - hit.time_left) * (
        time_left - hit.time_left)),
{
    let reach = if c.distance < 0 {
        0
    } else if c.distance > len {
        len
    } else {
        c.distance
    };
    let safe = if reach - skin > 0 {
        reach - skin
    } else {
        0
    };
    let step = scale_motion(m, len, safe);
    let to = add_vectors(pos, step);
    proof {
        assert(time_left * (len - reach) <= time_left * len) by (nonlinear_arith)
            requires
                0 <= reach <= len,
                time_left >= 0,
        ;
        assert(time_left * (len - reach) / (len as int) <= time_left) by (nonlinear_arith)
            requires
                time_left * (len - reach) <= time_left * len,
                len > 0,
                time_left >= 0,
                0 <= reach <= len,
        ;
        assert(time_left * (len - reach) < 0x1_0000_0000_0000_0000_0000) by (nonlinear_arith)
            requires
                0 <= time_left <= MAX_STEP_MICROS,
                0 <= len - reach < 0x1_0000_0000,
        ;
    }
    let next_time = ((time_left as u128) * ((len - reach) as u128) / (len as u128)) as u64;
    proof {
        let t = time_left as int;
        let t2 = next_time as int;
        let l = len as int;
        let r = reach as int;
        let sf = safe as int;
        let e = 1_000_000_000_000int;
        let a = dist_sq(to, pos);
        assert(a == norm_sq(step));
        lemma_along_length(m, l, sf);
        lemma_motion_length(vel, t);
        let mm = norm_sq(m);
        let vv = norm_sq(vel);
        assert(t2 * l <= t * (l - r)) by (nonlinear_arith)
            requires
                t2 == t * (l - r) / l,
                l > 0,
                t * (l - r) >= 0,
        ;
        assert(0 <= t * sf <= (t - t2) * l) by (nonlinear_arith)
            requires
                t2 * l <= t * (l - r),
                0 <= sf <= r,
                t >= 0,
        ;
        assert(a * (l * l) <= mm * (sf * sf));
        assert(mm * 1_000_000_000_000 <= vv * (t * t));
        assert(a >= 0 && mm >= 0 && vv >= 0) by (nonlinear_arith)
            requires
                a == norm_sq(step),
                mm == norm_sq(m),
                vv == norm_sq(vel),
        ;
        assert(a * 1_000_000_000_000 * (l * l) <= vv * (t * sf) * (t * sf)) by (nonlinear_arith)
            requires
                a * (l * l) <= mm * (sf * sf),
                mm * 1_000_000_000_000 <= vv * (t * t),
                a >= 0,
                mm >= 0,
                vv >= 0,
        ;
        assert(vv * (t * sf) * (t * sf) <= vv * ((t - t2) * l) * ((t - t2) * l)) by (nonlinear_arith)
            requires
                0 <= t * sf <= (t - t2) * l,
                vv >= 0,
        ;
        assert(a * 1_000_000_000_000 <= vv * ((t - t2) * (t - t2))) by (nonlinear_arith)
            requires
                a * 1_000_000_000_000 * (l * l) <= vv * ((t - t2) * l) * ((t - t2) * l),
                l > 0,
        ;
    }
    ResolvedHit {
        from: pos,
        motion: m,
        sweep_length: len,
        contact: c,
        to,
        incoming_velocity: vel,
        time_left: next_time,
    }
}

/// From `|q| * d <= |a| * c`, the same between squares.
proof fn lemma_scaled_squares(q: int, a: int, c: int, d: int)
    requires
        c >= 0,
        d >= 0,
        abs(q) * d <= abs(a) * c,
    ensures
        (q * q) * (d * d) <= (a * a) * (c * c),
{
    assert(abs(q) * d >= 0) by (nonlinear_arith)
        requires
            d >= 0,
    ;
    assert((abs(q) * d) * (abs(q) * d) <= (abs(a) * c) * (abs(a) * c)) by (nonlinear_arith)
        requires
            0 <= abs(q) * d <= abs(a) * c,
    ;
    assert((q * q) * (d * d) == (abs(q) * d) * (abs(q) * d)) by (nonlinear_arith);
    assert((a * a) * (c * c) == (abs(a) * c) * (abs(a) * c)) by (nonlinear_arith);
}

/// A motion is no longer than its velocity times its duration.
proof fn lemma_motion_length(v: Vector3, t: int)
    requires
        in_box(v, 2 * MAX_SPEED),
        0 <= t <= MAX_STEP_MICROS,
    ensures
        norm_sq(motion_of(v, t)) * 1_000_000_000_000 <= norm_sq(v) * (t * t),
{
    let m = motion_of(v, t);
    lemma_displacement_component(v.x as int, t);
    lemma_displacement_component(v.y as int, t);
    lemma_displacement_component(v.z as int, t);
    lemma_tdiv_bounds(v.x * t, MICROS_PER_SECOND as int);
    lemma_tdiv_bounds(v.y * t, MICROS_PER_SECOND as int);
    lemma_tdiv_bounds(v.z * t, MICROS_PER_SECOND as int);
    assert(abs(v.x * t) == abs(v.x as int) * t) by (nonlinear_arith)
        requires
            t >= 0,
    ;
    assert(abs(v.y * t) == abs(v.y as int) * t) by (nonlinear_arith)
        requires
            t >= 0,
    ;
    assert(abs(v.z * t) == abs(v.z as int) * t) by (nonlinear_arith)
        requires
            t >= 0,
    ;
    lemma_scaled_squares(m.x as int, v.x as int, t, MICROS_PER_SECOND as int);
    lemma_scaled_squares(m.y as int, v.y as int, t, MICROS_PER_SECOND as int);
    lemma_scaled_squares(m.z as int, v.z as int, t, MICROS_PER_SECOND as int);
    let e = 1_000_000_000_000int;
    let u = MICROS_PER_SECOND as int;
    assert(u * u == 1_000_000_000_000) by (nonlinear_arith)
        requires
            u == 1_000_000,
    ;
    assert(norm_sq(m) * e == (m.x * m.x) * e + (m.y * m.y) * e + (m.z * m.z) * e) by (nonlinear_arith);
    assert(norm_sq(v) * (t * t) == (v.x * v.x) * (t * t) + (v.y * v.y) * (t * t) + (v.z * v.z) * (t
        * t)) by (nonlinear_arith);
}

/// The part of a motion covering `dist` out of its length `len` is no
/// longer than the motion times `dist / len`.
proof fn lemma_along_length(m: Vector3, len: int, dist: int)
    requires
        in_box(m, 2 * MAX_SPEED),
        0 < len < 0x1_0000_0000,
        0 <= dist <= len,
    ensures
        norm_sq(along(m, len, dist)) * (len * len) <= norm_sq(m) * (dist * dist),
{
    let a = along(m, len, dist);
    lemma_scale_component(m.x as int, len, dist);
    lemma_scale_component(m.y as int, len, dist);
    lemma_scale_component(m.z as int, len, dist);
    lemma_tdiv_bounds(m.x * dist, len);
    lemma_tdiv_bounds(m.y * dist, len);
    lemma_tdiv_bounds(m.z * dist, len);
    assert(abs(m.x * dist) == abs(m.x as int) * dist) by (nonlinear_arith)
        requires
            dist >= 0,
    ;
    assert(abs(m.y * dist) == abs(m.y as int) * dist) by (nonlinear_arith)
        requires
            dist >= 0,
    ;
    assert(abs(m.z * dist) == abs(m.z as int) * dist) by (nonlinear_arith)
        requires
            dist >= 0,
    ;
    lemma_scaled_squares(a.x as int, m.x as int, dist, len);
    lemma_scaled_squares(a.y as int, m.y as int, dist, len);
    lemma_scaled_squares(a.z as int, m.z as int, dist, len);
    assert(norm_sq(a) * (len * len) == (a.x * a.x) * (len * len) + (a.y * a.y) * (len * len) + (a.z
        * a.z) * (len * len)) by (nonlinear_arith);
    assert(norm_sq(m) * (dist * dist) == (m.x * m.x) * (dist * dist) + (m.y * m.y) * (dist * dist)
        + (m.z * m.z) * (dist * dist)) by (nonlinear_arith);
}

/// A leg within a speed is within any greater speed.
proof fn lemma_slower_leg(a: Vector3, b: Vector3, v: Vector3, w: Vector3, t: int)
    requires
        dist_sq(b, a) * 1_000_000_000_000 <= norm_sq(v) * (t * t),
        norm_sq(v) <= norm_sq(w),
    ensures
        leg_within_speed(a, b, w, t),
{
    assert(norm_sq(v) * (t * t) <= norm_sq(w) * (t * t)) by (nonlinear_arith)
        requires
            norm_sq(v) <= norm_sq(w),
    ;
}

proof fn lemma_displacement_bounds(v: Vector3, t: u64)
    requires
        in_box(v, 2 * MAX_SPEED),
        t <= MAX_STEP_MICROS,
    ensures
        in_box(motion_of(v, t as int), 2 * MAX_SPEED),
{
    lemma_displacement_component(v.x as int, t as int);
    lemma_displacement_component(v.y as int, t as int);
    lemma_displacement_component(v.z as int, t as int);
}

} // verus!
