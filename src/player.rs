//! The player's per-tick movement stages: matching the state machine to
//! the ground, sliding and crouching, vertical damping and gravity,
//! horizontal steering from input, and jumping.
use vstd::prelude::*;

use crate::character_body::CharacterBody;
use crate::fixed::{
    abs, in_box, is_isqrt, isqrt, lemma_mul_bound, lemma_tdiv_bounds, sqrt_floor, tdiv, trunc_div, Vector3,
    MAX_SPEED, MAX_STEP_MICROS, MICROS_PER_SECOND, UNIT,
};
use crate::state_machine::{
    gravity_of, is_grounded_state, is_late_jump, jump_strength_of, jump_target, movement_stats_of, Gravity,
    MajorMoveState, MinorAirborneState, MinorGroundState, MovementStats, StateMachine,
};

verus! {

/// Speed above which crouching starts a slide, in micrometres per second.
pub const SLIDE_ENTRY_SPEED: i64 = 7_500_000;

/// Speed below which a slide ends, in micrometres per second.
pub const SLIDE_EXIT_SPEED: i64 = 5_000_000;

/// Squared horizontal speed above which a slide-inducing surface forces a
/// slide (0.001 square metres per square second).
pub const FORCED_SLIDE_MIN_SPEED_SQ: i64 = 1_000_000_000;

/// Rate, per second, at which vertical velocity is damped toward zero.
pub const Y_DAMPING_RATE: i64 = 10;

/// Horizontal speed above which the body turns to face its motion.
pub const FACING_MIN_SPEED: i64 = 1_000_000;

/// Where the player looks; only its horizontal part steers movement.
#[derive(Clone, Copy, Debug, PartialEq, Eq, Structural)]
pub struct PlayerLookDirection(pub Vector3);

/// The player's actions in one tick. `move_x` and `move_y` are the move
/// stick, scaled by `UNIT` and within the unit circle; positive `move_y`
/// moves toward the look direction.
#[derive(Clone, Copy, Debug, PartialEq, Eq, Structural)]
pub struct PlayerActions {
    pub move_x: i64,
    pub move_y: i64,
    /// The jump button went down this tick.
    pub jump_pressed: bool,
    /// The jump button is down.
    pub jump_held: bool,
    /// The crouch button is down.
    pub crouch_held: bool,
}

impl PlayerActions {
    pub open spec fn wf(&self) -> bool {
        self.move_x * self.move_x + self.move_y * self.move_y <= UNIT * UNIT
    }
}

pub open spec fn speed_sq(v: Vector3) -> int {
    v.x * v.x + v.y * v.y + v.z * v.z
}

pub open spec fn flat_speed_sq(v: Vector3) -> int {
    v.x * v.x + v.z * v.z
}

/// The state after a request for `target`: kept while the machine's state
/// lock runs, `target` otherwise.
pub open spec fn guarded(m: StateMachine, target: MajorMoveState) -> MajorMoveState {
    if m.stuck_in_state_timer > 0 {
        m.movement_state
    } else {
        target
    }
}

/// The state once the machine agrees with the body on being grounded.
pub open spec fn floor_checked(s: MajorMoveState, body_grounded: bool) -> MajorMoveState {
    if is_grounded_state(s) && !body_grounded {
        MajorMoveState::Airborne(MinorAirborneState::Falling)
    } else if !is_grounded_state(s) && body_grounded {
        MajorMoveState::Grounded(MinorGroundState::Moving)
    } else {
        s
    }
}

/// The state after sliding and crouching are evaluated.
pub open spec fn slide_checked(s: MajorMoveState, v: Vector3, crouch_held: bool, force_slide: bool)
    -> MajorMoveState {
    let fast = speed_sq(v) > SLIDE_ENTRY_SPEED * SLIDE_ENTRY_SPEED;
    let slow = speed_sq(v) < SLIDE_EXIT_SPEED * SLIDE_EXIT_SPEED;
    match s {
        MajorMoveState::Grounded(g) => if force_slide && flat_speed_sq(v)
            > FORCED_SLIDE_MIN_SPEED_SQ {
            MajorMoveState::Grounded(MinorGroundState::Sliding)
        } else {
            MajorMoveState::Grounded(
                match g {
                    MinorGroundState::Moving => if !crouch_held {
                        MinorGroundState::Moving
                    } else if fast {
                        MinorGroundState::Sliding
                    } else {
                        MinorGroundState::Crouched
                    },
                    MinorGroundState::Crouched => if !crouch_held {
                        MinorGroundState::Moving
                    } else if fast {
                        MinorGroundState::Sliding
                    } else {
                        MinorGroundState::Crouched
                    },
                    MinorGroundState::Sliding => if slow || !crouch_held {
                        MinorGroundState::Moving
                    } else {
                        MinorGroundState::Sliding
                    },
                },
            )
        },
        MajorMoveState::Airborne(_) => s,
    }
}

/// Vertical velocity damped toward zero at `Y_DAMPING_RATE` over `dt`
/// microseconds, never past zero.
pub open spec fn damped(vy: int, dt: int) -> int {
    let s = if Y_DAMPING_RATE * dt > MICROS_PER_SECOND {
        MICROS_PER_SECOND as int
    } else {
        Y_DAMPING_RATE * dt
    };
    vy - tdiv(vy * s, MICROS_PER_SECOND as int)
}

/// Vertical velocity after gravity `g` acts for `dt` microseconds: the
/// ascending rate while rising, the descending one otherwise, then held to
/// the terminal velocity and to `-MAX_SPEED`.
pub open spec fn fallen(vy: int, g: Gravity, dt: int) -> int {
    let rate = if vy > 0 {
        g.ascending
    } else {
        g.descending
    };
    let v1 = vy - tdiv(rate * dt, MICROS_PER_SECOND as int);
    let v2 = match g.terminal_velocity {
        Some(t) => if v1 < -t {
            -t
        } else {
            v1
        },
        None => v1,
    };
    if v2 < -MAX_SPEED {
        -MAX_SPEED
    } else {
        v2
    }
}

/// The horizontal look direction scaled to `UNIT`, or +Z when the look
/// direction is vertical.
pub open spec fn look_basis(look: Vector3) -> (int, int) {
    let len = sqrt_floor(look.x * look.x + look.z * look.z);
    if len == 0 {
        (0, UNIT as int)
    } else {
        (tdiv(look.x * UNIT, len), tdiv(look.z * UNIT, len))
    }
}

/// The move stick turned into a horizontal world direction (x, z) by the
/// look direction, scaled by `UNIT`.
pub open spec fn world_input(move_x: int, move_y: int, look: Vector3) -> (int, int) {
    let (lx, lz) = look_basis(look);
    let x = move_x;
    let y = -move_y;
    let rx = tdiv(x * lx - y * lz, UNIT as int);
    let ry = tdiv(y * lx + x * lz, UNIT as int);
    (-ry, rx)
}

pub open spec fn clamp_speed(a: int) -> int {
    if a > MAX_SPEED {
        MAX_SPEED as int
    } else if a < -MAX_SPEED {
        -MAX_SPEED
    } else {
        a
    }
}

/// Whether the body moves faster than 1.01 times `max_speed` while the
/// stick is pushed past a tenth of its range.
pub open spec fn over_cap(f: (int, int), w: (int, int), max_speed: int) -> bool {
    10000 * (f.0 * f.0 + f.1 * f.1) > 10201 * (max_speed * max_speed) && 100 * (w.0 * w.0 + w.1
        * w.1) > UNIT * UNIT
}

/// The horizontal velocity that input steers toward, and the rate at which
/// it does: over the cap, the current velocity's part along the input
/// direction at the rotation rate; else the input direction at full speed,
/// at the acceleration.
pub open spec fn steering(f: (int, int), w: (int, int), stats: MovementStats) -> ((int, int), int) {
    if over_cap(f, w, stats.max_speed as int) {
        let d = f.0 * w.0 + f.1 * w.1;
        let sim = if d > 0 {
            d
        } else {
            0
        };
        (
            (
                clamp_speed(tdiv(sim * w.0, UNIT * UNIT)),
                clamp_speed(tdiv(sim * w.1, UNIT * UNIT)),
            ),
            stats.rotation_rate as int,
        )
    } else {
        (
            (tdiv(w.0 * stats.max_speed, UNIT as int), tdiv(w.1 * stats.max_speed, UNIT as int)),
            stats.acceleration as int,
        )
    }
}

/// `f` moved toward `t` by at most `max_delta`, arriving when it is that close.
pub open spec fn move_towards(f: (int, int), t: (int, int), max_delta: int) -> (int, int) {
    let d = (t.0 - f.0, t.1 - f.1);
    let len = sqrt_floor(d.0 * d.0 + d.1 * d.1);
    if len <= max_delta || len == 0 {
        t
    } else {
        (f.0 + tdiv(d.0 * max_delta, len), f.1 + tdiv(d.1 * max_delta, len))
    }
}

/// Horizontal velocity (x, z) after one tick of steering.
pub open spec fn steered(v: Vector3, actions: PlayerActions, look: Vector3, stats: MovementStats, dt: int) -> (int, int) {
    let f = (v.x as int, v.z as int);
    let w = world_input(actions.move_x as int, actions.move_y as int, look);
    let (t, rate) = steering(f, w, stats);
    move_towards(f, t, tdiv(rate * dt, MICROS_PER_SECOND as int))
}

/// Makes the machine agree with the body: a grounded machine on an
/// airborne body starts falling, an airborne machine on a grounded body
/// starts moving on the ground. Both go through the guarded transition, so
/// nothing changes while the state lock runs.
pub fn player_check_floor(machine: &mut StateMachine, body: &CharacterBody)
    ensures
        *final(machine) == (StateMachine {
            movement_state: guarded(
                *old(machine),
                floor_checked(old(machine).movement_state, body.grounded),
            ),
            ..*old(machine)
        }),
        old(machine).stuck_in_state_timer > 0 ==> *final(machine) == *old(machine),
{
    let grounded = machine.is_grounded();
    if grounded && !body.grounded {
        let _ = machine.transition(MajorMoveState::Airborne(MinorAirborneState::Falling));
    } else if !grounded && body.grounded {
        let _ = machine.transition(MajorMoveState::Grounded(MinorGroundState::Moving));
    }
}

fn speed_sq_exec(v: Vector3) -> (r: i128)
    requires
        in_box(v, MAX_SPEED as int),
    ensures
        r == speed_sq(v),
{
    proof {
        lemma_mul_bound(v.x as int, v.x as int, MAX_SPEED as int, MAX_SPEED as int);
        lemma_mul_bound(v.y as int, v.y as int, MAX_SPEED as int, MAX_SPEED as int);
        lemma_mul_bound(v.z as int, v.z as int, MAX_SPEED as int, MAX_SPEED as int);
    }
    let x = v.x as i128;
    let y = v.y as i128;
    let z = v.z as i128;
    x * x + y * y + z * z
}

/// Evaluates sliding and crouching for a grounded machine: a slide-inducing
/// surface forces a slide while the body moves horizontally; otherwise
/// crouching above the slide entry speed slides, crouching below it
/// crouches, releasing crouch stands up, and a slide ends below the slide
/// exit speed. The new state goes through the guarded transition, so
/// nothing changes while the state lock runs.
pub fn player_slide(machine: &mut StateMachine, velocity: Vector3, crouch_held: bool, body: &CharacterBody)
    requires
        in_box(velocity, MAX_SPEED as int),
    ensures
        *final(machine) == (StateMachine {
            movement_state: guarded(
                *old(machine),
                slide_checked(old(machine).movement_state, velocity, crouch_held, body.force_slide),
            ),
            ..*old(machine)
        }),
        old(machine).stuck_in_state_timer > 0 ==> *final(machine) == *old(machine),
{
    let speed = speed_sq_exec(velocity);
    proof {
        lemma_mul_bound(velocity.x as int, velocity.x as int, MAX_SPEED as int, MAX_SPEED as int);
        lemma_mul_bound(velocity.z as int, velocity.z as int, MAX_SPEED as int, MAX_SPEED as int);
    }
    let flat = (velocity.x as i128) * (velocity.x as i128) + (velocity.z as i128) * (velocity.z as i128);
    let entry = SLIDE_ENTRY_SPEED as i128;
    let exit = SLIDE_EXIT_SPEED as i128;
    proof {
        assert(entry * entry == 56_250_000_000_000 && exit * exit == 25_000_000_000_000) by (nonlinear_arith)
            requires
                entry == 7_500_000,
                exit == 5_000_000,
        ;
    }
    let fast = speed > entry * entry;
    let slow = speed < exit * exit;
    if let MajorMoveState::Grounded(g) = machine.movement_state {
        if body.force_slide && flat > FORCED_SLIDE_MIN_SPEED_SQ as i128 {
            let _ = machine.transition(MajorMoveState::Grounded(MinorGroundState::Sliding));
            return;
        }
        let next = match g {
            MinorGroundState::Moving | MinorGroundState::Crouched => {
                if !crouch_held {
                    MinorGroundState::Moving
                } else if fast {
                    MinorGroundState::Sliding
                } else {
                    MinorGroundState::Crouched
                }
            },
            MinorGroundState::Sliding => {
                if slow || !crouch_held {
                    MinorGroundState::Moving
                } else {
                    MinorGroundState::Sliding
                }
            },
        };
        let _ = machine.transition(MajorMoveState::Grounded(next));
    }
}

/// Damps vertical velocity toward zero in the states that ask for it.
pub fn player_reset_y_vel(velocity: &mut Vector3, machine: &StateMachine, dt: u64)
    requires
        in_box(*old(velocity), MAX_SPEED as int),
        dt <= MAX_STEP_MICROS,
    ensures
        in_box(*final(velocity), MAX_SPEED as int),
        final(velocity).x == old(velocity).x,
        final(velocity).z == old(velocity).z,
        final(velocity).y == (if machine.movement_state == MajorMoveState::Grounded(
            MinorGroundState::Moving,
        ) {
            damped(old(velocity).y as int, dt as int)
        } else {
            old(velocity).y as int
        }),
{
    if machine.set_y_0() {
        let vy = velocity.y;
        let scaled: i128 = 10 * dt as i128;
        let s: i128 = if scaled > MICROS_PER_SECOND as i128 {
            MICROS_PER_SECOND as i128
        } else {
            scaled
        };
        proof {
            lemma_mul_bound(vy as int, s as int, MAX_SPEED as int, MICROS_PER_SECOND as int);
            lemma_tdiv_bounds(vy * s, MICROS_PER_SECOND as int);
            let q = tdiv(vy * s, MICROS_PER_SECOND as int);
            assert(abs(vy * s) <= abs(vy as int) * MICROS_PER_SECOND) by (nonlinear_arith)
                requires
                    0 <= s <= MICROS_PER_SECOND,
            ;
            assert(abs(q) <= abs(vy as int)) by (nonlinear_arith)
                requires
                    abs(q) * MICROS_PER_SECOND <= abs(vy * s),
                    abs(vy * s) <= abs(vy as int) * MICROS_PER_SECOND,
            ;
            assert(vy >= 0 ==> vy * s >= 0) by (nonlinear_arith)
                requires
                    s >= 0,
            ;
            assert(vy <= 0 ==> vy * s <= 0) by (nonlinear_arith)
                requires
                    s >= 0,
            ;
        }
        let cut = trunc_div(vy as i128 * s, MICROS_PER_SECOND as i128);
        velocity.y = vy - cut as i64;
    }
}

/// Applies the state's gravity to vertical velocity for `dt` microseconds.
pub fn player_gravity(velocity: &mut Vector3, machine: &StateMachine, dt: u64)
    requires
        in_box(*old(velocity), MAX_SPEED as int),
        dt <= MAX_STEP_MICROS,
    ensures
        in_box(*final(velocity), MAX_SPEED as int),
        final(velocity).x == old(velocity).x,
        final(velocity).z == old(velocity).z,
        final(velocity).y == fallen(old(velocity).y as int, gravity_of(machine.movement_state), dt as int),
{
    let g = machine.gravity();
    let vy = velocity.y;
    let rate = if vy > 0 {
        g.ascending
    } else {
        g.descending
    };
    proof {
        assert(0 <= rate <= 160_000_000);
        lemma_tdiv_bounds(rate * dt, MICROS_PER_SECOND as int);
        assert(rate * dt <= 160_000_000 * 1_000_000) by (nonlinear_arith)
            requires
                0 <= rate <= 160_000_000,
                0 <= dt <= 1_000_000,
        ;
        assert(rate * dt >= 0) by (nonlinear_arith)
            requires
                0 <= rate,
                0 <= dt,
        ;
    }
    let dv = trunc_div(rate as i128 * dt as i128, MICROS_PER_SECOND as i128);
    let mut v = vy - dv as i64;
    if let Some(t) = g.terminal_velocity {
        if v < -t {
            v = -t;
        }
    }
    if v < -MAX_SPEED {
        v = -MAX_SPEED;
    }
    velocity.y = v;
}

/// The horizontal part of the look direction, scaled to `UNIT`; +Z when
/// the look direction is vertical.
fn look_basis_exec(look: Vector3) -> (r: (i64, i64))
    requires
        in_box(look, UNIT as int),
    ensures
        r.0 == look_basis(look).0,
        r.1 == look_basis(look).1,
        abs(r.0 as int) <= UNIT,
        abs(r.1 as int) <= UNIT,
{
    proof {
        lemma_mul_bound(look.x as int, look.x as int, UNIT as int, UNIT as int);
        lemma_mul_bound(look.z as int, look.z as int, UNIT as int, UNIT as int);
        assert(look.x * look.x >= 0 && look.z * look.z >= 0) by (nonlinear_arith);
    }
    let sq = (look.x * look.x + look.z * look.z) as u64;
    let len = isqrt(sq);
    if len == 0 {
        return (0, UNIT);
    }
    proof {
        let x = sq as int;
        lemma_component_under_root(look.x as int, look.z as int, len as int);
        lemma_component_under_root(look.z as int, look.x as int, len as int);
        lemma_unit_ratio(look.x as int, len as int);
        lemma_unit_ratio(look.z as int, len as int);
    }
    let bx = trunc_div(look.x as i128 * UNIT as i128, len as i128);
    let bz = trunc_div(look.z as i128 * UNIT as i128, len as i128);
    (bx as i64, bz as i64)
}

/// A component of a 2D vector is at most its length rounded down.
proof fn lemma_component_under_root(a: int, b: int, len: int)
    requires
        is_isqrt(a * a + b * b, len),
    ensures
        abs(a) <= len,
{
    assert(b * b >= 0) by (nonlinear_arith);
    if abs(a) > len {
        assert(abs(a) * abs(a) >= (len + 1) * (len + 1)) by (nonlinear_arith)
            requires
                abs(a) >= len + 1,
                len >= 0,
        ;
        assert(a * a == abs(a) * abs(a)) by (nonlinear_arith);
    }
}

proof fn lemma_unit_ratio(a: int, len: int)
    requires
        abs(a) <= len,
        len > 0,
        abs(a) <= UNIT,
    ensures
        abs(a * UNIT) <= UNIT * UNIT,
        abs(tdiv(a * UNIT, len)) <= UNIT,
{
    lemma_mul_bound(a, UNIT as int, UNIT as int, UNIT as int);
    lemma_tdiv_bounds(a * UNIT, len);
    assert(abs(tdiv(a * UNIT, len)) <= UNIT) by (nonlinear_arith)
        requires
            abs(tdiv(a * UNIT, len)) * len <= abs(a * UNIT),
            abs(a * UNIT) == abs(a) * UNIT,
            abs(a) <= len,
            len > 0,
    ;
}

/// The move stick as a horizontal world direction (x, z), scaled by `UNIT`.
fn world_input_exec(actions: &PlayerActions, look: Vector3) -> (r: (i64, i64))
    requires
        actions.wf(),
        in_box(look, UNIT as int),
    ensures
        r.0 == world_input(actions.move_x as int, actions.move_y as int, look).0,
        r.1 == world_input(actions.move_x as int, actions.move_y as int, look).1,
        abs(r.0 as int) <= 2 * UNIT,
        abs(r.1 as int) <= 2 * UNIT,
{
    let (lx, lz) = look_basis_exec(look);
    proof {
        let mx = actions.move_x as int;
        let my = actions.move_y as int;
        assert(mx * mx >= 0 && my * my >= 0) by (nonlinear_arith);
        crate::fixed::lemma_abs_from_square(mx, UNIT as int);
        crate::fixed::lemma_abs_from_square(my, UNIT as int);
        lemma_turn_component(mx, lx as int, -my, lz as int);
        lemma_turn_component(-my, lx as int, mx, lz as int);
    }
    let x = actions.move_x as i128;
    let y = -(actions.move_y as i128);
    let rx = trunc_div(x * lx as i128 - y * lz as i128, UNIT as i128);
    let ry = trunc_div(y * lx as i128 + x * lz as i128, UNIT as i128);
    (-(ry as i64), rx as i64)
}

proof fn lemma_turn_component(a: int, b: int, c: int, d: int)
    requires
        abs(a) <= UNIT,
        abs(b) <= UNIT,
        abs(c) <= UNIT,
        abs(d) <= UNIT,
    ensures
        abs(a * b - c * d) <= 2 * UNIT * UNIT,
        abs(a * b + c * d) <= 2 * UNIT * UNIT,
        abs(tdiv(a * b - c * d, UNIT as int)) <= 2 * UNIT,
        abs(tdiv(a * b + c * d, UNIT as int)) <= 2 * UNIT,
{
    lemma_mul_bound(a, b, UNIT as int, UNIT as int);
    lemma_mul_bound(c, d, UNIT as int, UNIT as int);
    lemma_tdiv_bounds(a * b - c * d, UNIT as int);
    lemma_tdiv_bounds(a * b + c * d, UNIT as int);
    assert(abs(tdiv(a * b - c * d, UNIT as int)) <= 2 * UNIT) by (nonlinear_arith)
        requires
            abs(tdiv(a * b - c * d, UNIT as int)) * UNIT <= abs(a * b - c * d),
            abs(a * b - c * d) <= 2 * UNIT * UNIT,
    ;
    assert(abs(tdiv(a * b + c * d, UNIT as int)) <= 2 * UNIT) by (nonlinear_arith)
        requires
            abs(tdiv(a * b + c * d, UNIT as int)) * UNIT <= abs(a * b + c * d),
            abs(a * b + c * d) <= 2 * UNIT * UNIT,
    ;
}

pub open spec fn stats_in_range(stats: MovementStats) -> bool {
    &&& 0 <= stats.max_speed <= 100_000_000
    &&& 0 <= stats.acceleration <= 100_000_000
    &&& 0 <= stats.rotation_rate <= 100_000_000
}

/// The steering target (x, z) and rate, as `steering` states.
fn steering_exec(f: (i64, i64), w: (i64, i64), stats: MovementStats) -> (r: ((i64, i64), i64))
    requires
        abs(f.0 as int) <= MAX_SPEED,
        abs(f.1 as int) <= MAX_SPEED,
        abs(w.0 as int) <= 2 * UNIT,
        abs(w.1 as int) <= 2 * UNIT,
        stats_in_range(stats),
    ensures
        r.0.0 == steering((f.0 as int, f.1 as int), (w.0 as int, w.1 as int), stats).0.0,
        r.0.1 == steering((f.0 as int, f.1 as int), (w.0 as int, w.1 as int), stats).0.1,
        r.1 == steering((f.0 as int, f.1 as int), (w.0 as int, w.1 as int), stats).1,
        abs(r.0.0 as int) <= MAX_SPEED,
        abs(r.0.1 as int) <= MAX_SPEED,
        0 <= r.1 <= 100_000_000,
{
    let fx = f.0 as i128;
    let fz = f.1 as i128;
    let wx = w.0 as i128;
    let wz = w.1 as i128;
    let ms = stats.max_speed as i128;
    proof {
        lemma_mul_bound(fx as int, fx as int, 1_000_000_000, 1_000_000_000);
        lemma_mul_bound(fz as int, fz as int, 1_000_000_000, 1_000_000_000);
        lemma_mul_bound(wx as int, wx as int, 20_000, 20_000);
        lemma_mul_bound(wz as int, wz as int, 20_000, 20_000);
        lemma_mul_bound(ms as int, ms as int, 100_000_000, 100_000_000);
        lemma_mul_bound(fx as int, wx as int, 1_000_000_000, 20_000);
        lemma_mul_bound(fz as int, wz as int, 1_000_000_000, 20_000);
        lemma_mul_bound(wx as int, ms as int, 20_000, 100_000_000);
        lemma_mul_bound(wz as int, ms as int, 20_000, 100_000_000);
    }
    let u = UNIT as i128;
    proof {
        assert(u * u == 100_000_000) by (nonlinear_arith)
            requires
                u == 10_000,
        ;
    }
    let over = 10000 * (fx * fx + fz * fz) > 10201 * (ms * ms) && 100 * (wx * wx + wz * wz) > u * u;
    if over {
        let d = fx * wx + fz * wz;
        let sim = if d > 0 {
            d
        } else {
            0
        };
        proof {
            lemma_mul_bound(sim as int, wx as int, 40_000_000_000_000, 20_000);
            lemma_mul_bound(sim as int, wz as int, 40_000_000_000_000, 20_000);
        }
        let tx = trunc_div(sim * wx, u * u);
        let tz = trunc_div(sim * wz, u * u);
        let tx = if tx > MAX_SPEED as i128 {
            MAX_SPEED as i128
        } else if tx < -(MAX_SPEED as i128) {
            -(MAX_SPEED as i128)
        } else {
            tx
        };
        let tz = if tz > MAX_SPEED as i128 {
            MAX_SPEED as i128
        } else if tz < -(MAX_SPEED as i128) {
            -(MAX_SPEED as i128)
        } else {
            tz
        };
        ((tx as i64, tz as i64), stats.rotation_rate)
    } else {
        proof {
            lemma_tdiv_bounds(wx * ms, UNIT as int);
            lemma_tdiv_bounds(wz * ms, UNIT as int);
        }
        let tx = trunc_div(wx * ms, UNIT as i128);
        let tz = trunc_div(wz * ms, UNIT as i128);
        ((tx as i64, tz as i64), stats.acceleration)
    }
}

/// `f` moved toward `t` by at most `max_delta`, as `move_towards` states.
fn move_towards_exec(f: (i64, i64), t: (i64, i64), max_delta: i64) -> (r: (i64, i64))
    requires
        abs(f.0 as int) <= MAX_SPEED,
        abs(f.1 as int) <= MAX_SPEED,
        abs(t.0 as int) <= MAX_SPEED,
        abs(t.1 as int) <= MAX_SPEED,
        0 <= max_delta <= 100_000_000,
    ensures
        r.0 == move_towards((f.0 as int, f.1 as int), (t.0 as int, t.1 as int), max_delta as int).0,
        r.1 == move_towards((f.0 as int, f.1 as int), (t.0 as int, t.1 as int), max_delta as int).1,
        abs(r.0 as int) <= MAX_SPEED,
        abs(r.1 as int) <= MAX_SPEED,
{
    let dx = t.0 - f.0;
    let dz = t.1 - f.1;
    proof {
        let m2 = 2 * MAX_SPEED;
        lemma_mul_bound(dx as int, dx as int, m2, m2);
        lemma_mul_bound(dz as int, dz as int, m2, m2);
        assert(dx * dx >= 0 && dz * dz >= 0) by (nonlinear_arith);
    }
    let sq = ((dx as i128) * (dx as i128) + (dz as i128) * (dz as i128)) as u64;
    let len = isqrt(sq);
    if len <= max_delta as u64 || len == 0 {
        return t;
    }
    proof {
        lemma_step_between(dx as int, max_delta as int, len as int);
        lemma_step_between(dz as int, max_delta as int, len as int);
    }
    let sx = trunc_div(dx as i128 * max_delta as i128, len as i128);
    let sz = trunc_div(dz as i128 * max_delta as i128, len as i128);
    (f.0 + sx as i64, f.1 + sz as i64)
}

/// A step of `max_delta` out of `len` along a difference `d` stays between zero and `d`.
proof fn lemma_step_between(d: int, max_delta: int, len: int)
    requires
        abs(d) <= 2 * MAX_SPEED,
        0 <= max_delta < len,
        len < 0x1_0000_0000,
    ensures
        abs(d * max_delta) <= 2 * MAX_SPEED * 0x1_0000_0000,
        d >= 0 ==> 0 <= tdiv(d * max_delta, len) <= d,
        d <= 0 ==> d <= tdiv(d * max_delta, len) <= 0,
{
    lemma_mul_bound(d, max_delta, 2 * MAX_SPEED, 0x1_0000_0000);
    lemma_tdiv_bounds(d * max_delta, len);
    let q = tdiv(d * max_delta, len);
    assert(abs(d * max_delta) <= abs(d) * len) by (nonlinear_arith)
        requires
            0 <= max_delta < len,
    ;
    assert(abs(q) <= abs(d)) by (nonlinear_arith)
        requires
            abs(q) * len <= abs(d * max_delta),
            abs(d * max_delta) <= abs(d) * len,
            len > 0,
    ;
    assert(d >= 0 ==> d * max_delta >= 0) by (nonlinear_arith)
        requires
            max_delta >= 0,
    ;
    assert(d <= 0 ==> d * max_delta <= 0) by (nonlinear_arith)
        requires
            max_delta >= 0,
    ;
}

/// Steers horizontal velocity from the move stick for `dt` microseconds:
/// below the state's speed cap (with a 1% margin) it moves toward the input
/// direction at full speed at the state's acceleration; above it, with the
/// stick pushed, it only turns toward the input direction at the state's
/// rotation rate, never gaining speed from input.
pub fn player_movement(
    velocity: &mut Vector3,
    actions: &PlayerActions,
    look_direction: &PlayerLookDirection,
    machine: &StateMachine,
    dt: u64,
)
    requires
        in_box(*old(velocity), MAX_SPEED as int),
        actions.wf(),
        in_box(look_direction.0, UNIT as int),
        dt <= MAX_STEP_MICROS,
    ensures
        in_box(*final(velocity), MAX_SPEED as int),
        final(velocity).y == old(velocity).y,
        final(velocity).x == steered(
            *old(velocity),
            *actions,
            look_direction.0,
            movement_stats_of(machine.movement_state),
            dt as int,
        ).0,
        final(velocity).z == steered(
            *old(velocity),
            *actions,
            look_direction.0,
            movement_stats_of(machine.movement_state),
            dt as int,
        ).1,
{
    let stats = machine.movement_stats();
    let w = world_input_exec(actions, look_direction.0);
    let f = (velocity.x, velocity.z);
    let (target, rate) = steering_exec(f, w, stats);
    proof {
        lemma_mul_bound(rate as int, dt as int, 100_000_000, MAX_STEP_MICROS as int);
        lemma_tdiv_bounds(rate * dt, MICROS_PER_SECOND as int);
        assert(rate * dt >= 0) by (nonlinear_arith)
            requires
                rate >= 0,
                dt >= 0,
        ;
        assert(tdiv(rate * dt, MICROS_PER_SECOND as int) <= 100_000_000) by (nonlinear_arith)
            requires
                abs(tdiv(rate * dt, MICROS_PER_SECOND as int)) * MICROS_PER_SECOND <= abs(rate * dt),
                abs(rate * dt) <= 100_000_000 * MAX_STEP_MICROS,
        ;
    }
    let max_delta = trunc_div(rate as i128 * dt as i128, MICROS_PER_SECOND as i128) as i64;
    let moved = move_towards_exec(f, target, max_delta);
    velocity.x = moved.0;
    velocity.z = moved.1;
}

/// On a jump press, asks the machine for a jump; when it starts one, the
/// body leaves the ground and vertical velocity becomes the jump's strength.
pub fn player_jump(
    machine: &mut StateMachine,
    body: &mut CharacterBody,
    velocity: &mut Vector3,
    jump_pressed: bool,
) -> (jumped: bool)
    ensures
        ({
            let s = old(machine).movement_state;
            let target = jump_target(s, old(machine).coyote_timer);
            jumped == (jump_pressed && target is Some && old(machine).stuck_in_state_timer == 0)
        }),
        !jumped ==> *final(machine) == *old(machine) && *final(body) == *old(body)
            && *final(velocity) == *old(velocity),
        jumped ==> ({
            let s = old(machine).movement_state;
            let t = jump_target(s, old(machine).coyote_timer)->Some_0;
            &&& *final(machine) == (StateMachine {
                movement_state: t,
                coyote_timer: if is_late_jump(s) {
                    0
                } else {
                    old(machine).coyote_timer
                },
                ..*old(machine)
            })
            &&& *final(body) == (CharacterBody { grounded: false, ..*old(body) })
            &&& *final(velocity) == (Vector3 { y: jump_strength_of(t), ..*old(velocity) })
        }),
{
    if !jump_pressed {
        return false;
    }
    match machine.jump() {
        Ok(_) => {
            body.grounded = false;
            velocity.y = machine.jump_strength();
            true
        },
        Err(_) => false,
    }
}

/// The horizontal direction (x, z) the body faces, scaled to `UNIT`: that
/// of its horizontal velocity once that exceeds `FACING_MIN_SPEED`; `None`
/// below, where the facing is left as it was.
pub open spec fn facing(v: Vector3) -> Option<(int, int)> {
    let sq = flat_speed_sq(v);
    if sq > FACING_MIN_SPEED * FACING_MIN_SPEED {
        let len = sqrt_floor(sq);
        Some((tdiv(v.x * UNIT, len), tdiv(v.z * UNIT, len)))
    } else {
        None
    }
}

/// The direction the body turns to face, as `facing` states.
pub fn facing_direction(velocity: Vector3) -> (r: Option<(i64, i64)>)
    requires
        in_box(velocity, MAX_SPEED as int),
    ensures
        r is None <==> facing(velocity) is None,
        r is Some ==> r->Some_0.0 == facing(velocity)->Some_0.0 && r->Some_0.1 == facing(
            velocity,
        )->Some_0.1,
{
    proof {
        lemma_mul_bound(velocity.x as int, velocity.x as int, MAX_SPEED as int, MAX_SPEED as int);
        lemma_mul_bound(velocity.z as int, velocity.z as int, MAX_SPEED as int, MAX_SPEED as int);
        assert(velocity.x * velocity.x >= 0 && velocity.z * velocity.z >= 0) by (nonlinear_arith);
    }
    let sq = (velocity.x as i128) * (velocity.x as i128) + (velocity.z as i128) * (velocity.z as i128);
    let min = FACING_MIN_SPEED as i128;
    proof {
        assert(min * min == 1_000_000_000_000) by (nonlinear_arith)
            requires
                min == 1_000_000,
        ;
    }
    if sq <= min * min {
        return None;
    }
    let len = isqrt(sq as u64);
    proof {
        lemma_component_under_root(velocity.x as int, velocity.z as int, len as int);
        lemma_component_under_root(velocity.z as int, velocity.x as int, len as int);
        lemma_mul_bound(velocity.x as int, UNIT as int, MAX_SPEED as int, UNIT as int);
        lemma_mul_bound(velocity.z as int, UNIT as int, MAX_SPEED as int, UNIT as int);
        lemma_tdiv_bounds(velocity.x * UNIT, len as int);
        lemma_tdiv_bounds(velocity.z * UNIT, len as int);
    }
    let fx = trunc_div(velocity.x as i128 * UNIT as i128, len as i128);
    let fz = trunc_div(velocity.z as i128 * UNIT as i128, len as i128);
    Some((fx as i64, fz as i64))
}

} // verus!
