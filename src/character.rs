//! A controlled character: the body, its ground snap, its movement state
//! machine and its kinematic state, assembled together and advanced one
//! fixed tick at a time.
use vstd::prelude::*;

use crate::character_body::{
    character_body_movement, character_body_snap, movement_config, moved_body, snap_config,
    snap_velocity, snapped_body, snapped_position, CharacterBody, CharacterGroundSnap,
};
use crate::fixed::{in_box, Vector3, MAX_COORD, MAX_SPEED, MAX_STEP_MICROS, UNIT};
use crate::player::{
    damped, fallen, floor_checked, guarded, player_check_floor, player_gravity, player_jump,
    player_movement, player_reset_y_vel, player_slide, slide_checked, steered, PlayerActions,
    PlayerLookDirection,
};
use crate::slide::{is_slide_outcome, reports_directions, Contact, SlideOutcome};
use crate::state_machine::{
    decayed, gravity_of, is_late_jump, jump_strength_of, jump_target, movement_stats_of, ticked,
    MajorMoveState, MinorGroundState, StateMachine,
};

verus! {

/// One controlled character.
#[derive(Clone, Copy, Debug, PartialEq, Eq, Structural)]
pub struct Character {
    pub body: CharacterBody,
    pub ground_snap: Option<CharacterGroundSnap>,
    pub machine: StateMachine,
    /// Position in micrometres.
    pub position: Vector3,
    /// Velocity in micrometres per second.
    pub velocity: Vector3,
    pub look: PlayerLookDirection,
}

/// What one tick did besides changing the character.
#[derive(Clone, Debug)]
pub struct TickReport {
    /// The movement pass.
    pub movement: SlideOutcome,
    /// The snap pass, when one ran.
    pub snap: Option<SlideOutcome>,
    /// A jump started this tick.
    pub jumped: bool,
}

/// The character after the control stages of a tick, before any sweep:
/// the machine matched to the ground, vertical damping, sliding and
/// crouching, gravity, steering from input, the jump request and the
/// decay of a running jump, in that order. Also says whether a jump started.
pub open spec fn controlled(c: Character, a: PlayerActions, dt: u64) -> (Character, bool) {
    let m1 = StateMachine {
        movement_state: guarded(c.machine, floor_checked(c.machine.movement_state, c.body.grounded)),
        ..c.machine
    };
    let vy1 = if m1.movement_state == MajorMoveState::Grounded(MinorGroundState::Moving) {
        damped(c.velocity.y as int, dt as int)
    } else {
        c.velocity.y as int
    };
    let v1 = Vector3 { y: vy1 as i64, ..c.velocity };
    let m2 = StateMachine {
        movement_state: guarded(
            m1,
            slide_checked(m1.movement_state, v1, a.crouch_held, c.body.force_slide),
        ),
        ..m1
    };
    let v2 = Vector3 {
        y: fallen(v1.y as int, gravity_of(m2.movement_state), dt as int) as i64,
        ..v1
    };
    let flat = steered(v2, a, c.look.0, movement_stats_of(m2.movement_state), dt as int);
    let v3 = Vector3 { x: flat.0 as i64, z: flat.1 as i64, ..v2 };
    let target = jump_target(m2.movement_state, m2.coyote_timer);
    let jumped = a.jump_pressed && target is Some && m2.stuck_in_state_timer == 0;
    let t = target->Some_0;
    let m3 = if jumped {
        StateMachine {
            movement_state: t,
            coyote_timer: if is_late_jump(m2.movement_state) {
                0
            } else {
                m2.coyote_timer
            },
            ..m2
        }
    } else {
        m2
    };
    let b3 = if jumped {
        CharacterBody { grounded: false, ..c.body }
    } else {
        c.body
    };
    let v4 = if jumped {
        Vector3 { y: jump_strength_of(t), ..v3 }
    } else {
        v3
    };
    let m4 = decayed(m3, dt, a.jump_held, v4.y);
    (Character { body: b3, machine: m4, velocity: v4, ..c }, jumped)
}

impl Character {
    /// Characters a tick accepts: a well-formed body, a snap distance within
    /// `[0, MAX_SPEED]`, a velocity within `MAX_SPEED`, a look direction
    /// within `UNIT` and a position within `MAX_COORD`.
    pub open spec fn wf(&self) -> bool {
        &&& self.body.wf()
        &&& match self.ground_snap {
            Some(s) => 0 <= s.distance <= MAX_SPEED,
            None => true,
        }
        &&& in_box(self.velocity, MAX_SPEED as int)
        &&& in_box(self.look.0, UNIT as int)
        &&& in_box(self.position, MAX_COORD as int)
    }

    /// A player character at `position`, at rest: a grounded body with +Y
    /// up and a 0.49 floor threshold, a half-metre ground snap, a machine
    /// moving on the ground with no timers running.
    pub fn spawn(position: Vector3) -> (c: Character)
        requires
            in_box(position, MAX_COORD as int),
        ensures
            c.wf(),
            c.body == (CharacterBody {
                grounded: true,
                up: Vector3 { x: 0, y: UNIT, z: 0 },
                max_dot_variance: 4_900,
                last_normal: Vector3 { x: 0, y: UNIT, z: 0 },
                force_slide: false,
            }),
            c.ground_snap == Some(CharacterGroundSnap { distance: 500_000 }),
            c.machine == (StateMachine {
                movement_state: MajorMoveState::Grounded(MinorGroundState::Moving),
                coyote_timer: 0,
                stuck_in_state_timer: 0,
                can_dive: false,
            }),
            c.position == position,
            c.velocity == (Vector3 { x: 0, y: 0, z: 0 }),
            c.look == PlayerLookDirection(Vector3 { x: 0, y: 0, z: 0 }),
    {
        Character {
            body: CharacterBody::default(),
            ground_snap: Some(CharacterGroundSnap::default()),
            machine: StateMachine::default(),
            position,
            velocity: Vector3 { x: 0, y: 0, z: 0 },
            look: PlayerLookDirection(Vector3 { x: 0, y: 0, z: 0 }),
        }
    }

    /// Advances the character by one tick of `dt` microseconds with the
    /// given actions: the control stages (see `controlled`), the movement
    /// pass, the snap pass when the character has a ground snap, and the
    /// machine's timers.
    pub fn update<F: Fn(Vector3, Vector3) -> Option<Contact>>(
        &mut self,
        actions: &PlayerActions,
        dt: u64,
        sweep: &F,
    ) -> (report: TickReport)
        requires
            old(self).wf(),
            actions.wf(),
            dt <= MAX_STEP_MICROS,
            forall|p: Vector3, m: Vector3| sweep.requires((p, m)),
            reports_directions(*sweep),
        ensures
            ({
                let (pre, jumped) = controlled(*old(self), *actions, dt);
                let has_snap = old(self).ground_snap is Some;
                let moved = moved_body(pre.body, has_snap, report.movement.hits@);
                &&& report.jumped == jumped
                &&& is_slide_outcome(
                    *sweep,
                    pre.position,
                    pre.velocity,
                    dt,
                    movement_config(),
                    report.movement,
                )
                &&& final(self).velocity == report.movement.projected_velocity
                &&& final(self).machine == ticked(pre.machine, dt)
                &&& final(self).ground_snap == old(self).ground_snap
                &&& final(self).look == old(self).look
                &&& match old(self).ground_snap {
                    Some(s) if moved.grounded => report.snap is Some && {
                        let o = report.snap->Some_0;
                        &&& is_slide_outcome(
                            *sweep,
                            report.movement.position,
                            snap_velocity(moved.up, s.distance),
                            1_000_000,
                            snap_config(),
                            o,
                        )
                        &&& final(self).position == snapped_position(
                            moved,
                            report.movement.position,
                            o,
                        )
                        &&& final(self).body == snapped_body(moved, o.hits@)
                    },
                    _ => report.snap is None && final(self).position == report.movement.position
                        && final(self).body == moved,
                }
            }),
    {
        player_check_floor(&mut self.machine, &self.body);
        player_reset_y_vel(&mut self.velocity, &self.machine, dt);
        player_slide(&mut self.machine, self.velocity, actions.crouch_held, &self.body);
        player_gravity(&mut self.velocity, &self.machine, dt);
        player_movement(&mut self.velocity, actions, &self.look, &self.machine, dt);
        let jumped = player_jump(&mut self.machine, &mut self.body, &mut self.velocity, actions.jump_pressed);
        self.machine.decay_jump(dt, actions.jump_held, self.velocity.y);
        let has_snap = self.ground_snap.is_some();
        let movement = character_body_movement(
            &mut self.body,
            has_snap,
            &mut self.position,
            &mut self.velocity,
            dt,
            sweep,
        );
        let snap = match self.ground_snap {
            Some(s) => {
                if self.body.grounded {
                    character_body_snap(&mut self.body, &s, &mut self.position, sweep)
                } else {
                    None
                }
            },
            None => None,
        };
        self.machine.tick(dt);
        TickReport { movement, snap, jumped }
    }
}

} // verus!
