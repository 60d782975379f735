//! The movement state machine: locomotion states, their timers and the
//! table of movement parameters attached to each state.
use vstd::prelude::*;

use crate::fixed::MICROS_PER_SECOND;

verus! {

/// Forced ascent of a normal jump, in microseconds.
pub const MAX_JUMP_LENGTH: u64 = 200_000;

/// Forced ascent of a crouch jump, in microseconds.
pub const MAX_CROUCH_JUMP_LENGTH: u64 = 300_000;

/// Forced ascent of a dive jump, in microseconds.
pub const MAX_DIVE_JUMP_LENGTH: u64 = 100_000;

/// Grace window after leaving the ground during which a jump still succeeds, in microseconds.
pub const COYOTE_TIME: u64 = 250_000;

/// The kind of a jump, with the forced ascent time left in microseconds.
#[derive(Clone, Copy, Debug, PartialEq, Eq, Structural)]
pub enum JumpType {
    Normal(u64),
    Crouch(u64),
    Dive(u64),
}

#[derive(Clone, Copy, Debug, PartialEq, Eq, Structural)]
pub enum MinorGroundState {
    Moving,
    Sliding,
    Crouched,
}

#[derive(Clone, Copy, Debug, PartialEq, Eq, Structural)]
pub enum MinorAirborneState {
    Falling,
    Jumping(JumpType),
    Dive,
    Glide,
}

#[derive(Clone, Copy, Debug, PartialEq, Eq, Structural)]
pub enum MajorMoveState {
    Grounded(MinorGroundState),
    Airborne(MinorAirborneState),
}

impl Default for MinorGroundState {
    fn default() -> (r: Self)
        ensures
            r == MinorGroundState::Moving,
    {
        MinorGroundState::Moving
    }
}

impl Default for MinorAirborneState {
    fn default() -> (r: Self)
        ensures
            r == MinorAirborneState::Falling,
    {
        MinorAirborneState::Falling
    }
}

impl Default for MajorMoveState {
    fn default() -> (r: Self)
        ensures
            r == MajorMoveState::Grounded(MinorGroundState::Moving),
    {
        MajorMoveState::Grounded(MinorGroundState::Moving)
    }
}

/// Movement parameters of a state: speeds in micrometres per second,
/// rates in micrometres per second squared.
#[derive(Clone, Copy, Debug, PartialEq, Eq, Structural)]
pub struct MovementStats {
    /// Highest speed that input can drive the body to.
    pub max_speed: i64,
    /// Rate at which input changes the velocity.
    pub acceleration: i64,
    /// Rate at which input can only steer the velocity when above `max_speed`.
    pub rotation_rate: i64,
}

/// Vertical acceleration of a state: up while rising, down while falling
/// (micrometres per second squared), and the terminal falling speed
/// (micrometres per second, `None` when unbounded).
#[derive(Clone, Copy, Debug, PartialEq, Eq, Structural)]
pub struct Gravity {
    pub ascending: i64,
    pub descending: i64,
    pub terminal_velocity: Option<i64>,
}

/// The movement state of one controlled entity, with its timers in microseconds.
#[derive(Clone, Copy, Debug, PartialEq, Eq, Structural)]
pub struct StateMachine {
    pub movement_state: MajorMoveState,
    /// Time left in which a jump from the air still succeeds.
    pub coyote_timer: u64,
    /// While positive, every guarded transition is refused.
    pub stuck_in_state_timer: u64,
    pub can_dive: bool,
}

pub open spec fn is_grounded_state(s: MajorMoveState) -> bool {
    s is Grounded
}

/// The state a jump request leads to, given the current state and coyote
/// time; `None` when no jump is available.
pub open spec fn jump_target(s: MajorMoveState, coyote_timer: u64) -> Option<MajorMoveState> {
    match s {
        MajorMoveState::Grounded(MinorGroundState::Crouched) => Some(
            MajorMoveState::Airborne(
                MinorAirborneState::Jumping(JumpType::Crouch(MAX_CROUCH_JUMP_LENGTH)),
            ),
        ),
        MajorMoveState::Grounded(_) => Some(
            MajorMoveState::Airborne(MinorAirborneState::Jumping(JumpType::Normal(MAX_JUMP_LENGTH))),
        ),
        MajorMoveState::Airborne(MinorAirborneState::Dive) => Some(
            MajorMoveState::Airborne(
                MinorAirborneState::Jumping(JumpType::Dive(MAX_DIVE_JUMP_LENGTH)),
            ),
        ),
        MajorMoveState::Airborne(_) => if coyote_timer > 0 {
            Some(
                MajorMoveState::Airborne(
                    MinorAirborneState::Jumping(JumpType::Normal(MAX_JUMP_LENGTH)),
                ),
            )
        } else {
            None
        },
    }
}

/// A jump from the air that only coyote time allows.
pub open spec fn is_late_jump(s: MajorMoveState) -> bool {
    s is Airborne && !(s matches MajorMoveState::Airborne(MinorAirborneState::Dive))
}

pub open spec fn stats(max_speed: int, acceleration: int, rotation_rate: int) -> MovementStats {
    MovementStats {
        max_speed: (max_speed * MICROS_PER_SECOND) as i64,
        acceleration: (acceleration * MICROS_PER_SECOND) as i64,
        rotation_rate: (rotation_rate * MICROS_PER_SECOND) as i64,
    }
}

/// The movement parameter table, in metres per second (squared) times one million.
pub open spec fn movement_stats_of(s: MajorMoveState) -> MovementStats {
    match s {
        MajorMoveState::Grounded(MinorGroundState::Moving) => stats(10, 30, 10),
        MajorMoveState::Grounded(MinorGroundState::Sliding) => stats(0, 0, 20),
        MajorMoveState::Grounded(MinorGroundState::Crouched) => stats(0, 10, 10),
        MajorMoveState::Airborne(MinorAirborneState::Glide) => stats(5, 10, 0),
        MajorMoveState::Airborne(MinorAirborneState::Dive) => stats(10, 5, 0),
        MajorMoveState::Airborne(_) => stats(10, 10, 0),
    }
}

pub open spec fn gravity_curve(up: int, down: int, terminal: Option<int>) -> Gravity {
    Gravity {
        ascending: (up * MICROS_PER_SECOND) as i64,
        descending: (down * MICROS_PER_SECOND) as i64,
        terminal_velocity: match terminal {
            Some(t) => Some((t * MICROS_PER_SECOND) as i64),
            None => None,
        },
    }
}

/// The gravity table, in metres per second (squared) times one million.
pub open spec fn gravity_of(s: MajorMoveState) -> Gravity {
    match s {
        MajorMoveState::Grounded(MinorGroundState::Moving) => gravity_curve(0, 0, Some(0)),
        MajorMoveState::Grounded(_) => gravity_curve(60, 60, None),
        MajorMoveState::Airborne(MinorAirborneState::Jumping(_)) => gravity_curve(0, 0, Some(1)),
        MajorMoveState::Airborne(MinorAirborneState::Falling) => gravity_curve(15, 25, Some(20)),
        MajorMoveState::Airborne(MinorAirborneState::Glide) => gravity_curve(1, 1, Some(5)),
        MajorMoveState::Airborne(MinorAirborneState::Dive) => gravity_curve(4, 160, Some(80)),
    }
}

/// Vertical speed given by a jump of the current state, in micrometres per second.
pub open spec fn jump_strength_of(s: MajorMoveState) -> i64 {
    match s {
        MajorMoveState::Airborne(MinorAirborneState::Jumping(JumpType::Normal(_))) => 5_000_000,
        MajorMoveState::Airborne(MinorAirborneState::Jumping(_)) => 7_000_000,
        _ => 0,
    }
}

/// Forced ascent time left in a jump, in microseconds.
pub open spec fn jump_time_left(jump: JumpType) -> u64 {
    match jump {
        JumpType::Normal(t) => t,
        JumpType::Crouch(t) => t,
        JumpType::Dive(t) => t,
    }
}

/// The jump state after `elapsed` microseconds with the given input and
/// vertical velocity: the ascent ends when its time runs out, when the jump
/// button is released or once the body moves down.
pub open spec fn decayed_jump(jump: JumpType, elapsed: u64, jump_held: bool, vertical_velocity: i64)
    -> MajorMoveState {
    let left = jump_time_left(jump);
    if left <= elapsed || !jump_held || vertical_velocity < 0 {
        MajorMoveState::Airborne(MinorAirborneState::Falling)
    } else {
        let rest = (left - elapsed) as u64;
        MajorMoveState::Airborne(
            MinorAirborneState::Jumping(
                match jump {
                    JumpType::Normal(_) => JumpType::Normal(rest),
                    JumpType::Crouch(_) => JumpType::Crouch(rest),
                    JumpType::Dive(_) => JumpType::Dive(rest),
                },
            ),
        )
    }
}

/// The machine after `tick(elapsed)`.
pub open spec fn ticked(m: StateMachine, elapsed: u64) -> StateMachine {
    let coyote = if m.coyote_timer > elapsed {
        (m.coyote_timer - elapsed) as u64
    } else {
        0
    };
    let stuck = if m.stuck_in_state_timer > elapsed {
        (m.stuck_in_state_timer - elapsed) as u64
    } else {
        0
    };
    if is_grounded_state(m.movement_state) {
        StateMachine { coyote_timer: COYOTE_TIME, stuck_in_state_timer: stuck, can_dive: true, ..m }
    } else {
        StateMachine { coyote_timer: coyote, stuck_in_state_timer: stuck, ..m }
    }
}

/// The machine after `decay_jump(elapsed, jump_held, vertical_velocity)`.
pub open spec fn decayed(m: StateMachine, elapsed: u64, jump_held: bool, vertical_velocity: i64)
    -> StateMachine {
    match m.movement_state {
        MajorMoveState::Airborne(MinorAirborneState::Jumping(j)) => StateMachine {
            movement_state: decayed_jump(j, elapsed, jump_held, vertical_velocity),
            ..m
        },
        _ => m,
    }
}

/// Coyote time gates jumps from a fall: with any time left the request
/// leads to a normal jump that consumes the coyote time; with none left
/// there is no jump to make.
pub proof fn lemma_coyote_time_gates_late_jumps(coyote_timer: u64)
    ensures
        coyote_timer > 0 ==> jump_target(
            MajorMoveState::Airborne(MinorAirborneState::Falling),
            coyote_timer,
        ) == Some(
            MajorMoveState::Airborne(MinorAirborneState::Jumping(JumpType::Normal(MAX_JUMP_LENGTH))),
        ) && is_late_jump(MajorMoveState::Airborne(MinorAirborneState::Falling)),
        coyote_timer == 0 ==> jump_target(
            MajorMoveState::Airborne(MinorAirborneState::Falling),
            coyote_timer,
        ) is None,
{
}

/// A jump whose forced ascent runs out within a tick ends in that same
/// tick, falling, whatever the jump input and the vertical velocity.
pub proof fn lemma_jump_ends_when_its_time_runs_out(
    m: StateMachine,
    elapsed: u64,
    jump_held: bool,
    vertical_velocity: i64,
)
    requires
        m.movement_state matches MajorMoveState::Airborne(MinorAirborneState::Jumping(j))
            && jump_time_left(j) <= elapsed,
    ensures
        decayed(m, elapsed, jump_held, vertical_velocity).movement_state == MajorMoveState::Airborne(
            MinorAirborneState::Falling,
        ),
{
}

impl Default for StateMachine {
    fn default() -> (r: Self)
        ensures
            r.movement_state == MajorMoveState::Grounded(MinorGroundState::Moving),
            r.coyote_timer == 0,
            r.stuck_in_state_timer == 0,
            !r.can_dive,
    {
        StateMachine {
            movement_state: MajorMoveState::Grounded(MinorGroundState::Moving),
            coyote_timer: 0,
            stuck_in_state_timer: 0,
            can_dive: false,
        }
    }
}

impl StateMachine {
    /// Moves to `new_state` unless the state is locked. Returns the prior
    /// state on success and the refused state while locked.
    pub fn transition(&mut self, new_state: MajorMoveState) -> (r: Result<
        MajorMoveState,
        MajorMoveState,
    >)
        ensures
            old(self).stuck_in_state_timer > 0 ==> *final(self) == *old(self) && r == Err::<
                MajorMoveState,
                MajorMoveState,
            >(new_state),
            old(self).stuck_in_state_timer == 0 ==> r == Ok::<MajorMoveState, MajorMoveState>(
                old(self).movement_state,
            ) && *final(self) == (StateMachine { movement_state: new_state, ..*old(self) }),
    {
        if self.stuck_in_state_timer > 0 {
            return Err(new_state);
        }
        let prior = self.movement_state;
        self.movement_state = new_state;
        Ok(prior)
    }

    /// Tries to start the jump that the current state allows. Returns the
    /// new state on success; the refused state while locked; the current
    /// state when no jump is available. A jump from the air that only
    /// coyote time allows consumes that time.
    pub fn jump(&mut self) -> (r: Result<MajorMoveState, MajorMoveState>)
        ensures
            ({
                let s = old(self).movement_state;
                match jump_target(s, old(self).coyote_timer) {
                    None => *final(self) == *old(self) && r == Err::<
                        MajorMoveState,
                        MajorMoveState,
                    >(s),
                    Some(t) => if old(self).stuck_in_state_timer > 0 {
                        *final(self) == *old(self) && r == Err::<MajorMoveState, MajorMoveState>(t)
                    } else {
                        r == Ok::<MajorMoveState, MajorMoveState>(t)
                            && final(self).movement_state == t
                            && final(self).coyote_timer == (if is_late_jump(s) {
                            0
                        } else {
                            old(self).coyote_timer
                        }) && final(self).stuck_in_state_timer == old(
                            self,
                        ).stuck_in_state_timer && final(self).can_dive == old(self).can_dive
                    },
                }
            }),
    {
        let target = match self.movement_state {
            MajorMoveState::Grounded(MinorGroundState::Crouched) => MajorMoveState::Airborne(
                MinorAirborneState::Jumping(JumpType::Crouch(MAX_CROUCH_JUMP_LENGTH)),
            ),
            MajorMoveState::Grounded(_) => MajorMoveState::Airborne(
                MinorAirborneState::Jumping(JumpType::Normal(MAX_JUMP_LENGTH)),
            ),
            MajorMoveState::Airborne(MinorAirborneState::Dive) => MajorMoveState::Airborne(
                MinorAirborneState::Jumping(JumpType::Dive(MAX_DIVE_JUMP_LENGTH)),
            ),
            MajorMoveState::Airborne(_) => {
                if self.coyote_timer == 0 {
                    return Err(self.movement_state);
                }
                let late = MajorMoveState::Airborne(
                    MinorAirborneState::Jumping(JumpType::Normal(MAX_JUMP_LENGTH)),
                );
                let outcome = self.transition(late);
                if outcome.is_ok() {
                    self.coyote_timer = 0;
                    return Ok(late);
                }
                return Err(late);
            },
        };
        match self.transition(target) {
            Ok(_) => Ok(target),
            Err(refused) => Err(refused),
        }
    }

    /// Per-tick housekeeping: both timers run down by `elapsed`
    /// microseconds, stopping at zero; a grounded machine gets its full
    /// coyote time back and may dive again.
    pub fn tick(&mut self, elapsed: u64)
        ensures
            *final(self) == ticked(*old(self), elapsed),
    {
        self.coyote_timer = self.coyote_timer.saturating_sub(elapsed);
        self.stuck_in_state_timer = self.stuck_in_state_timer.saturating_sub(elapsed);
        if let MajorMoveState::Grounded(_) = self.movement_state {
            self.coyote_timer = COYOTE_TIME;
            self.can_dive = true;
        }
    }

    /// Whether vertical velocity is damped toward zero in this state.
    pub fn set_y_0(&self) -> (r: bool)
        ensures
            r == (self.movement_state == MajorMoveState::Grounded(MinorGroundState::Moving)),
    {
        match self.movement_state {
            MajorMoveState::Grounded(MinorGroundState::Moving) => true,
            _ => false,
        }
    }

    pub fn is_grounded(&self) -> (r: bool)
        ensures
            r == is_grounded_state(self.movement_state),
    {
        match self.movement_state {
            MajorMoveState::Grounded(_) => true,
            MajorMoveState::Airborne(_) => false,
        }
    }

    pub fn movement_stats(&self) -> (r: MovementStats)
        ensures
            r == movement_stats_of(self.movement_state),
    {
        let (max_speed, acceleration, rotation_rate): (i64, i64, i64) = match self.movement_state {
            MajorMoveState::Grounded(MinorGroundState::Moving) => (10, 30, 10),
            MajorMoveState::Grounded(MinorGroundState::Sliding) => (0, 0, 20),
            MajorMoveState::Grounded(MinorGroundState::Crouched) => (0, 10, 10),
            MajorMoveState::Airborne(MinorAirborneState::Glide) => (5, 10, 0),
            MajorMoveState::Airborne(MinorAirborneState::Dive) => (10, 5, 0),
            MajorMoveState::Airborne(_) => (10, 10, 0),
        };
        MovementStats {
            max_speed: max_speed * MICROS_PER_SECOND,
            acceleration: acceleration * MICROS_PER_SECOND,
            rotation_rate: rotation_rate * MICROS_PER_SECOND,
        }
    }

    /// Gravity of the current state: ascending, descending, terminal velocity.
    pub fn gravity(&self) -> (r: Gravity)
        ensures
            r == gravity_of(self.movement_state),
    {
        let (up, down, terminal): (i64, i64, Option<i64>) = match self.movement_state {
            MajorMoveState::Grounded(MinorGroundState::Moving) => (0, 0, Some(0)),
            MajorMoveState::Grounded(_) => (60, 60, None),
            MajorMoveState::Airborne(MinorAirborneState::Jumping(_)) => (0, 0, Some(1)),
            MajorMoveState::Airborne(MinorAirborneState::Falling) => (15, 25, Some(20)),
            MajorMoveState::Airborne(MinorAirborneState::Glide) => (1, 1, Some(5)),
            MajorMoveState::Airborne(MinorAirborneState::Dive) => (4, 160, Some(80)),
        };
        Gravity {
            ascending: up * MICROS_PER_SECOND,
            descending: down * MICROS_PER_SECOND,
            terminal_velocity: match terminal {
                Some(t) => Some(t * MICROS_PER_SECOND),
                None => None,
            },
        }
    }

    /// Vertical speed that the current jump gives, zero outside a jump.
    pub fn jump_strength(&self) -> (r: i64)
        ensures
            r == jump_strength_of(self.movement_state),
    {
        match self.movement_state {
            MajorMoveState::Airborne(MinorAirborneState::Jumping(JumpType::Normal(_))) => 5_000_000,
            MajorMoveState::Airborne(MinorAirborneState::Jumping(_)) => 7_000_000,
            _ => 0,
        }
    }

    /// Runs down the forced ascent of a jump by `elapsed` microseconds and
    /// ends the jump, into `Falling`, when it runs out, when the jump
    /// button is released or once the body moves down. Other states are
    /// left as they are.
    pub fn decay_jump(&mut self, elapsed: u64, jump_held: bool, vertical_velocity: i64)
        ensures
            *final(self) == decayed(*old(self), elapsed, jump_held, vertical_velocity),
    {
        if let MajorMoveState::Airborne(MinorAirborneState::Jumping(jump)) = self.movement_state {
            let left = match jump {
                JumpType::Normal(t) => t,
                JumpType::Crouch(t) => t,
                JumpType::Dive(t) => t,
            };
            if left <= elapsed || !jump_held || vertical_velocity < 0 {
                self.movement_state = MajorMoveState::Airborne(MinorAirborneState::Falling);
            } else {
                let rest = left - elapsed;
                let next = match jump {
                    JumpType::Normal(_) => JumpType::Normal(rest),
                    JumpType::Crouch(_) => JumpType::Crouch(rest),
                    JumpType::Dive(_) => JumpType::Dive(rest),
                };
                self.movement_state = MajorMoveState::Airborne(MinorAirborneState::Jumping(next));
            }
        }
    }
}

} // verus!
