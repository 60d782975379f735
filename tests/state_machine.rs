use character_controller::state_machine::{
    Gravity, JumpType, MajorMoveState, MinorAirborneState, MinorGroundState, MovementStats,
    StateMachine, COYOTE_TIME, MAX_CROUCH_JUMP_LENGTH, MAX_DIVE_JUMP_LENGTH, MAX_JUMP_LENGTH,
};

fn machine(state: MajorMoveState, coyote_timer: u64, stuck: u64) -> StateMachine {
    StateMachine {
        movement_state: state,
        coyote_timer,
        stuck_in_state_timer: stuck,
        can_dive: false,
    }
}

const MOVING: MajorMoveState = MajorMoveState::Grounded(MinorGroundState::Moving);
const FALLING: MajorMoveState = MajorMoveState::Airborne(MinorAirborneState::Falling);

fn normal_jump(t: u64) -> MajorMoveState {
    MajorMoveState::Airborne(MinorAirborneState::Jumping(JumpType::Normal(t)))
}

#[test]
fn default_machine_moves_on_the_ground() {
    let m = StateMachine::default();
    assert_eq!(m.movement_state, MOVING);
    assert_eq!(m.coyote_timer, 0);
    assert_eq!(m.stuck_in_state_timer, 0);
}

#[test]
fn transition_is_refused_while_locked() {
    let mut m = machine(MOVING, 0, 1);
    let r = m.transition(FALLING);
    assert_eq!(r, Err(FALLING));
    assert_eq!(m.movement_state, MOVING);
    assert_eq!(m.stuck_in_state_timer, 1);
}

#[test]
fn transition_commits_when_unlocked() {
    let mut m = machine(MOVING, 5, 0);
    let r = m.transition(FALLING);
    assert_eq!(r, Ok(MOVING));
    assert_eq!(m.movement_state, FALLING);
    assert_eq!(m.coyote_timer, 5);
}

#[test]
fn coyote_jump_succeeds_with_time_left() {
    let mut m = machine(FALLING, 1_000, 0);
    let r = m.jump();
    assert_eq!(r, Ok(normal_jump(MAX_JUMP_LENGTH)));
    assert_eq!(m.movement_state, normal_jump(200_000));
    assert_eq!(m.coyote_timer, 0);
}

#[test]
fn coyote_jump_fails_without_time() {
    let mut m = machine(FALLING, 0, 0);
    let r = m.jump();
    assert_eq!(r, Err(FALLING));
    assert_eq!(m.movement_state, FALLING);
    assert_eq!(m.coyote_timer, 0);
}

#[test]
fn jump_kind_follows_the_state() {
    let cases = [
        (MajorMoveState::Grounded(MinorGroundState::Moving), normal_jump(MAX_JUMP_LENGTH)),
        (MajorMoveState::Grounded(MinorGroundState::Sliding), normal_jump(MAX_JUMP_LENGTH)),
        (
            MajorMoveState::Grounded(MinorGroundState::Crouched),
            MajorMoveState::Airborne(MinorAirborneState::Jumping(JumpType::Crouch(
                MAX_CROUCH_JUMP_LENGTH,
            ))),
        ),
        (
            MajorMoveState::Airborne(MinorAirborneState::Dive),
            MajorMoveState::Airborne(MinorAirborneState::Jumping(JumpType::Dive(
                MAX_DIVE_JUMP_LENGTH,
            ))),
        ),
    ];
    for (from, to) in cases {
        let mut m = machine(from, 0, 0);
        assert_eq!(m.jump(), Ok(to));
        assert_eq!(m.movement_state, to);
    }
}

#[test]
fn ground_jump_keeps_coyote_time() {
    let mut m = machine(MOVING, COYOTE_TIME, 0);
    assert_eq!(m.jump(), Ok(normal_jump(MAX_JUMP_LENGTH)));
    assert_eq!(m.coyote_timer, COYOTE_TIME);
}

#[test]
fn jump_is_refused_while_locked() {
    let mut m = machine(MOVING, 0, 10);
    assert_eq!(m.jump(), Err(normal_jump(MAX_JUMP_LENGTH)));
    assert_eq!(m.movement_state, MOVING);
    let mut m = machine(FALLING, 1_000, 10);
    assert_eq!(m.jump(), Err(normal_jump(MAX_JUMP_LENGTH)));
    assert_eq!(m.movement_state, FALLING);
    assert_eq!(m.coyote_timer, 1_000);
}

#[test]
fn jump_timer_running_out_forces_falling() {
    let mut m = machine(normal_jump(10_000), 0, 0);
    m.decay_jump(16_667, true, 3_000_000);
    assert_eq!(m.movement_state, FALLING);
}

#[test]
fn jump_timer_reaching_exactly_zero_forces_falling() {
    let mut m = machine(normal_jump(16_667), 0, 0);
    m.decay_jump(16_667, true, 3_000_000);
    assert_eq!(m.movement_state, FALLING);
}

#[test]
fn jump_continues_while_held_and_rising() {
    let mut m = machine(normal_jump(200_000), 0, 0);
    m.decay_jump(16_667, true, 5_000_000);
    assert_eq!(m.movement_state, normal_jump(183_333));
}

#[test]
fn jump_ends_on_release_or_descent() {
    let mut m = machine(normal_jump(200_000), 0, 0);
    m.decay_jump(16_667, false, 5_000_000);
    assert_eq!(m.movement_state, FALLING);
    let mut m = machine(normal_jump(200_000), 0, 0);
    m.decay_jump(16_667, true, -1);
    assert_eq!(m.movement_state, FALLING);
}

#[test]
fn decay_leaves_other_states_alone() {
    let mut m = machine(MOVING, 7, 3);
    m.decay_jump(16_667, false, -1);
    assert_eq!(m, machine(MOVING, 7, 3));
}

#[test]
fn tick_on_the_ground_refreshes_coyote_time() {
    let mut m = machine(MOVING, 0, 20_000);
    m.tick(16_667);
    assert_eq!(m.coyote_timer, COYOTE_TIME);
    assert_eq!(m.stuck_in_state_timer, 3_333);
    assert!(m.can_dive);
}

#[test]
fn tick_in_the_air_runs_timers_down_to_zero() {
    let mut m = machine(FALLING, 20_000, 10_000);
    m.tick(16_667);
    assert_eq!(m.coyote_timer, 3_333);
    assert_eq!(m.stuck_in_state_timer, 0);
    m.tick(16_667);
    assert_eq!(m.coyote_timer, 0);
    assert!(!m.can_dive);
}

#[test]
fn movement_stats_table() {
    let table = [
        (MOVING, (10, 30, 10)),
        (MajorMoveState::Grounded(MinorGroundState::Sliding), (0, 0, 20)),
        (MajorMoveState::Grounded(MinorGroundState::Crouched), (0, 10, 10)),
        (FALLING, (10, 10, 0)),
        (normal_jump(5), (10, 10, 0)),
        (MajorMoveState::Airborne(MinorAirborneState::Glide), (5, 10, 0)),
        (MajorMoveState::Airborne(MinorAirborneState::Dive), (10, 5, 0)),
    ];
    for (state, (s, a, r)) in table {
        let stats = machine(state, 0, 0).movement_stats();
        assert_eq!(
            stats,
            MovementStats {
                max_speed: s * 1_000_000,
                acceleration: a * 1_000_000,
                rotation_rate: r * 1_000_000,
            }
        );
    }
}

#[test]
fn gravity_table() {
    let g = |up: i64, down: i64, terminal: Option<i64>| Gravity {
        ascending: up * 1_000_000,
        descending: down * 1_000_000,
        terminal_velocity: terminal.map(|t| t * 1_000_000),
    };
    assert_eq!(machine(MOVING, 0, 0).gravity(), g(0, 0, Some(0)));
    assert_eq!(
        machine(MajorMoveState::Grounded(MinorGroundState::Sliding), 0, 0).gravity(),
        g(60, 60, None)
    );
    assert_eq!(
        machine(MajorMoveState::Grounded(MinorGroundState::Crouched), 0, 0).gravity(),
        g(60, 60, None)
    );
    assert_eq!(machine(normal_jump(1), 0, 0).gravity(), g(0, 0, Some(1)));
    assert_eq!(machine(FALLING, 0, 0).gravity(), g(15, 25, Some(20)));
    assert_eq!(
        machine(MajorMoveState::Airborne(MinorAirborneState::Glide), 0, 0).gravity(),
        g(1, 1, Some(5))
    );
    assert_eq!(
        machine(MajorMoveState::Airborne(MinorAirborneState::Dive), 0, 0).gravity(),
        g(4, 160, Some(80))
    );
}

#[test]
fn jump_strength_table() {
    assert_eq!(machine(normal_jump(1), 0, 0).jump_strength(), 5_000_000);
    let crouch = MajorMoveState::Airborne(MinorAirborneState::Jumping(JumpType::Crouch(1)));
    assert_eq!(machine(crouch, 0, 0).jump_strength(), 7_000_000);
    let dive = MajorMoveState::Airborne(MinorAirborneState::Jumping(JumpType::Dive(1)));
    assert_eq!(machine(dive, 0, 0).jump_strength(), 7_000_000);
    assert_eq!(machine(FALLING, 0, 0).jump_strength(), 0);
    assert_eq!(machine(MOVING, 0, 0).jump_strength(), 0);
}

#[test]
fn only_moving_damps_vertical_velocity() {
    assert!(machine(MOVING, 0, 0).set_y_0());
    assert!(!machine(MajorMoveState::Grounded(MinorGroundState::Crouched), 0, 0).set_y_0());
    assert!(!machine(FALLING, 0, 0).set_y_0());
    assert!(machine(MOVING, 0, 0).is_grounded());
    assert!(!machine(FALLING, 0, 0).is_grounded());
}
