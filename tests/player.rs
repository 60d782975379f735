use character_controller::character::Character;
use character_controller::character_body::CharacterBody;
use character_controller::fixed::{isqrt, Vector3, UNIT};
use character_controller::player::{
    facing_direction, player_check_floor, player_gravity, player_jump, player_movement, player_reset_y_vel,
    player_slide, PlayerActions, PlayerLookDirection,
};
use character_controller::slide::Contact;
use character_controller::state_machine::{
    JumpType, MajorMoveState, MinorAirborneState, MinorGroundState, StateMachine,
};

const TICK: u64 = 16_667;

fn p(x: i64, y: i64, z: i64) -> Vector3 {
    Vector3 { x, y, z }
}

fn in_state(state: MajorMoveState) -> StateMachine {
    StateMachine {
        movement_state: state,
        ..StateMachine::default()
    }
}

fn idle() -> PlayerActions {
    PlayerActions {
        move_x: 0,
        move_y: 0,
        jump_pressed: false,
        jump_held: false,
        crouch_held: false,
    }
}

/// Flat ground at `y = 0`.
fn ground(from: Vector3, motion: Vector3) -> Option<Contact> {
    if motion.y >= 0 || from.y + motion.y >= 0 {
        return None;
    }
    let sq = (motion.x as i128).pow(2) + (motion.y as i128).pow(2) + (motion.z as i128).pow(2);
    let len = isqrt(sq as u64) as i128;
    Some(Contact {
        distance: (from.y as i128 * len / (-motion.y) as i128) as i64,
        normal: p(0, UNIT, 0),
        entity: 1,
        forces_slide: false,
    })
}

const MOVING: MajorMoveState = MajorMoveState::Grounded(MinorGroundState::Moving);
const SLIDING: MajorMoveState = MajorMoveState::Grounded(MinorGroundState::Sliding);
const CROUCHED: MajorMoveState = MajorMoveState::Grounded(MinorGroundState::Crouched);
const FALLING: MajorMoveState = MajorMoveState::Airborne(MinorAirborneState::Falling);

#[test]
fn resting_character_stays_at_rest() {
    let mut c = Character::spawn(p(0, 100_000, 0));
    let report = c.update(&idle(), TICK, &ground);
    assert!(!report.jumped);
    assert_eq!(c.velocity, p(0, 0, 0));
    assert_eq!(c.machine.movement_state, MOVING);
    assert!(c.body.grounded);
    // the snap pulled it onto the ground, a skin width above it
    assert_eq!(c.position, p(0, 10_000, 0));
    assert_eq!(c.machine.coyote_timer, 250_000);
}

#[test]
fn grounded_gravity_tick_keeps_vertical_velocity_zero() {
    let machine = in_state(MOVING);
    let mut v = p(0, 0, 0);
    player_reset_y_vel(&mut v, &machine, TICK);
    player_gravity(&mut v, &machine, TICK);
    player_movement(&mut v, &idle(), &PlayerLookDirection(p(0, 0, -UNIT)), &machine, TICK);
    assert_eq!(v, p(0, 0, 0));
}

#[test]
fn crouching_above_slide_speed_starts_a_slide() {
    let mut machine = in_state(MOVING);
    player_slide(&mut machine, p(8_000_000, 0, 0), true, &CharacterBody::default());
    assert_eq!(machine.movement_state, SLIDING);
    let stats = machine.movement_stats();
    assert_eq!(stats.max_speed, 0);
    assert_eq!(stats.acceleration, 0);
}

#[test]
fn crouching_at_speed_slides_through_a_whole_tick() {
    let mut c = Character::spawn(p(0, 10_000, 0));
    c.velocity = p(8_000_000, 0, 0);
    let actions = PlayerActions {
        crouch_held: true,
        ..idle()
    };
    c.update(&actions, TICK, &ground);
    assert_eq!(c.machine.movement_state, SLIDING);
    assert_eq!(c.machine.movement_stats().max_speed, 0);
    assert_eq!(c.machine.movement_stats().acceleration, 0);
    assert_eq!(c.velocity, p(8_000_000, 0, 0));
    assert!(c.body.grounded);
    assert!(c.position.x > 100_000);
    assert!(c.position.y >= 0);
}

#[test]
fn jump_from_moving_leaves_the_ground() {
    let mut machine = in_state(MOVING);
    let mut body = CharacterBody::default();
    let mut v = p(1_000, 0, 2_000);
    let jumped = player_jump(&mut machine, &mut body, &mut v, true);
    assert!(jumped);
    assert_eq!(
        machine.movement_state,
        MajorMoveState::Airborne(MinorAirborneState::Jumping(JumpType::Normal(200_000)))
    );
    assert_eq!(v, p(1_000, 5_000_000, 2_000));
    assert!(!body.grounded);
}

#[test]
fn jump_press_through_a_whole_tick() {
    let mut c = Character::spawn(p(0, 10_000, 0));
    let actions = PlayerActions {
        jump_pressed: true,
        jump_held: true,
        ..idle()
    };
    let report = c.update(&actions, TICK, &ground);
    assert!(report.jumped);
    assert!(report.snap.is_none());
    assert_eq!(
        c.machine.movement_state,
        MajorMoveState::Airborne(MinorAirborneState::Jumping(JumpType::Normal(183_333)))
    );
    assert_eq!(c.velocity, p(0, 5_000_000, 0));
    assert!(!c.body.grounded);
    assert_eq!(c.position, p(0, 10_000 + 83_335, 0));
}

#[test]
fn no_jump_without_a_press() {
    let mut machine = in_state(MOVING);
    let mut body = CharacterBody::default();
    let mut v = p(0, 0, 0);
    assert!(!player_jump(&mut machine, &mut body, &mut v, false));
    assert_eq!(machine.movement_state, MOVING);
    assert!(body.grounded);
}

#[test]
fn floor_check_matches_the_body() {
    let mut machine = in_state(SLIDING);
    let airborne = CharacterBody {
        grounded: false,
        ..CharacterBody::default()
    };
    player_check_floor(&mut machine, &airborne);
    assert_eq!(machine.movement_state, FALLING);
    player_check_floor(&mut machine, &CharacterBody::default());
    assert_eq!(machine.movement_state, MOVING);
    player_check_floor(&mut machine, &CharacterBody::default());
    assert_eq!(machine.movement_state, MOVING);
}

#[test]
fn slow_crouch_crouches_and_release_stands() {
    let body = CharacterBody::default();
    let mut machine = in_state(MOVING);
    player_slide(&mut machine, p(2_000_000, 0, 0), true, &body);
    assert_eq!(machine.movement_state, CROUCHED);
    player_slide(&mut machine, p(8_000_000, 0, 0), true, &body);
    assert_eq!(machine.movement_state, SLIDING);
    player_slide(&mut machine, p(6_000_000, 0, 0), true, &body);
    assert_eq!(machine.movement_state, SLIDING);
    player_slide(&mut machine, p(4_000_000, 0, 0), true, &body);
    assert_eq!(machine.movement_state, MOVING);
    let mut crouched = in_state(CROUCHED);
    player_slide(&mut crouched, p(0, 0, 0), false, &body);
    assert_eq!(crouched.movement_state, MOVING);
    let mut sliding = in_state(SLIDING);
    player_slide(&mut sliding, p(9_000_000, 0, 0), false, &body);
    assert_eq!(sliding.movement_state, MOVING);
}

#[test]
fn slide_surface_forces_a_slide() {
    let body = CharacterBody {
        force_slide: true,
        ..CharacterBody::default()
    };
    let mut machine = in_state(MOVING);
    player_slide(&mut machine, p(100_000, 0, 0), false, &body);
    assert_eq!(machine.movement_state, SLIDING);
    let mut resting = in_state(MOVING);
    player_slide(&mut resting, p(0, -5_000_000, 0), false, &body);
    assert_eq!(resting.movement_state, MOVING);
    let mut airborne = in_state(FALLING);
    player_slide(&mut airborne, p(9_000_000, 0, 0), true, &body);
    assert_eq!(airborne.movement_state, FALLING);
}

#[test]
fn vertical_damping_approaches_zero() {
    let mut v = p(0, 1_000_000, 0);
    player_reset_y_vel(&mut v, &in_state(MOVING), TICK);
    assert_eq!(v.y, 833_330);
    let mut long = p(0, -1_000_000, 0);
    player_reset_y_vel(&mut long, &in_state(MOVING), 500_000);
    assert_eq!(long.y, 0);
    let mut falling = p(0, 1_000_000, 0);
    player_reset_y_vel(&mut falling, &in_state(FALLING), TICK);
    assert_eq!(falling.y, 1_000_000);
}

#[test]
fn falling_gravity_and_terminal_velocity() {
    let mut v = p(0, 0, 0);
    player_gravity(&mut v, &in_state(FALLING), TICK);
    assert_eq!(v.y, -416_675);
    let mut rising = p(0, 1_000_000, 0);
    player_gravity(&mut rising, &in_state(FALLING), TICK);
    assert_eq!(rising.y, 1_000_000 - 250_005);
    let mut fast = p(0, -19_900_000, 0);
    player_gravity(&mut fast, &in_state(FALLING), TICK);
    assert_eq!(fast.y, -20_000_000);
    let mut sliding = p(0, -999_999_000, 0);
    player_gravity(&mut sliding, &in_state(SLIDING), TICK);
    assert_eq!(sliding.y, -1_000_000_000);
}

#[test]
fn input_accelerates_toward_the_look_direction() {
    let mut v = p(0, 0, 0);
    let forward = PlayerActions {
        move_y: UNIT,
        ..idle()
    };
    player_movement(&mut v, &forward, &PlayerLookDirection(p(0, 0, -UNIT)), &in_state(MOVING), TICK);
    assert_eq!(v, p(0, 0, -500_010));
    let right = PlayerActions {
        move_x: UNIT,
        ..idle()
    };
    let mut w = p(0, 0, 0);
    player_movement(&mut w, &right, &PlayerLookDirection(p(0, 0, -UNIT)), &in_state(MOVING), TICK);
    assert_eq!(w, p(500_010, 0, 0));
}

#[test]
fn vertical_look_steers_along_z() {
    let mut v = p(0, 0, 0);
    let forward = PlayerActions {
        move_y: UNIT,
        ..idle()
    };
    player_movement(&mut v, &forward, &PlayerLookDirection(p(0, UNIT, 0)), &in_state(MOVING), TICK);
    assert_eq!(v, p(0, 0, 500_010));
}

#[test]
fn speed_over_the_cap_is_only_steered() {
    let forward = PlayerActions {
        move_y: UNIT,
        ..idle()
    };
    let mut v = p(20_000_000, 3, 0);
    player_movement(&mut v, &forward, &PlayerLookDirection(p(0, 0, -UNIT)), &in_state(MOVING), TICK);
    assert_eq!(v, p(20_000_000 - 166_670, 3, 0));
    let right = PlayerActions {
        move_x: UNIT,
        ..idle()
    };
    let mut along = p(20_000_000, 0, 0);
    player_movement(&mut along, &right, &PlayerLookDirection(p(0, 0, -UNIT)), &in_state(MOVING), TICK);
    assert_eq!(along, p(20_000_000, 0, 0));
}

#[test]
fn no_input_decelerates_to_rest() {
    let mut v = p(300_000, 0, -400_000);
    player_movement(&mut v, &idle(), &PlayerLookDirection(p(0, 0, -UNIT)), &in_state(MOVING), TICK);
    assert_eq!(v, p(0, 0, 0));
}

#[test]
fn body_faces_its_horizontal_motion() {
    assert_eq!(facing_direction(p(3_000_000, -9_000_000, 4_000_000)), Some((6_000, 8_000)));
    assert_eq!(facing_direction(p(-2_000_000, 0, 0)), Some((-UNIT, 0)));
    assert_eq!(facing_direction(p(600_000, 5_000_000, 800_000)), None);
}

#[test]
fn floor_check_waits_for_the_state_lock() {
    let mut machine = StateMachine {
        stuck_in_state_timer: 100_000,
        ..in_state(MOVING)
    };
    let airborne = CharacterBody {
        grounded: false,
        ..CharacterBody::default()
    };
    player_check_floor(&mut machine, &airborne);
    assert_eq!(machine.movement_state, MOVING);
    machine.stuck_in_state_timer = 0;
    player_check_floor(&mut machine, &airborne);
    assert_eq!(machine.movement_state, FALLING);
}

#[test]
fn slide_waits_for_the_state_lock() {
    let mut machine = StateMachine {
        stuck_in_state_timer: 1,
        ..in_state(MOVING)
    };
    player_slide(&mut machine, p(8_000_000, 0, 0), true, &CharacterBody::default());
    assert_eq!(machine.movement_state, MOVING);
}
