use character_controller::character_body::{
    character_body_movement, character_body_snap, CharacterBody, CharacterGroundSnap,
};
use character_controller::fixed::{isqrt, Vector3, UNIT};
use character_controller::slide::Contact;

fn vec3(x: i64, y: i64, z: i64) -> Vector3 {
    Vector3 { x, y, z }
}

fn contact_with(normal: Vector3, forces_slide: bool) -> Contact {
    Contact {
        distance: 0,
        normal,
        entity: 11,
        forces_slide,
    }
}

/// Flat ground at `y = 0`, optionally slide-inducing.
fn flat_ground(forces_slide: bool) -> impl Fn(Vector3, Vector3) -> Option<Contact> {
    move |from: Vector3, motion: Vector3| {
        if motion.y >= 0 || from.y + motion.y >= 0 {
            return None;
        }
        let sq = (motion.x as i128).pow(2) + (motion.y as i128).pow(2) + (motion.z as i128).pow(2);
        let len = isqrt(sq as u64) as i128;
        let distance = (from.y as i128 * len / (-motion.y) as i128) as i64;
        Some(Contact {
            distance,
            normal: vec3(0, UNIT, 0),
            entity: 2,
            forces_slide,
        })
    }
}

#[test]
fn default_body_is_grounded_with_y_up() {
    let b = CharacterBody::default();
    assert!(b.grounded);
    assert_eq!(b.up, vec3(0, UNIT, 0));
    assert_eq!(b.max_dot_variance, 4_900);
    assert_eq!(b.last_normal, vec3(0, UNIT, 0));
    assert!(!b.force_slide);
    assert_eq!(CharacterGroundSnap::default().distance, 500_000);
}

#[test]
fn both_passes_classify_floor_alike() {
    let normals = [
        vec3(0, UNIT, 0),
        vec3(UNIT, 0, 0),
        vec3(0, -UNIT, 0),
        vec3(0, 4_900, 8_717),
        vec3(0, 4_901, 8_716),
        vec3(7_071, 7_071, 0),
        vec3(8_716, 4_902, 0),
    ];
    let expected = [true, false, false, false, true, true, true];
    for (n, floor) in normals.iter().zip(expected) {
        let mut moving = CharacterBody {
            grounded: false,
            ..CharacterBody::default()
        };
        moving.record_movement_hit(&contact_with(*n, false));
        let mut snapping = CharacterBody::default();
        let snap_floor = snapping.record_snap_hit(&contact_with(*n, false));
        assert_eq!(moving.grounded, floor, "movement pass on {:?}", n);
        assert_eq!(snap_floor, floor, "snap pass on {:?}", n);
        assert_eq!(CharacterBody::default().is_floor(*n), floor);
        assert_eq!(moving.last_normal, *n);
        assert_eq!(snapping.last_normal, *n);
    }
}

#[test]
fn wall_contact_is_not_floor() {
    let b = CharacterBody::default();
    assert!(!b.is_floor(vec3(-UNIT, 0, 0)));
}

#[test]
fn movement_pass_without_snap_rederives_grounded() {
    let mut body = CharacterBody {
        force_slide: true,
        ..CharacterBody::default()
    };
    let mut position = vec3(0, 1_000_000, 0);
    let mut velocity = vec3(0, 0, 0);
    let out = character_body_movement(
        &mut body,
        false,
        &mut position,
        &mut velocity,
        16_667,
        &flat_ground(false),
    );
    assert!(out.hits.is_empty());
    assert!(!body.grounded);
    assert!(!body.force_slide);
    assert_eq!(position, vec3(0, 1_000_000, 0));
}

#[test]
fn movement_pass_with_snap_keeps_grounded() {
    let mut body = CharacterBody::default();
    let mut position = vec3(0, 1_000_000, 0);
    let mut velocity = vec3(3_000_000, 0, 0);
    character_body_movement(
        &mut body,
        true,
        &mut position,
        &mut velocity,
        16_667,
        &flat_ground(false),
    );
    assert!(body.grounded);
    assert_eq!(position, vec3(50_001, 1_000_000, 0));
}

#[test]
fn movement_pass_lands_on_slide_surface() {
    let mut body = CharacterBody {
        grounded: false,
        ..CharacterBody::default()
    };
    let mut position = vec3(0, 20_000, 0);
    let mut velocity = vec3(0, -3_000_000, 0);
    let out = character_body_movement(
        &mut body,
        false,
        &mut position,
        &mut velocity,
        16_667,
        &flat_ground(true),
    );
    assert_eq!(out.hits.len(), 1);
    assert!(body.grounded);
    assert!(body.force_slide);
    assert_eq!(body.last_normal, vec3(0, UNIT, 0));
    assert_eq!(velocity, vec3(0, 0, 0));
    assert_eq!(position, vec3(0, 10_000, 0));
}

#[test]
fn snap_pulls_a_grounded_body_onto_the_floor() {
    let mut body = CharacterBody::default();
    let mut position = vec3(5, 200_000, 7);
    let out = character_body_snap(
        &mut body,
        &CharacterGroundSnap { distance: 500_000 },
        &mut position,
        &flat_ground(false),
    );
    assert!(out.is_some());
    assert!(body.grounded);
    assert_eq!(position, vec3(5, 10_000, 7));
}

#[test]
fn snap_without_floor_in_reach_leaves_the_ground() {
    let mut body = CharacterBody::default();
    let mut position = vec3(0, 900_000, 0);
    let out = character_body_snap(
        &mut body,
        &CharacterGroundSnap { distance: 500_000 },
        &mut position,
        &flat_ground(false),
    );
    assert!(out.unwrap().hits.is_empty());
    assert!(!body.grounded);
    assert_eq!(position, vec3(0, 900_000, 0));
}

#[test]
fn snap_onto_a_steep_slope_leaves_the_ground() {
    let steep = |_: Vector3, _: Vector3| -> Option<Contact> {
        Some(Contact {
            distance: 100_000,
            normal: vec3(8_716, 4_899, 0),
            entity: 5,
            forces_slide: false,
        })
    };
    let mut body = CharacterBody::default();
    let mut position = vec3(0, 300_000, 0);
    character_body_snap(
        &mut body,
        &CharacterGroundSnap { distance: 500_000 },
        &mut position,
        &steep,
    );
    assert!(!body.grounded);
    assert_eq!(position, vec3(0, 300_000, 0));
    assert_eq!(body.last_normal, vec3(8_716, 4_899, 0));
}

#[test]
fn snap_skips_an_airborne_body() {
    let mut body = CharacterBody {
        grounded: false,
        ..CharacterBody::default()
    };
    let before = body;
    let mut position = vec3(0, 200_000, 0);
    let out = character_body_snap(
        &mut body,
        &CharacterGroundSnap { distance: 500_000 },
        &mut position,
        &flat_ground(false),
    );
    assert!(out.is_none());
    assert_eq!(body, before);
    assert_eq!(position, vec3(0, 200_000, 0));
}

#[test]
fn wall_contact_slides_without_grounding() {
    let wall = |from: Vector3, motion: Vector3| -> Option<Contact> {
        if motion.x > 0 && from.x + motion.x >= 50_000 {
            Some(Contact {
                distance: 50_000 - from.x,
                normal: vec3(-UNIT, 0, 0),
                entity: 4,
                forces_slide: false,
            })
        } else {
            None
        }
    };
    let mut body = CharacterBody::default();
    let mut position = vec3(0, 1_000_000, 0);
    let mut velocity = vec3(5_000_000, 0, 0);
    let out = character_body_movement(&mut body, false, &mut position, &mut velocity, 16_667, &wall);
    assert_eq!(out.hits.len(), 1);
    assert_eq!(velocity, vec3(0, 0, 0));
    assert!(!body.grounded);
    assert_eq!(body.last_normal, vec3(-UNIT, 0, 0));
    assert!(!body.force_slide);
    assert_eq!(position, vec3(40_000, 1_000_000, 0));
}
