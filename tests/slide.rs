use character_controller::fixed::{isqrt, Vector3, UNIT};
use character_controller::slide::{
    displacement, move_and_slide, project_on_plane, Contact, MoveAndSlideConfig,
};

fn v(x: i64, y: i64, z: i64) -> Vector3 {
    Vector3 { x, y, z }
}

fn dot(a: Vector3, b: Vector3) -> i128 {
    a.x as i128 * b.x as i128 + a.y as i128 * b.y as i128 + a.z as i128 * b.z as i128
}

fn solver_config(iterations: u8) -> MoveAndSlideConfig {
    MoveAndSlideConfig {
        move_and_slide_iterations: iterations,
        skin_width: 10_000,
    }
}

/// A wall at `x = wall_x` facing -X, met by any motion that reaches it.
fn wall_at(wall_x: i64) -> impl Fn(Vector3, Vector3) -> Option<Contact> {
    move |from: Vector3, motion: Vector3| {
        if motion.x <= 0 || from.x + motion.x < wall_x {
            return None;
        }
        let len = isqrt((dot(motion, motion)) as u64) as i128;
        let distance = ((wall_x - from.x) as i128 * len / motion.x as i128) as i64;
        Some(Contact {
            distance,
            normal: v(-UNIT, 0, 0),
            entity: 7,
            forces_slide: false,
        })
    }
}

#[test]
fn unobstructed_motion_covers_the_whole_step() {
    let out = move_and_slide(
        v(1_000, 2_000, 3_000),
        v(5_000_000, -2_000_000, 1_500_000),
        16_667,
        &solver_config(255),
        &|_: Vector3, _: Vector3| None,
    );
    assert_eq!(out.position, v(1_000 + 83_335, 2_000 - 33_334, 3_000 + 25_000));
    assert_eq!(out.projected_velocity, v(5_000_000, -2_000_000, 1_500_000));
    assert!(out.hits.is_empty());
    assert_eq!(out.time_left, 0);
}

#[test]
fn zero_motion_returns_at_once() {
    let out = move_and_slide(
        v(4, 5, 6),
        v(0, 0, 0),
        16_667,
        &solver_config(255),
        &|_: Vector3, _: Vector3| -> Option<Contact> { panic!("no sweep expected") },
    );
    assert_eq!(out.position, v(4, 5, 6));
    assert!(out.hits.is_empty());
}

#[test]
fn wall_slide_removes_the_normal_component() {
    let out = move_and_slide(
        v(0, 0, 0),
        v(5_000_000, 0, 0),
        100_000,
        &solver_config(255),
        &wall_at(300_000),
    );
    assert_eq!(out.projected_velocity.x, 0);
    assert_eq!(out.projected_velocity.y, 0);
    assert_eq!(out.projected_velocity.z, 0);
    assert_eq!(out.hits.len(), 1);
    assert_eq!(out.hits[0].contact.normal, v(-UNIT, 0, 0));
    // stops short of the wall by the skin width
    assert_eq!(out.position, v(290_000, 0, 0));
}

#[test]
fn wall_slide_keeps_the_tangential_velocity() {
    let out = move_and_slide(
        v(0, 0, 0),
        v(5_000_000, 1_000_000, 2_000_000),
        100_000,
        &solver_config(255),
        &wall_at(300_000),
    );
    assert_eq!(out.projected_velocity, v(0, 1_000_000, 2_000_000));
    assert_eq!(out.hits.len(), 1);
    // the rest of the step continues along the wall
    assert!(out.position.z > out.hits[0].to.z);
    assert!(out.position.x < 300_000);
}

#[test]
fn time_left_never_grows_across_hits() {
    // a corner: a wall ahead and a floor below, met in turn
    let corner = |from: Vector3, motion: Vector3| -> Option<Contact> {
        if let Some(c) = wall_at(200_000)(from, motion) {
            return Some(c);
        }
        if motion.y < 0 && from.y + motion.y < 0 {
            let len = isqrt(dot(motion, motion) as u64) as i128;
            let distance = (from.y as i128 * len / (-motion.y) as i128) as i64;
            return Some(Contact {
                distance,
                normal: v(0, UNIT, 0),
                entity: 3,
                forces_slide: false,
            });
        }
        None
    };
    let dt: u64 = 100_000;
    let out = move_and_slide(
        v(0, 300_000, 0),
        v(4_000_000, -4_000_000, 1_000_000),
        dt,
        &solver_config(255),
        &corner,
    );
    assert_eq!(out.hits.len(), 2);
    assert_eq!(out.hits[1].contact.normal, v(0, UNIT, 0));
    assert!(out.position.y > 0);
    let mut before = dt;
    for hit in &out.hits {
        assert!(hit.time_left <= before);
        before = hit.time_left;
    }
    assert!(out.time_left <= dt);
    assert_eq!(out.projected_velocity, v(0, 0, 1_000_000));
}

#[test]
fn iteration_cap_bounds_the_sweeps() {
    let sticky = |_: Vector3, _: Vector3| -> Option<Contact> {
        Some(Contact {
            distance: 0,
            normal: v(0, 0, UNIT),
            entity: 1,
            forces_slide: false,
        })
    };
    let out = move_and_slide(
        v(0, 0, 0),
        v(1_000_000, 0, -1_000_000),
        16_667,
        &solver_config(3),
        &sticky,
    );
    assert_eq!(out.hits.len(), 3);
    assert_eq!(out.position, v(0, 0, 0));
    assert_eq!(out.projected_velocity, v(1_000_000, 0, 0));
}

#[test]
fn projection_on_a_floor_drops_the_vertical_part() {
    let r = project_on_plane(v(1_000_000, -5_000_000, 2_000_000), v(0, UNIT, 0));
    assert_eq!(r, v(1_000_000, 0, 2_000_000));
}

#[test]
fn projection_on_a_slope_leaves_almost_nothing_along_it() {
    let n = v(6_000, 8_000, 0);
    let r = project_on_plane(v(3_000_000, -7_000_000, 1_000_000), n);
    let along = dot(r, n);
    assert!(along.abs() < 14_000);
    // the speed never grows
    let before = v(3_000_000, -7_000_000, 1_000_000);
    assert!(dot(r, r) <= dot(before, before));
    assert_ne!(r, v(3_000_000, -7_000_000, 1_000_000));
}

#[test]
fn displacement_rounds_toward_zero() {
    assert_eq!(displacement(v(5_000_000, -5_000_000, 3), 16_667), v(83_335, -83_335, 0));
}

#[test]
fn integer_square_root() {
    assert_eq!(isqrt(0), 0);
    assert_eq!(isqrt(15), 3);
    assert_eq!(isqrt(16), 4);
    assert_eq!(isqrt(u64::MAX), 4_294_967_295);
}
