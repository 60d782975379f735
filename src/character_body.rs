//! The character body: grounded detection and contact bookkeeping around
//! the move-and-slide solver, and the ground snap that keeps a walking
//! body on uneven ground.
use vstd::prelude::*;

use crate::fixed::{
    abs, dot, in_box, is_direction, lemma_mul_bound, lemma_tdiv_bounds, norm_sq, tdiv, trunc_div,
    vec_add, Vector3, within, MAX_COORD, MAX_SPEED, MAX_STEP_MICROS, UNIT,
};
use crate::slide::{
    is_slide_outcome, motion_of, move_and_slide, reports_directions, resolved_by, unobstructed,
    Contact, MoveAndSlideConfig, ResolvedHit, SlideOutcome,
};

verus! {

/// Sweeps made by the movement pass.
pub const MOVEMENT_ITERATIONS: u8 = 255;

/// Clearance kept from contacted surfaces, in micrometres.
pub const SKIN_WIDTH: i64 = 10_000;

/// Duration of the snap sweep, in microseconds: the snap moves by its full distance.
pub const SNAP_STEP_MICROS: u64 = 1_000_000;

/// Grounded state and contact bookkeeping of one controlled entity.
#[derive(Clone, Copy, Debug, PartialEq, Eq, Structural)]
pub struct CharacterBody {
    pub grounded: bool,
    /// World up, a direction.
    pub up: Vector3,
    /// Cosine threshold, scaled by `UNIT`, above which a contact counts as floor.
    pub max_dot_variance: i64,
    /// Normal of the most recent contact.
    pub last_normal: Vector3,
    /// The most recent tick touched a surface that forces sliding.
    pub force_slide: bool,
}

/// How far down a grounded body is pulled onto the ground, in micrometres.
#[derive(Clone, Copy, Debug, PartialEq, Eq, Structural)]
pub struct CharacterGroundSnap {
    pub distance: i64,
}

/// A contact with normal `n` is floor for a body with this up axis and
/// threshold: with both directions of length `UNIT`, the cosine of the angle
/// between them, scaled by `UNIT`, exceeds `max_dot_variance`.
pub open spec fn is_floor_normal(up: Vector3, max_dot_variance: i64, n: Vector3) -> bool {
    dot(n, up) > max_dot_variance * UNIT
}

/// The body after the movement pass has seen contact `c`.
pub open spec fn after_movement_hit(b: CharacterBody, c: Contact) -> CharacterBody {
    CharacterBody {
        grounded: b.grounded || is_floor_normal(b.up, b.max_dot_variance, c.normal),
        last_normal: c.normal,
        force_slide: b.force_slide || c.forces_slide,
        ..b
    }
}

/// The body after the snap pass has seen contact `c`, and whether `c` is floor.
pub open spec fn after_snap_hit(b: CharacterBody, c: Contact) -> (CharacterBody, bool) {
    (
        CharacterBody { last_normal: c.normal, force_slide: b.force_slide || c.forces_slide, ..b },
        is_floor_normal(b.up, b.max_dot_variance, c.normal),
    )
}

/// Some hit of `hits` is floor for `b`.
pub open spec fn touches_floor(b: CharacterBody, hits: Seq<ResolvedHit>) -> bool {
    exists|k: int|
        0 <= k < hits.len() && is_floor_normal(
            b.up,
            b.max_dot_variance,
            #[trigger] hits[k].contact.normal,
        )
}

/// Some hit of `hits` is on a surface that forces sliding.
pub open spec fn touches_slide_surface(hits: Seq<ResolvedHit>) -> bool {
    exists|k: int| 0 <= k < hits.len() && #[trigger] hits[k].contact.forces_slide
}

/// The normal of the last hit of `hits`, or `fallback` when there is none.
pub open spec fn last_normal_of(hits: Seq<ResolvedHit>, fallback: Vector3) -> Vector3 {
    if hits.len() == 0 {
        fallback
    } else {
        hits[hits.len() - 1].contact.normal
    }
}

/// The body after a movement pass that met `hits`: grounded when it keeps
/// its grounded state (a body with ground snap) or met floor, flagged for a
/// forced slide when it met a slide-inducing surface, with the last normal met.
pub open spec fn moved_body(b: CharacterBody, has_snap: bool, hits: Seq<ResolvedHit>) -> CharacterBody {
    CharacterBody {
        grounded: (has_snap && b.grounded) || touches_floor(b, hits),
        force_slide: touches_slide_surface(hits),
        last_normal: last_normal_of(hits, b.last_normal),
        ..b
    }
}

/// The body after a snap pass that met `hits`: grounded only when it met
/// floor.
pub open spec fn snapped_body(b: CharacterBody, hits: Seq<ResolvedHit>) -> CharacterBody {
    CharacterBody {
        grounded: touches_floor(b, hits),
        force_slide: b.force_slide || touches_slide_surface(hits),
        last_normal: last_normal_of(hits, b.last_normal),
        ..b
    }
}

/// The position after a snap pass from `p`: the swept one when the sweep met floor.
pub open spec fn snapped_position(b: CharacterBody, p: Vector3, out: SlideOutcome) -> Vector3 {
    if touches_floor(b, out.hits@) {
        out.position
    } else {
        p
    }
}

/// The velocity that sweeps `-up` by `distance` in one second.
pub open spec fn snap_velocity(up: Vector3, distance: i64) -> Vector3 {
    Vector3 {
        x: tdiv(-up.x * distance, UNIT as int) as i64,
        y: tdiv(-up.y * distance, UNIT as int) as i64,
        z: tdiv(-up.z * distance, UNIT as int) as i64,
    }
}

/// Floor classification is one rule, shared by the movement pass and the
/// snap pass: on the same body and contact, the movement pass grounds the
/// body exactly when the snap pass accepts the contact as floor, and both
/// do so exactly when the contact normal's dot product with `up` exceeds
/// `max_dot_variance`.
pub proof fn lemma_one_floor_rule(b: CharacterBody, c: Contact)
    ensures
        after_movement_hit(CharacterBody { grounded: false, ..b }, c).grounded == after_snap_hit(
            b,
            c,
        ).1,
        after_snap_hit(b, c).1 == (dot(c.normal, b.up) > b.max_dot_variance * UNIT),
{
}

/// Over any sequence of contacts, the movement pass of a body without
/// ground snap ends grounded exactly when the snap pass over the same
/// contacts finds floor, and both do so exactly when some contact normal's
/// dot product with `up` exceeds `max_dot_variance`: one floor rule.
pub proof fn lemma_passes_share_the_floor_rule(b: CharacterBody, hits: Seq<ResolvedHit>)
    ensures
        moved_body(CharacterBody { grounded: false, ..b }, false, hits).grounded == snapped_body(
            b,
            hits,
        ).grounded,
        snapped_body(b, hits).grounded == exists|k: int|
            0 <= k < hits.len() && dot(#[trigger] hits[k].contact.normal, b.up) > b.max_dot_variance
                * UNIT,
{
}

impl CharacterBody {
    /// Bodies this library works with: a direction as up axis and a
    /// cosine threshold within `[-UNIT, UNIT]`.
    pub open spec fn wf(&self) -> bool {
        &&& is_direction(self.up)
        &&& -UNIT <= self.max_dot_variance <= UNIT
    }

    /// Whether a contact with normal `n` counts as floor.
    pub fn is_floor(&self, n: Vector3) -> (r: bool)
        requires
            self.wf(),
            in_box(n, UNIT as int),
        ensures
            r == is_floor_normal(self.up, self.max_dot_variance, n),
    {
        proof {
            lemma_mul_bound(n.x as int, self.up.x as int, UNIT as int, UNIT as int);
            lemma_mul_bound(n.y as int, self.up.y as int, UNIT as int, UNIT as int);
            lemma_mul_bound(n.z as int, self.up.z as int, UNIT as int, UNIT as int);
        }
        let d = n.x * self.up.x + n.y * self.up.y + n.z * self.up.z;
        d > self.max_dot_variance * UNIT
    }

    /// Records a contact of the movement pass: floor grounds the body,
    /// the normal is kept, and a slide-inducing surface flags a forced slide.
    pub fn record_movement_hit(&mut self, c: &Contact)
        requires
            old(self).wf(),
            is_direction(c.normal),
        ensures
            *final(self) == after_movement_hit(*old(self), *c),
    {
        if self.is_floor(c.normal) {
            self.grounded = true;
        }
        self.last_normal = c.normal;
        if c.forces_slide {
            self.force_slide = true;
        }
    }

    /// Records a contact of the snap pass and says whether it is floor.
    pub fn record_snap_hit(&mut self, c: &Contact) -> (floor: bool)
        requires
            old(self).wf(),
            is_direction(c.normal),
        ensures
            (*final(self), floor) == after_snap_hit(*old(self), *c),
    {
        let floor = self.is_floor(c.normal);
        if c.forces_slide {
            self.force_slide = true;
        }
        self.last_normal = c.normal;
        floor
    }
}

impl Default for CharacterBody {
    /// A grounded body with +Y up and a floor threshold of 0.49.
    fn default() -> (r: Self)
        ensures
            r.wf(),
            r.grounded,
            r.up == (Vector3 { x: 0, y: UNIT, z: 0 }),
            r.max_dot_variance == 4_900,
            r.last_normal == r.up,
            !r.force_slide,
    {
        let up = Vector3 { x: 0, y: UNIT, z: 0 };
        let r = CharacterBody {
            grounded: true,
            up,
            max_dot_variance: 4_900,
            last_normal: up,
            force_slide: false,
        };
        proof {
            assert(norm_sq(up) == 100_000_000) by (nonlinear_arith)
                requires
                    up.x == 0 && up.y == 10_000 && up.z == 0,
            ;
        }
        r
    }
}

impl Default for CharacterGroundSnap {
    /// A snap distance of half a metre.
    fn default() -> (r: Self)
        ensures
            r.distance == 500_000,
    {
        CharacterGroundSnap { distance: 500_000 }
    }
}

pub open spec fn movement_config() -> MoveAndSlideConfig {
    MoveAndSlideConfig { move_and_slide_iterations: MOVEMENT_ITERATIONS, skin_width: SKIN_WIDTH }
}

pub open spec fn snap_config() -> MoveAndSlideConfig {
    MoveAndSlideConfig { move_and_slide_iterations: 1, skin_width: SKIN_WIDTH }
}

/// Records the contacts of `hits` in order, as the snap pass does when
/// `snap` holds and as the movement pass does otherwise; says whether any
/// of them is floor.
fn record_hits(body: &mut CharacterBody, hits: &Vec<ResolvedHit>, snap: bool) -> (floor: bool)
    requires
        old(body).wf(),
        forall|k: int| 0 <= k < hits.len() ==> is_direction(#[trigger] hits[k].contact.normal),
    ensures
        final(body).up == old(body).up,
        final(body).max_dot_variance == old(body).max_dot_variance,
        final(body).grounded == (if snap {
            old(body).grounded
        } else {
            old(body).grounded || touches_floor(*old(body), hits@)
        }),
        floor == touches_floor(*old(body), hits@),
        final(body).force_slide == (old(body).force_slide || touches_slide_surface(hits@)),
        final(body).last_normal == last_normal_of(hits@, old(body).last_normal),
{
    let ghost start = *body;
    let mut floor = false;
    let mut i: usize = 0;
    while i < hits.len()
        invariant
            i <= hits.len(),
            forall|k: int| 0 <= k < hits.len() ==> is_direction(#[trigger] hits[k].contact.normal),
            body.up == start.up,
            body.max_dot_variance == start.max_dot_variance,
            start.wf(),
            floor == touches_floor(start, hits@.take(i as int)),
            body.grounded == (if snap {
                start.grounded
            } else {
                start.grounded || floor
            }),
            body.force_slide == (start.force_slide || touches_slide_surface(hits@.take(i as int))),
            body.last_normal == last_normal_of(hits@.take(i as int), start.last_normal),
        decreases hits.len() - i,
    {
        let c = hits[i].contact;
        let hit_floor = if snap {
            body.record_snap_hit(&c)
        } else {
            let f = body.is_floor(c.normal);
            body.record_movement_hit(&c);
            f
        };
        if hit_floor {
            floor = true;
        }
        proof {
            let next = hits@.take(i + 1);
            assert(next[i as int] == hits@[i as int]);
            assert forall|k: int| 0 <= k < i implies next[k] == hits@.take(i as int)[k] by {}
            if touches_floor(start, next) {
                if !hit_floor {
                    let k = choose|k: int|
                        0 <= k < next.len() && is_floor_normal(
                            start.up,
                            start.max_dot_variance,
                            #[trigger] next[k].contact.normal,
                        );
                    assert(k < i);
                    assert(hits@.take(i as int)[k] == next[k]);
                }
            }
            if touches_slide_surface(next) && !c.forces_slide {
                let k = choose|k: int| 0 <= k < next.len() && #[trigger] next[k].contact.forces_slide;
                assert(hits@.take(i as int)[k] == next[k]);
            }
            if touches_slide_surface(hits@.take(i as int)) {
                let k = choose|k: int|
                    0 <= k < i && #[trigger] hits@.take(i as int)[k].contact.forces_slide;
                assert(next[k] == hits@.take(i as int)[k]);
            }
            if floor && !hit_floor {
                let k = choose|k: int|
                    0 <= k < i && is_floor_normal(
                        start.up,
                        start.max_dot_variance,
                        #[trigger] hits@.take(i as int)[k].contact.normal,
                    );
                assert(next[k] == hits@.take(i as int)[k]);
            }
        }
        i = i + 1;
    }
    proof {
        assert(hits@.take(hits.len() as int) =~= hits@);
    }
    floor
}

/// The movement pass of one tick. It clears the forced-slide flag and,
/// for a body without ground snap, the grounded flag; then moves the body
/// with `move_and_slide` (255 sweeps, skin width 0.01), grounding it on
/// any floor contact, keeping the last contact normal and flagging a
/// forced slide on any slide-inducing surface. Position and velocity take
/// the solver's result.
pub fn character_body_movement<F: Fn(Vector3, Vector3) -> Option<Contact>>(
    body: &mut CharacterBody,
    has_snap: bool,
    position: &mut Vector3,
    velocity: &mut Vector3,
    dt: u64,
    sweep: &F,
) -> (out: SlideOutcome)
    requires
        old(body).wf(),
        in_box(*old(position), MAX_COORD as int),
        in_box(*old(velocity), MAX_SPEED as int),
        dt <= MAX_STEP_MICROS,
        forall|p: Vector3, m: Vector3| sweep.requires((p, m)),
        reports_directions(*sweep),
    ensures
        is_slide_outcome(*sweep, *old(position), *old(velocity), dt, movement_config(), out),
        within(*final(position), *old(position), 512 * MAX_SPEED),
        *final(position) == out.position,
        *final(velocity) == out.projected_velocity,
        *final(body) == moved_body(*old(body), has_snap, out.hits@),
        unobstructed(*sweep) ==> {
            &&& out.hits.len() == 0
            &&& *final(position) == vec_add(*old(position), motion_of(*old(velocity), dt as int))
            &&& *final(velocity) == *old(velocity)
            &&& !final(body).force_slide
            &&& final(body).last_normal == old(body).last_normal
            &&& final(body).grounded == (has_snap && old(body).grounded)
        },
{
    body.force_slide = false;
    if !has_snap {
        body.grounded = false;
    }
    let config = MoveAndSlideConfig {
        move_and_slide_iterations: MOVEMENT_ITERATIONS,
        skin_width: SKIN_WIDTH,
    };
    let out = move_and_slide(*position, *velocity, dt, &config, sweep);
    proof {
        assert forall|k: int| 0 <= k < out.hits.len() implies is_direction(
            #[trigger] out.hits[k].contact.normal,
        ) by {
            assert(resolved_by(*sweep, *old(position), *old(velocity), dt, SKIN_WIDTH, out.hits@, k));
        }
    }
    record_hits(body, &out.hits, false);
    *position = out.position;
    *velocity = out.projected_velocity;
    out
}

/// The velocity that sweeps `-up` by `distance` over the one-second snap step.
fn snap_motion(up: Vector3, distance: i64) -> (v: Vector3)
    requires
        is_direction(up),
        0 <= distance <= MAX_SPEED,
    ensures
        v == snap_velocity(up, distance),
        in_box(v, MAX_SPEED as int),
{
    proof {
        lemma_snap_component(up.x as int, distance as int);
        lemma_snap_component(up.y as int, distance as int);
        lemma_snap_component(up.z as int, distance as int);
    }
    let x = trunc_div(-(up.x as i128) * (distance as i128), UNIT as i128);
    let y = trunc_div(-(up.y as i128) * (distance as i128), UNIT as i128);
    let z = trunc_div(-(up.z as i128) * (distance as i128), UNIT as i128);
    Vector3 { x: x as i64, y: y as i64, z: z as i64 }
}

proof fn lemma_snap_component(u: int, distance: int)
    requires
        abs(u) <= UNIT,
        0 <= distance <= MAX_SPEED,
    ensures
        abs(-u * distance) <= UNIT * MAX_SPEED,
        abs(tdiv(-u * distance, UNIT as int)) <= MAX_SPEED,
{
    lemma_mul_bound(-u, distance, UNIT as int, MAX_SPEED as int);
    lemma_tdiv_bounds(-u * distance, UNIT as int);
    assert(abs(tdiv(-u * distance, UNIT as int)) <= MAX_SPEED) by (nonlinear_arith)
        requires
            abs(tdiv(-u * distance, UNIT as int)) * UNIT <= abs(-u * distance),
            abs(-u * distance) <= UNIT * MAX_SPEED,
    ;
}

/// The snap pass of one tick, for a grounded body: sweeps it down along
/// `-up` by the snap distance, once. When a contact of the sweep is floor
/// the body takes the swept position; otherwise it is no longer grounded.
/// Contacts are recorded as in the movement pass, but do not ground the
/// body. A body that is not grounded is left alone (`None`).
pub fn character_body_snap<F: Fn(Vector3, Vector3) -> Option<Contact>>(
    body: &mut CharacterBody,
    snap: &CharacterGroundSnap,
    position: &mut Vector3,
    sweep: &F,
) -> (out: Option<SlideOutcome>)
    requires
        old(body).wf(),
        0 <= snap.distance <= MAX_SPEED,
        in_box(*old(position), 2 * MAX_COORD),
        forall|p: Vector3, m: Vector3| sweep.requires((p, m)),
        reports_directions(*sweep),
    ensures
        !old(body).grounded ==> out is None && *final(body) == *old(body) && *final(position)
            == *old(position),
        old(body).grounded ==> out is Some && {
            let o = out->Some_0;
            &&& is_slide_outcome(
                *sweep,
                *old(position),
                snap_velocity(old(body).up, snap.distance),
                SNAP_STEP_MICROS,
                snap_config(),
                o,
            )
            &&& within(o.position, *old(position), 512 * MAX_SPEED)
            &&& *final(position) == snapped_position(*old(body), *old(position), o)
            &&& *final(body) == snapped_body(*old(body), o.hits@)
        },
{
    if !body.grounded {
        return None;
    }
    let v = snap_motion(body.up, snap.distance);
    let config = MoveAndSlideConfig { move_and_slide_iterations: 1, skin_width: SKIN_WIDTH };
    let out = move_and_slide(*position, v, SNAP_STEP_MICROS, &config, sweep);
    proof {
        assert forall|k: int| 0 <= k < out.hits.len() implies is_direction(
            #[trigger] out.hits[k].contact.normal,
        ) by {
            assert(resolved_by(*sweep, *old(position), v, SNAP_STEP_MICROS, SKIN_WIDTH, out.hits@, k));
        }
    }
    let floor = record_hits(body, &out.hits, true);
    if floor {
        *position = out.position;
    } else {
        body.grounded = false;
    }
    Some(out)
}

} // verus!
