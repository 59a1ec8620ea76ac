//! Axis-aligned boxes and the direction in which one blocks another.

use vstd::prelude::*;
use crate::fixed::{in_range, lemma_mul_bounds, magnitude, sign, LIMIT, SCALE};
use crate::vec3::Vec3;

verus! {

/// A body bounded by an axis-aligned box, given by its two extreme corners.
pub trait AABB {
    /// The body lies within the bounds of the world.
    spec fn in_world(&self) -> bool;

    /// The corner with the least coordinates.
    spec fn lower(&self) -> Vec3;

    /// The corner with the greatest coordinates.
    spec fn upper(&self) -> Vec3;

    fn min(&self) -> (r: Vec3)
        requires
            self.in_world(),
        ensures
            r == self.lower(),
            r.wf(),
    ;

    fn max(&self) -> (r: Vec3)
        requires
            self.in_world(),
        ensures
            r == self.upper(),
            r.wf(),
    ;
}

/// Whether the closed intervals `[a_lo, a_hi]` and `[b_lo, b_hi]` meet.
pub open spec fn spans_overlap(a_lo: int, a_hi: int, b_lo: int, b_hi: int) -> bool {
    a_lo <= b_hi && a_hi >= b_lo
}

/// Whether two boxes meet on all three axes; touching counts.
pub open spec fn boxes_overlap(a_min: Vec3, a_max: Vec3, b_min: Vec3, b_max: Vec3) -> bool {
    &&& spans_overlap(a_min.x as int, a_max.x as int, b_min.x as int, b_max.x as int)
    &&& spans_overlap(a_min.y as int, a_max.y as int, b_min.y as int, b_max.y as int)
    &&& spans_overlap(a_min.z as int, a_max.z as int, b_min.z as int, b_max.z as int)
}

/// The distance on one axis between the nearer pair of opposite faces.
pub open spec fn face_gap(a_lo: int, a_hi: int, b_lo: int, b_hi: int) -> int {
    if magnitude(a_lo - b_hi) <= magnitude(a_hi - b_lo) {
        magnitude(a_lo - b_hi)
    } else {
        magnitude(a_hi - b_lo)
    }
}

/// Whether the time to contact `gap_a / vel_a` is at most `gap_b / vel_b`,
/// for non-zero velocities. The times are compared as exact fractions, and
/// one with a negative velocity is negative.
pub open spec fn contact_not_later(gap_a: int, vel_a: int, gap_b: int, vel_b: int) -> bool {
    toward(gap_a, vel_a) * magnitude(vel_b) <= toward(gap_b, vel_b) * magnitude(vel_a)
}

/// The gap with the sign of the velocity.
pub open spec fn toward(gap: int, vel: int) -> int {
    if vel < 0 {
        -gap
    } else {
        gap
    }
}

/// Whether an axis with gap `gap` and velocity `vel` comes into contact no
/// later than the two other axes. An axis with zero velocity never comes
/// into contact: it is not among the candidates and holds no other axis up.
pub open spec fn contact_first(
    gap: int,
    vel: int,
    gap_1: int,
    vel_1: int,
    gap_2: int,
    vel_2: int,
) -> bool {
    &&& vel != 0
    &&& vel_1 == 0 || contact_not_later(gap, vel, gap_1, vel_1)
    &&& vel_2 == 0 || contact_not_later(gap, vel, gap_2, vel_2)
}

/// The response on one axis: against the velocity where the axis is blocked,
/// zero where it is free.
pub open spec fn response(blocked: bool, vel: int) -> i64 {
    if blocked {
        (-sign(vel)) as i64
    } else {
        0
    }
}

/// The direction in which box `b` blocks box `a` when `a` is about to move by
/// `vel`.
///
/// Where `a`, moved by `vel`, does not meet `b`, nothing is blocked. Where it
/// does and the boxes are now apart on exactly one axis, that axis is
/// blocked. Otherwise every axis is blocked that comes into contact first.
pub open spec fn collision_direction(
    a_min: Vec3,
    a_max: Vec3,
    b_min: Vec3,
    b_max: Vec3,
    vel: Vec3,
) -> Vec3 {
    let over_x = spans_overlap(a_min.x as int, a_max.x as int, b_min.x as int, b_max.x as int);
    let over_y = spans_overlap(a_min.y as int, a_max.y as int, b_min.y as int, b_max.y as int);
    let over_z = spans_overlap(a_min.z as int, a_max.z as int, b_min.z as int, b_max.z as int);
    let gap_x = face_gap(a_min.x as int, a_max.x as int, b_min.x as int, b_max.x as int);
    let gap_y = face_gap(a_min.y as int, a_max.y as int, b_min.y as int, b_max.y as int);
    let gap_z = face_gap(a_min.z as int, a_max.z as int, b_min.z as int, b_max.z as int);
    let vx = vel.x as int;
    let vy = vel.y as int;
    let vz = vel.z as int;
    if !boxes_overlap(a_min.plus(vel), a_max.plus(vel), b_min, b_max) {
        Vec3::origin()
    } else if !over_x && over_y && over_z {
        Vec3 { x: response(true, vx), y: 0, z: 0 }
    } else if over_x && !over_y && over_z {
        Vec3 { x: 0, y: response(true, vy), z: 0 }
    } else if over_x && over_y && !over_z {
        Vec3 { x: 0, y: 0, z: response(true, vz) }
    } else {
        Vec3 {
            x: response(contact_first(gap_x, vx, gap_y, vy, gap_z, vz), vx),
            y: response(contact_first(gap_y, vy, gap_x, vx, gap_z, vz), vy),
            z: response(contact_first(gap_z, vz, gap_x, vx, gap_y, vy), vz),
        }
    }
}

/// The direction in which `other` blocks `body` when `body` is about to move
/// by `vel`: on each blocked axis one unit against the velocity, zero on the
/// others.
pub fn collision<A: AABB, B: AABB>(body: &A, other: &B, vel: &Vec3) -> (r: Vec3)
    requires
        body.in_world(),
        other.in_world(),
    ensures
        r == collision_direction(body.lower(), body.upper(), other.lower(), other.upper(), *vel),
{
    let a_min: Vec3 = body.min();
    let a_max: Vec3 = body.max();
    let b_min: Vec3 = other.min();
    let b_max: Vec3 = other.max();
    let next_min: Vec3 = a_min + *vel;
    let next_max: Vec3 = a_max + *vel;
    if !corners_overlap(&next_min, &next_max, &b_min, &b_max) {
        return Vec3::zero();
    }
    let over_x: bool = a_min.x <= b_max.x && a_max.x >= b_min.x;
    let over_y: bool = a_min.y <= b_max.y && a_max.y >= b_min.y;
    let over_z: bool = a_min.z <= b_max.z && a_max.z >= b_min.z;
    if !over_x && over_y && over_z {
        Vec3::new(against(vel.x), 0, 0)
    } else if over_x && !over_y && over_z {
        Vec3::new(0, against(vel.y), 0)
    } else if over_x && over_y && !over_z {
        Vec3::new(0, 0, against(vel.z))
    } else {
        let gap_x: i128 = gap_between(a_min.x, a_max.x, b_min.x, b_max.x);
        let gap_y: i128 = gap_between(a_min.y, a_max.y, b_min.y, b_max.y);
        let gap_z: i128 = gap_between(a_min.z, a_max.z, b_min.z, b_max.z);
        let first_x: bool = is_first(gap_x, vel.x, gap_y, vel.y, gap_z, vel.z);
        let first_y: bool = is_first(gap_y, vel.y, gap_x, vel.x, gap_z, vel.z);
        let first_z: bool = is_first(gap_z, vel.z, gap_x, vel.x, gap_y, vel.y);
        Vec3::new(
            if first_x { against(vel.x) } else { 0 },
            if first_y { against(vel.y) } else { 0 },
            if first_z { against(vel.z) } else { 0 },
        )
    }
}

/// Whether the boxes with the given corners meet on all three axes.
fn corners_overlap(a_min: &Vec3, a_max: &Vec3, b_min: &Vec3, b_max: &Vec3) -> (r: bool)
    ensures
        r == boxes_overlap(*a_min, *a_max, *b_min, *b_max),
{
    a_min.x <= b_max.x && a_max.x >= b_min.x && a_min.y <= b_max.y && a_max.y >= b_min.y
        && a_min.z <= b_max.z && a_max.z >= b_min.z
}

/// One unit against the velocity, or zero for a zero velocity.
fn against(vel: i64) -> (r: i64)
    ensures
        r == response(true, vel as int),
{
    if vel < 0 {
        SCALE
    } else if vel > 0 {
        -SCALE
    } else {
        0
    }
}

/// The distance on one axis between the nearer pair of opposite faces.
fn gap_between(a_lo: i64, a_hi: i64, b_lo: i64, b_hi: i64) -> (r: i128)
    requires
        in_range(a_lo as int),
        in_range(a_hi as int),
        in_range(b_lo as int),
        in_range(b_hi as int),
    ensures
        r == face_gap(a_lo as int, a_hi as int, b_lo as int, b_hi as int),
        0 <= r <= 2 * LIMIT,
{
    let low: i128 = a_lo as i128 - b_hi as i128;
    let high: i128 = a_hi as i128 - b_lo as i128;
    let low_gap: i128 = if low < 0 { -low } else { low };
    let high_gap: i128 = if high < 0 { -high } else { high };
    if low_gap <= high_gap {
        low_gap
    } else {
        high_gap
    }
}

/// Whether contact on the first axis comes no later than on the second.
fn not_later(gap_a: i128, vel_a: i64, gap_b: i128, vel_b: i64) -> (r: bool)
    requires
        0 <= gap_a <= 2 * LIMIT,
        0 <= gap_b <= 2 * LIMIT,
    ensures
        r == contact_not_later(gap_a as int, vel_a as int, gap_b as int, vel_b as int),
{
    let toward_a: i128 = if vel_a < 0 { -gap_a } else { gap_a };
    let toward_b: i128 = if vel_b < 0 { -gap_b } else { gap_b };
    let speed_a: i128 = if vel_a < 0 { -(vel_a as i128) } else { vel_a as i128 };
    let speed_b: i128 = if vel_b < 0 { -(vel_b as i128) } else { vel_b as i128 };
    proof {
        lemma_mul_bounds(
            toward_a as int,
            speed_b as int,
            2_000_000_000_000,
            0x8000_0000_0000_0000,
        );
        lemma_mul_bounds(
            toward_b as int,
            speed_a as int,
            2_000_000_000_000,
            0x8000_0000_0000_0000,
        );
    }
    toward_a * speed_b <= toward_b * speed_a
}

/// Whether an axis comes into contact no later than the two others.
fn is_first(gap: i128, vel: i64, gap_1: i128, vel_1: i64, gap_2: i128, vel_2: i64) -> (r: bool)
    requires
        0 <= gap <= 2 * LIMIT,
        0 <= gap_1 <= 2 * LIMIT,
        0 <= gap_2 <= 2 * LIMIT,
    ensures
        r == contact_first(
            gap as int,
            vel as int,
            gap_1 as int,
            vel_1 as int,
            gap_2 as int,
            vel_2 as int,
        ),
{
    vel != 0 && (vel_1 == 0 || not_later(gap, vel, gap_1, vel_1)) && (vel_2 == 0 || not_later(
        gap,
        vel,
        gap_2,
        vel_2,
    ))
}

/// Whether a corner and an extent describe a box within the bounds of the
/// world: no extent is negative, and both corners are within range.
pub open spec fn box_in_world(origin: Vec3, dims: Vec3) -> bool {
    &&& origin.wf()
    &&& dims.x >= 0 && dims.y >= 0 && dims.z >= 0
    &&& origin.x + dims.x <= LIMIT
    &&& origin.y + dims.y <= LIMIT
    &&& origin.z + dims.z <= LIMIT
}

/// Whether a corner and an extent describe a box within the bounds of the
/// world.
pub fn check_box(origin: &Vec3, dims: &Vec3) -> (r: bool)
    ensures
        r == box_in_world(*origin, *dims),
{
    origin.in_bounds() && dims.x >= 0 && dims.y >= 0 && dims.z >= 0 && dims.x <= LIMIT - origin.x
        && dims.y <= LIMIT - origin.y && dims.z <= LIMIT - origin.z
}

/// A box given by its least corner and its extent along each axis.
#[derive(Clone, Copy, Debug, PartialEq, Eq, Structural)]
pub struct BoundingBox {
    pub origin: Vec3,
    pub dims: Vec3,
}

impl BoundingBox {
    pub fn new(origin: Vec3, dims: Vec3) -> (r: Self)
        ensures
            r == (BoundingBox { origin, dims }),
    {
        Self { origin, dims }
    }

    /// Whether the two boxes meet on all three axes; touching counts.
    pub fn intersects(&self, other: &BoundingBox) -> (r: bool)
        requires
            self.in_world(),
            other.in_world(),
        ensures
            r == boxes_overlap(self.lower(), self.upper(), other.lower(), other.upper()),
    {
        let a_min: Vec3 = self.min();
        let a_max: Vec3 = self.max();
        let b_min: Vec3 = other.min();
        let b_max: Vec3 = other.max();
        corners_overlap(&a_min, &a_max, &b_min, &b_max)
    }
}

impl AABB for BoundingBox {
    open spec fn in_world(&self) -> bool {
        box_in_world(self.origin, self.dims)
    }

    open spec fn lower(&self) -> Vec3 {
        self.origin
    }

    open spec fn upper(&self) -> Vec3 {
        Vec3 {
            x: (self.origin.x + self.dims.x) as i64,
            y: (self.origin.y + self.dims.y) as i64,
            z: (self.origin.z + self.dims.z) as i64,
        }
    }

    fn min(&self) -> (r: Vec3) {
        self.origin
    }

    fn max(&self) -> (r: Vec3) {
        Vec3::new(
            self.origin.x + self.dims.x,
            self.origin.y + self.dims.y,
            self.origin.z + self.dims.z,
        )
    }
}

/// Whether box `a`, moved by `vel`, meets box `b`.
pub open spec fn swept_overlap(a_min: Vec3, a_max: Vec3, b_min: Vec3, b_max: Vec3, vel: Vec3) -> bool {
    boxes_overlap(a_min.plus(vel), a_max.plus(vel), b_min, b_max)
}

/// Whether the boxes are apart on exactly one axis.
pub open spec fn apart_on_one_axis(a_min: Vec3, a_max: Vec3, b_min: Vec3, b_max: Vec3) -> bool {
    let over_x = spans_overlap(a_min.x as int, a_max.x as int, b_min.x as int, b_max.x as int);
    let over_y = spans_overlap(a_min.y as int, a_max.y as int, b_min.y as int, b_max.y as int);
    let over_z = spans_overlap(a_min.z as int, a_max.z as int, b_min.z as int, b_max.z as int);
    ||| !over_x && over_y && over_z
    ||| over_x && !over_y && over_z
    ||| over_x && over_y && !over_z
}

/// Of two contacts with non-zero velocities, one comes no later than the
/// other.
pub proof fn lemma_contact_total(gap_a: int, vel_a: int, gap_b: int, vel_b: int)
    ensures
        contact_not_later(gap_a, vel_a, gap_b, vel_b) || contact_not_later(
            gap_b,
            vel_b,
            gap_a,
            vel_a,
        ),
{
}

/// Coming no later is transitive among contacts with non-zero velocities.
pub proof fn lemma_contact_transitive(
    gap_a: int,
    vel_a: int,
    gap_b: int,
    vel_b: int,
    gap_c: int,
    vel_c: int,
)
    requires
        vel_a != 0,
        vel_b != 0,
        vel_c != 0,
        contact_not_later(gap_a, vel_a, gap_b, vel_b),
        contact_not_later(gap_b, vel_b, gap_c, vel_c),
    ensures
        contact_not_later(gap_a, vel_a, gap_c, vel_c),
{
    let ta = toward(gap_a, vel_a);
    let tb = toward(gap_b, vel_b);
    let tc = toward(gap_c, vel_c);
    let ma = magnitude(vel_a);
    let mb = magnitude(vel_b);
    let mc = magnitude(vel_c);
    assert(ta * mc <= tc * ma) by (nonlinear_arith)
        requires
            ma > 0,
            mb > 0,
            mc > 0,
            ta * mb <= tb * ma,
            tb * mc <= tc * mb,
    {
        assert((ta * mb) * mc <= (tb * ma) * mc);
        assert((tb * mc) * ma <= (tc * mb) * ma);
        assert((ta * mc) * mb <= (tc * ma) * mb);
    }
}

/// Where some axis has a non-zero velocity, some axis comes into contact
/// first.
pub proof fn lemma_some_axis_first(
    gap_x: int,
    vel_x: int,
    gap_y: int,
    vel_y: int,
    gap_z: int,
    vel_z: int,
)
    requires
        vel_x != 0 || vel_y != 0 || vel_z != 0,
    ensures
        contact_first(gap_x, vel_x, gap_y, vel_y, gap_z, vel_z) || contact_first(
            gap_y,
            vel_y,
            gap_x,
            vel_x,
            gap_z,
            vel_z,
        ) || contact_first(gap_z, vel_z, gap_x, vel_x, gap_y, vel_y),
{
    lemma_contact_total(gap_x, vel_x, gap_y, vel_y);
    lemma_contact_total(gap_x, vel_x, gap_z, vel_z);
    lemma_contact_total(gap_y, vel_y, gap_z, vel_z);
    if vel_x != 0 && vel_y != 0 && vel_z != 0 {
        if contact_not_later(gap_x, vel_x, gap_y, vel_y) {
            if !contact_not_later(gap_x, vel_x, gap_z, vel_z) {
                lemma_contact_transitive(gap_z, vel_z, gap_x, vel_x, gap_y, vel_y);
            }
        } else {
            if !contact_not_later(gap_y, vel_y, gap_z, vel_z) {
                lemma_contact_transitive(gap_z, vel_z, gap_y, vel_y, gap_x, vel_x);
            }
        }
    }
}

/// Each component of the direction is zero or one unit against the velocity
/// on that axis.
pub proof fn lemma_direction_components(
    a_min: Vec3,
    a_max: Vec3,
    b_min: Vec3,
    b_max: Vec3,
    vel: Vec3,
)
    ensures
        ({
            let d = collision_direction(a_min, a_max, b_min, b_max, vel);
            &&& d.x == 0 || d.x == -sign(vel.x as int)
            &&& d.y == 0 || d.y == -sign(vel.y as int)
            &&& d.z == 0 || d.z == -sign(vel.z as int)
        }),
{
}

/// A box collides with another exactly when it moves and, once moved, meets
/// the other.
pub proof fn lemma_collides_iff_moving_into(
    a_min: Vec3,
    a_max: Vec3,
    b_min: Vec3,
    b_max: Vec3,
    vel: Vec3,
)
    requires
        a_min.wf(),
        a_max.wf(),
    ensures
        collision_direction(a_min, a_max, b_min, b_max, vel) != Vec3::origin() <==> (swept_overlap(
            a_min,
            a_max,
            b_min,
            b_max,
            vel,
        ) && vel != Vec3::origin()),
{
    let gap_x = face_gap(a_min.x as int, a_max.x as int, b_min.x as int, b_max.x as int);
    let gap_y = face_gap(a_min.y as int, a_max.y as int, b_min.y as int, b_max.y as int);
    let gap_z = face_gap(a_min.z as int, a_max.z as int, b_min.z as int, b_max.z as int);
    if vel != Vec3::origin() {
        lemma_some_axis_first(
            gap_x,
            vel.x as int,
            gap_y,
            vel.y as int,
            gap_z,
            vel.z as int,
        );
    }
}

/// Boxes that are apart and do not move do not collide.
pub proof fn lemma_apart_and_still(a_min: Vec3, a_max: Vec3, b_min: Vec3, b_max: Vec3)
    requires
        a_min.wf(),
        a_max.wf(),
        !boxes_overlap(a_min, a_max, b_min, b_max),
    ensures
        collision_direction(a_min, a_max, b_min, b_max, Vec3::origin()) == Vec3::origin(),
{
}

/// A box that moves along one axis into a box that it faces on that axis
/// alone is blocked on that axis, against its velocity. Stated for the `x`
/// axis.
pub proof fn lemma_head_on(a_min: Vec3, a_max: Vec3, b_min: Vec3, b_max: Vec3, speed: i64)
    requires
        speed != 0,
        !spans_overlap(a_min.x as int, a_max.x as int, b_min.x as int, b_max.x as int),
        spans_overlap(a_min.y as int, a_max.y as int, b_min.y as int, b_max.y as int),
        spans_overlap(a_min.z as int, a_max.z as int, b_min.z as int, b_max.z as int),
        swept_overlap(a_min, a_max, b_min, b_max, Vec3 { x: speed, y: 0, z: 0 }),
    ensures
        collision_direction(a_min, a_max, b_min, b_max, Vec3 { x: speed, y: 0, z: 0 }) == (Vec3 {
            x: (-sign(speed as int)) as i64,
            y: 0,
            z: 0,
        }),
{
}

/// Two axes that come into contact at the same time, and no later than the
/// third, are both blocked.
pub proof fn lemma_tie_blocks_both(a_min: Vec3, a_max: Vec3, b_min: Vec3, b_max: Vec3, vel: Vec3)
    requires
        swept_overlap(a_min, a_max, b_min, b_max, vel),
        !apart_on_one_axis(a_min, a_max, b_min, b_max),
        vel.x != 0,
        vel.y != 0,
        ({
            let gap_x = face_gap(a_min.x as int, a_max.x as int, b_min.x as int, b_max.x as int);
            let gap_y = face_gap(a_min.y as int, a_max.y as int, b_min.y as int, b_max.y as int);
            let gap_z = face_gap(a_min.z as int, a_max.z as int, b_min.z as int, b_max.z as int);
            &&& contact_not_later(gap_x, vel.x as int, gap_y, vel.y as int)
            &&& contact_not_later(gap_y, vel.y as int, gap_x, vel.x as int)
            &&& vel.z == 0 || contact_not_later(gap_x, vel.x as int, gap_z, vel.z as int)
        }),
    ensures
        collision_direction(a_min, a_max, b_min, b_max, vel).x == -sign(vel.x as int),
        collision_direction(a_min, a_max, b_min, b_max, vel).y == -sign(vel.y as int),
        collision_direction(a_min, a_max, b_min, b_max, vel).x != 0,
        collision_direction(a_min, a_max, b_min, b_max, vel).y != 0,
{
    let gap_x = face_gap(a_min.x as int, a_max.x as int, b_min.x as int, b_max.x as int);
    let gap_y = face_gap(a_min.y as int, a_max.y as int, b_min.y as int, b_max.y as int);
    let gap_z = face_gap(a_min.z as int, a_max.z as int, b_min.z as int, b_max.z as int);
    if vel.z != 0 {
        lemma_contact_transitive(
            gap_y,
            vel.y as int,
            gap_x,
            vel.x as int,
            gap_z,
            vel.z as int,
        );
    }
}

} // verus!
