//! What a pull on a hooked grapple does: it draws a player at rest toward
//! the anchor.

use vstd::prelude::*;
use crate::block::Block;
use crate::dynamics::{
    lemma_blocks_keep_fields, lemma_hooked_grapple_holds, lemma_origin_has_no_length,
    lemma_product_of_zero,
};
use crate::fixed::{div_trunc, magnitude, product, sat, LIMIT, SCALE};
use crate::player::{forward_axis, horizontal, strafe_axis, Player};
use crate::unit_length::{
    lemma_magnitude_of_quotient, lemma_sqrt_floor_between, lemma_sqrt_floor_exists,
    lemma_unit_squares,
};
use crate::vec3::{Vec3, FINE};

verus! {

/// A fixed-point product with a factor that is not negative has the sign of
/// the other factor, or is zero, and is no greater in magnitude than the
/// exact product.
pub proof fn lemma_product_keeps_sign(x: int, k: int)
    requires
        k >= 0,
    ensures
        x >= 0 ==> product(x, k) >= 0,
        x <= 0 ==> product(x, k) <= 0,
        magnitude(product(x, k)) * SCALE <= magnitude(x) * k,
{
    let s = SCALE as int;
    lemma_magnitude_of_quotient(x * k, s);
    let m = magnitude(x) * k;
    assert(magnitude(x * k) == m && m >= 0 && (x >= 0 ==> x * k >= 0) && (x <= 0 ==> x * k <= 0))
        by (nonlinear_arith)
        requires
            m == magnitude(x) * k,
            k >= 0,
    ;
    let t = div_trunc(x * k, s);
    assert(magnitude(t) == m / s);
    assert(magnitude(sat(t)) <= magnitude(t));
    assert((m / s) * s <= m);
    assert(magnitude(product(x, k)) * s <= (m / s) * s) by (nonlinear_arith)
        requires
            0 <= magnitude(product(x, k)) <= m / s,
            s > 0,
    ;
}

/// The step of a pull on one axis: the share of the axis in the direction
/// to the anchor, times the pull, times the time step for the velocity, and
/// times the time step again for the move.
pub open spec fn pull_step(toward: int, pull: int, time_step: int) -> int {
    product(product(product(toward, pull), time_step), time_step)
}

/// The step of a pull has the sign of the direction, or is zero, and its
/// magnitude is within what the direction, the pull and the square of the
/// time step come to.
proof fn lemma_pull_step_bound(toward: int, pull: int, time_step: int)
    requires
        pull >= 0,
        time_step >= 0,
    ensures
        toward >= 0 ==> pull_step(toward, pull, time_step) >= 0,
        toward <= 0 ==> pull_step(toward, pull, time_step) <= 0,
        magnitude(pull_step(toward, pull, time_step)) * (SCALE * SCALE * SCALE) <= magnitude(toward)
            * (pull * time_step * time_step),
{
    let s = SCALE as int;
    let a = product(toward, pull);
    let v = product(a, time_step);
    let st = product(v, time_step);
    lemma_product_keeps_sign(toward, pull);
    lemma_product_keeps_sign(a, time_step);
    lemma_product_keeps_sign(v, time_step);
    let mt = magnitude(toward);
    let ma = magnitude(a);
    let mv = magnitude(v);
    let ms = magnitude(st);
    assert(ms * (s * s * s) <= mt * (pull * time_step * time_step)) by (nonlinear_arith)
        requires
            ms * s <= mv * time_step,
            mv * s <= ma * time_step,
            ma * s <= mt * pull,
            ms >= 0,
            mv >= 0,
            ma >= 0,
            mt >= 0,
            pull >= 0,
            time_step >= 0,
            s > 0,
    {
        assert(ms * s * s <= mv * time_step * s);
        assert(mv * time_step * s == (mv * s) * time_step);
        assert((mv * s) * time_step <= (ma * time_step) * time_step);
        assert(ms * s * s * s <= (ma * time_step) * time_step * s);
        assert((ma * time_step) * time_step * s == (ma * s) * (time_step * time_step));
        assert((ma * s) * (time_step * time_step) <= (mt * pull) * (time_step * time_step));
        assert((mt * pull) * (time_step * time_step) == mt * (pull * time_step * time_step));
        assert(ms * (s * s * s) == ms * s * s * s);
    }
}

/// On one axis, a pull that covers no more than the distance to the anchor
/// moves the player no further than the anchor is away on that axis, and
/// toward it.
proof fn lemma_pull_step_within(gap: int, n: int, d: int, pull: int, time_step: int)
    requires
        n >= FINE * d,
        n >= 1,
        d >= 0,
        pull >= 0,
        time_step >= 0,
        -n <= gap * FINE <= n,
        pull * time_step * time_step <= d * (SCALE * SCALE),
    ensures
        ({
            let toward = div_trunc(gap * FINE * SCALE, n);
            let step = pull_step(toward, pull, time_step);
            &&& gap >= 0 ==> 0 <= step <= gap
            &&& gap <= 0 ==> gap <= step <= 0
        }),
{
    let s = SCALE as int;
    let f = FINE as int;
    let toward = div_trunc(gap * f * s, n);
    let step = pull_step(toward, pull, time_step);
    lemma_magnitude_of_quotient(gap * f * s, n);
    let mg = magnitude(gap);
    assert(magnitude(gap * f * s) == mg * f * s && (gap >= 0 ==> gap * f * s >= 0) && (gap <= 0
        ==> gap * f * s <= 0)) by (nonlinear_arith)
        requires
            mg == magnitude(gap),
            f > 0,
            s > 0,
    ;
    let mt = magnitude(toward);
    assert(mt * n <= mg * f * s);
    lemma_pull_step_bound(toward, pull, time_step);
    let ms = magnitude(step);
    let k = pull * time_step * time_step;
    assert(ms <= mg) by (nonlinear_arith)
        requires
            ms * (s * s * s) <= mt * k,
            mt * n <= mg * f * s,
            k <= d * (s * s),
            n >= f * d,
            n >= 1,
            f >= 1,
            s >= 1,
            d >= 0,
            k >= 0,
            ms >= 0,
            mt >= 0,
            mg >= 0,
    {
        assert(ms * (s * s * s) * n <= (mt * k) * n);
        assert((mt * k) * n == (mt * n) * k);
        assert((mt * n) * k <= (mg * f * s) * k);
        assert((mg * f * s) * k <= (mg * f * s) * (d * (s * s)));
        assert((mg * f * s) * (d * (s * s)) == (mg * (s * s * s)) * (f * d));
        assert((mg * (s * s * s)) * (f * d) <= (mg * (s * s * s)) * n);
        assert(ms * (s * s * s) * n == (ms * n) * (s * s * s));
        assert((mg * (s * s * s)) * n == (mg * n) * (s * s * s));
        assert((ms * n) * (s * s * s) <= (mg * n) * (s * s * s));
        assert(s * s * s >= 1);
        assert(ms * n <= mg * n);
    }
}

/// Moving toward the anchor on every axis, and along the rope by more than
/// two millionths in all, brings the square of the distance below the
/// square of the rounded distance.
proof fn lemma_closer_arith(
    gx: int,
    gy: int,
    gz: int,
    sx: int,
    sy: int,
    sz: int,
    d: int,
)
    by (nonlinear_arith)
    requires
        d >= 0,
        gx * gx + gy * gy + gz * gz < (d + 1) * (d + 1),
        (gx >= 0 ==> 0 <= sx <= gx) && (gx <= 0 ==> gx <= sx <= 0),
        (gy >= 0 ==> 0 <= sy <= gy) && (gy <= 0 ==> gy <= sy <= 0),
        (gz >= 0 ==> 0 <= sz <= gz) && (gz <= 0 ==> gz <= sz <= 0),
        gx * sx + gy * sy + gz * sz > 2 * d,
    ensures
        (gx - sx) * (gx - sx) + (gy - sy) * (gy - sy) + (gz - sz) * (gz - sz) < d * d,
        (gx - sx) * (gx - sx) + (gy - sy) * (gy - sy) + (gz - sz) * (gz - sz) >= 0,
{
    assert(sx * sx <= gx * sx);
    assert(sy * sy <= gy * sy);
    assert(sz * sz <= gz * sz);
    assert((gx - sx) * (gx - sx) == gx * gx - 2 * (gx * sx) + sx * sx);
    assert((gy - sy) * (gy - sy) == gy * gy - 2 * (gy * sy) + sy * sy);
    assert((gz - sz) * (gz - sz) == gz * gz - 2 * (gz * sz) + sz * sz);
    assert((d + 1) * (d + 1) == d * d + 2 * d + 1);
}

/// The velocity that a pull gives a player at rest.
pub open spec fn pull_velocity(p: Player, time_step: int) -> Vec3 {
    p.grapple.unwrap().end.minus(p.position).unit_spec().scaled(
        p.grapple.unwrap().pull as int,
    ).scaled(time_step)
}

/// A step from `position` by what the pull toward `anchor` comes to ends
/// strictly closer to the anchor, if the anchor is within the world, the
/// pull covers no more than the distance, and the step, measured along the
/// way to the anchor, is more than two millionths.
pub proof fn lemma_step_toward_anchor(anchor: Vec3, position: Vec3, pull: int, time_step: int)
    requires
        anchor.wf(),
        position.wf(),
        pull >= 0,
        time_step >= 0,
        anchor.minus(position).length_spec() < LIMIT,
        pull * time_step * time_step <= anchor.minus(position).length_spec() * (SCALE * SCALE),
        anchor.minus(position).dot_wide(
            anchor.minus(position).unit_spec().scaled(pull).scaled(time_step).scaled(time_step),
        ) > 2 * anchor.minus(position).length_spec(),
    ensures
        ({
            let step = anchor.minus(position).unit_spec().scaled(pull).scaled(time_step).scaled(
                time_step,
            );
            &&& position.plus(step).minus(position) == step
            &&& anchor.minus(position.plus(step)).length_spec() < anchor.minus(
                position,
            ).length_spec()
        }),
{
    let gap = anchor.minus(position);
    let d = gap.length_spec();
    let step = gap.unit_spec().scaled(pull).scaled(time_step).scaled(time_step);
    assert(gap.dot_wide(gap) >= 0) by (nonlinear_arith)
        requires
            gap.dot_wide(gap) == gap.x * gap.x + gap.y * gap.y + gap.z * gap.z,
    ;
    lemma_sqrt_floor_exists(gap.dot_wide(gap));
    assert(d == gap.norm());
    assert(-d <= gap.x <= d && -d <= gap.y <= d && -d <= gap.z <= d) by (nonlinear_arith)
        requires
            0 <= d,
            gap.x * gap.x + gap.y * gap.y + gap.z * gap.z < (d + 1) * (d + 1),
    ;
    assert(gap.x == anchor.x - position.x);
    assert(gap.y == anchor.y - position.y);
    assert(gap.z == anchor.z - position.z);
    if gap == Vec3::origin() {
        assert(gap.dot_wide(step) == 0) by (nonlinear_arith)
            requires
                gap.x == 0,
                gap.y == 0,
                gap.z == 0,
                gap.dot_wide(step) == gap.x * step.x + gap.y * step.y + gap.z * step.z,
        ;
        assert(false);
    }
    lemma_unit_squares(gap);
    let n = gap.fine_norm();
    let f = FINE as int;
    let qq = f * f * gap.dot_wide(gap);
    assert(n >= f * d) by {
        assert((f * d) * (f * d) <= qq) by (nonlinear_arith)
            requires
                qq == f * f * gap.dot_wide(gap),
                d * d <= gap.dot_wide(gap),
                d >= 0,
                f >= 1,
        ;
        assert(f * d >= 0) by (nonlinear_arith)
            requires
                f >= 1,
                d >= 0,
        ;
        lemma_sqrt_floor_between(qq, f * d);
    }
    assert(-n <= gap.x * f <= n && -n <= gap.y * f <= n && -n <= gap.z * f <= n)
        by (nonlinear_arith)
        requires
            0 <= n,
            qq < (n + 1) * (n + 1),
            qq == f * f * (gap.x * gap.x + gap.y * gap.y + gap.z * gap.z),
            f >= 1,
    {
        assert((gap.x * f) * (gap.x * f) == f * f * (gap.x * gap.x));
        assert((gap.y * f) * (gap.y * f) == f * f * (gap.y * gap.y));
        assert((gap.z * f) * (gap.z * f) == f * f * (gap.z * gap.z));
        assert((gap.x * f) * (gap.x * f) < (n + 1) * (n + 1));
        assert((gap.y * f) * (gap.y * f) < (n + 1) * (n + 1));
        assert((gap.z * f) * (gap.z * f) < (n + 1) * (n + 1));
    }
    lemma_pull_step_within(gap.x as int, n, d, pull, time_step);
    lemma_pull_step_within(gap.y as int, n, d, pull, time_step);
    lemma_pull_step_within(gap.z as int, n, d, pull, time_step);
    let toward = gap.unit_spec();
    assert(gap.refinement() == f);
    assert(toward.x == div_trunc(gap.x * f * SCALE, n));
    assert(toward.y == div_trunc(gap.y * f * SCALE, n));
    assert(toward.z == div_trunc(gap.z * f * SCALE, n));
    assert(step.x == pull_step(toward.x as int, pull, time_step));
    assert(step.y == pull_step(toward.y as int, pull, time_step));
    assert(step.z == pull_step(toward.z as int, pull, time_step));
    let reached = position.plus(step);
    assert(reached.x == position.x + step.x);
    assert(reached.y == position.y + step.y);
    assert(reached.z == position.z + step.z);
    let left = anchor.minus(reached);
    assert(left.x == gap.x - step.x);
    assert(left.y == gap.y - step.y);
    assert(left.z == gap.z - step.z);
    lemma_closer_arith(
        gap.x as int,
        gap.y as int,
        gap.z as int,
        step.x as int,
        step.y as int,
        step.z as int,
        d,
    );
    lemma_sqrt_floor_between(left.dot_wide(left), d);
}

/// A tick moves the player by its final velocity, and by nothing else.
pub proof fn lemma_tick_moves_by_velocity(
    p: Player,
    blocks: Seq<Block>,
    gravity: int,
    time_step: int,
)
    ensures
        p.after_tick(blocks, gravity, time_step).position == p.position.plus(
            p.after_tick(blocks, gravity, time_step).velocity.scaled(time_step),
        ),
{
    let roped = p.after_drag(time_step).after_thrust(time_step).after_gravity(
        gravity,
        time_step,
    ).after_grapple(blocks, time_step);
    assert(roped.position == p.position);
    lemma_blocks_keep_fields(Player { on_ground: false, ..roped }, blocks, time_step);
}

/// A pull draws a player closer to the anchor.
///
/// The player hauls on a hooked grapple. The anchor is within the world,
/// and the pull of the tick covers no more than the distance to it. The
/// tick ends with the velocity that the pull alone gives a player at rest:
/// nothing else moves the player, and neither a block nor the speed limit
/// holds it back. The move, measured along the rope, is more than two
/// millionths. Then the player ends the tick strictly closer to the anchor,
/// and the anchor is where it was.
pub proof fn lemma_pull_draws_closer(p: Player, blocks: Seq<Block>, gravity: int, time_step: int)
    requires
        p.wf(),
        p.pulling,
        p.grapple.is_some(),
        p.grapple.unwrap().hooked,
        time_step > 0,
        p.grapple.unwrap().end.minus(p.position).length_spec() < LIMIT,
        p.grapple.unwrap().pull * time_step * time_step <= p.grapple.unwrap().end.minus(
            p.position,
        ).length_spec() * (SCALE * SCALE),
        p.after_tick(blocks, gravity, time_step).velocity == pull_velocity(p, time_step),
        p.grapple.unwrap().end.minus(p.position).dot_wide(
            pull_velocity(p, time_step).scaled(time_step),
        ) > 2 * p.grapple.unwrap().end.minus(p.position).length_spec(),
    ensures
        p.after_tick(blocks, gravity, time_step).grapple == p.grapple,
        p.grapple.unwrap().end.minus(
            p.after_tick(blocks, gravity, time_step).position,
        ).length_spec() < p.grapple.unwrap().end.minus(p.position).length_spec(),
{
    lemma_hooked_grapple_holds(p, blocks, gravity, time_step);
    lemma_tick_moves_by_velocity(p, blocks, gravity, time_step);
    lemma_step_toward_anchor(
        p.grapple.unwrap().end,
        p.position,
        p.grapple.unwrap().pull as int,
        time_step,
    );
}

/// The pull alone moves a player who is at rest in a world without
/// gravity, with no key held, whom no block blocks and whom the pull does
/// not take beyond the speed limit: the tick ends with the velocity that
/// the pull gives.
pub proof fn lemma_pull_alone(p: Player, blocks: Seq<Block>, time_step: int)
    requires
        p.wf(),
        p.velocity == Vec3::origin(),
        p.h_vel == 0,
        p.d_vel == 0,
        p.pulling,
        p.grapple.is_some(),
        p.grapple.unwrap().hooked,
        p.after_forces(blocks, 0, time_step).velocity == p.after_drag(time_step).after_thrust(
            time_step,
        ).after_gravity(0, time_step).after_grapple(blocks, time_step).velocity,
        pull_velocity(p, time_step).length_spec() <= p.tuning.term_spd,
    ensures
        p.after_tick(blocks, 0, time_step).velocity == pull_velocity(p, time_step),
{
    lemma_origin_has_no_length();
    lemma_product_of_zero(time_step);
    lemma_product_of_zero(p.tuning.move_acc as int);
    assert(horizontal(p.velocity) == Vec3::origin());
    let dragged = p.after_drag(time_step);
    assert(dragged == p);
    assert(p.thrust() == Vec3::origin()) by {
        let theta = p.theta as int;
        lemma_product_of_zero(strafe_axis(theta).x as int);
        lemma_product_of_zero(strafe_axis(theta).z as int);
        lemma_product_of_zero(forward_axis(theta).x as int);
        lemma_product_of_zero(forward_axis(theta).z as int);
        lemma_product_of_zero(0);
        assert(strafe_axis(theta).scaled(0) == Vec3::origin());
        assert(forward_axis(theta).scaled(0) == Vec3::origin());
        assert(Vec3::origin().plus(Vec3::origin()) == Vec3::origin());
        assert(Vec3::origin().scaled(p.tuning.move_acc as int) == Vec3::origin());
    }
    assert(Vec3::origin().scaled(time_step) == Vec3::origin());
    assert(Vec3::origin().plus(Vec3::origin()) == Vec3::origin());
    let pushed = dragged.after_thrust(time_step);
    assert(pushed == p);
    let heavy = pushed.after_gravity(0, time_step);
    assert(heavy == p);
    let g = p.grapple.unwrap();
    let toward = g.end.minus(p.position).unit_spec();
    assert(p.velocity.dot_wide(toward) == 0) by (nonlinear_arith)
        requires
            p.velocity.x == 0,
            p.velocity.y == 0,
            p.velocity.z == 0,
            p.velocity.dot_wide(toward) == p.velocity.x * toward.x + p.velocity.y * toward.y
                + p.velocity.z * toward.z,
    ;
    let given = toward.scaled(g.pull as int).scaled(time_step);
    assert(Vec3::origin().plus(given) == given);
    let roped = heavy.after_grapple(blocks, time_step);
    assert(roped.velocity == pull_velocity(p, time_step));
    assert(roped.tuning == p.tuning);
    lemma_blocks_keep_fields(Player { on_ground: false, ..roped }, blocks, time_step);
}

/// A player at rest who hauls on a hooked grapple, in a world without
/// gravity and with no key held, ends the tick strictly closer to the
/// anchor, and the anchor is where it was.
///
/// No block blocks the player, and the pull does not take it beyond the
/// speed limit. The anchor is within the world, the pull of the tick covers
/// no more than the distance to it, and the move, measured along the rope,
/// is more than two millionths.
pub proof fn lemma_pull_from_rest_draws_closer(p: Player, blocks: Seq<Block>, time_step: int)
    requires
        p.wf(),
        p.velocity == Vec3::origin(),
        p.h_vel == 0,
        p.d_vel == 0,
        p.pulling,
        p.grapple.is_some(),
        p.grapple.unwrap().hooked,
        time_step > 0,
        p.after_forces(blocks, 0, time_step).velocity == p.after_drag(time_step).after_thrust(
            time_step,
        ).after_gravity(0, time_step).after_grapple(blocks, time_step).velocity,
        pull_velocity(p, time_step).length_spec() <= p.tuning.term_spd,
        p.grapple.unwrap().end.minus(p.position).length_spec() < LIMIT,
        p.grapple.unwrap().pull * time_step * time_step <= p.grapple.unwrap().end.minus(
            p.position,
        ).length_spec() * (SCALE * SCALE),
        p.grapple.unwrap().end.minus(p.position).dot_wide(
            pull_velocity(p, time_step).scaled(time_step),
        ) > 2 * p.grapple.unwrap().end.minus(p.position).length_spec(),
    ensures
        p.after_tick(blocks, 0, time_step).grapple == p.grapple,
        p.grapple.unwrap().end.minus(p.after_tick(blocks, 0, time_step).position).length_spec()
            < p.grapple.unwrap().end.minus(p.position).length_spec(),
{
    lemma_pull_alone(p, blocks, time_step);
    lemma_pull_draws_closer(p, blocks, 0, time_step);
}

} // verus!
