//! What holds of a tick: a player who stands stays where it is, a player
//! in the air falls, and no player ends a tick faster than the terminal
//! speed.

use vstd::prelude::*;
use crate::aabb::{collision_direction, lemma_direction_components, spans_overlap, AABB};
use crate::block::{all_wf, Block};
use crate::fixed::{
    clamp, is_sqrt_floor, lemma_sqrt_floor_unique, product, product_away, LIMIT, SCALE,
};
use crate::player::{forward_axis, horizontal, strafe_axis, Player, SPEED_SLACK};
use crate::unit_length::{lemma_rescaled_length, lemma_sqrt_floor_exists};
use crate::vec3::Vec3;

verus! {

/// The zero vector has length zero and is its own unit vector.
pub proof fn lemma_origin_has_no_length()
    ensures
        Vec3::origin().norm() == 0,
        Vec3::origin().length_spec() == 0,
        Vec3::origin().unit_spec() == Vec3::origin(),
{
    assert(is_sqrt_floor(0, 0));
    lemma_sqrt_floor_unique(0, 0);
    let f = Vec3::origin().refinement();
    assert(f * f * Vec3::origin().dot_wide(Vec3::origin()) == 0) by (nonlinear_arith)
        requires
            Vec3::origin().dot_wide(Vec3::origin()) == 0,
    ;
}

/// A vector in the horizontal plane has a unit vector in that plane.
pub proof fn lemma_unit_stays_horizontal(v: Vec3)
    requires
        v.y == 0,
    ensures
        v.unit_spec().y == 0,
{
    let n = v.fine_norm();
    if n != 0 {
        vstd::arithmetic::div_mod::lemma_div_of0(n);
        vstd::arithmetic::div_mod::lemma_div_of0(-n);
        assert(v.y * v.refinement() * SCALE == 0) by (nonlinear_arith)
            requires
                v.y == 0,
        ;
    }
}

/// Nothing scaled is nothing, and scaling by nothing gives nothing,
/// whichever way the product is rounded.
pub proof fn lemma_product_of_zero(a: int)
    ensures
        product(0, a) == 0,
        product(a, 0) == 0,
        product_away(0, a) == 0,
        product_away(a, 0) == 0,
{
    assert(0 * a == 0 && a * 0 == 0) by (nonlinear_arith);
}

/// The product of a negative and a positive number, rounded away from zero,
/// is negative; rounded toward zero it is negative or zero.
pub proof fn lemma_product_of_opposite_signs(a: int, b: int)
    requires
        a < 0,
        b > 0,
    ensures
        product_away(a, b) < 0,
        product(a, b) <= 0,
{
    assert(a * b < 0) by (nonlinear_arith)
        requires
            a < 0,
            b > 0,
    ;
}

/// The distance that gravity moves a resting player within one tick, as the
/// blocks are asked about it: rounded away from zero.
pub open spec fn fall_step(gravity: int, time_step: int) -> int {
    product_away(product(clamp(gravity) as int, time_step), time_step)
}

/// Whether the player's feet rest on the top of the block.
pub open spec fn stands_on(player: Player, block: Block) -> bool {
    &&& player.least().y == block.upper().y
    &&& spans_overlap(
        player.least().x as int,
        player.greatest().x as int,
        block.lower().x as int,
        block.upper().x as int,
    )
    &&& spans_overlap(
        player.least().z as int,
        player.greatest().z as int,
        block.lower().z as int,
        block.upper().z as int,
    )
}

/// Whether `s` is `start` but for the vertical velocity and the ground
/// flag, and either still falls in the air with the speed `drop` or rests on
/// the ground.
spec fn settling(s: Player, start: Player, drop: int) -> bool {
    &&& s == (Player { velocity: s.velocity, on_ground: s.on_ground, ..start })
    &&& s.velocity.x == 0
    &&& s.velocity.z == 0
    &&& (s.velocity.y == drop && !s.on_ground) || (s.velocity.y == 0 && s.on_ground)
}

/// A block leaves a settling player settling, and one at rest at rest.
proof fn lemma_block_keeps_settling(
    s: Player,
    start: Player,
    drop: int,
    block: Block,
    time_step: int,
)
    requires
        settling(s, start, drop),
    ensures
        settling(s.blocked_by(block, time_step), start, drop),
        s.on_ground ==> s.blocked_by(block, time_step).on_ground,
{
    let step = s.velocity.scaled_away(time_step);
    lemma_product_of_zero(time_step);
    lemma_direction_components(s.least(), s.greatest(), block.lower(), block.upper(), step);
}

/// The block under the feet of a settling player brings it to rest, if the
/// fall of the tick leaves the player's head above the underside of the
/// block.
proof fn lemma_floor_stops_fall(
    s: Player,
    start: Player,
    drop: int,
    block: Block,
    time_step: int,
)
    requires
        settling(s, start, drop),
        start.wf(),
        block.wf(),
        stands_on(start, block),
        product_away(drop, time_step) < 0,
        start.greatest().y + product_away(drop, time_step) >= block.lower().y,
    ensures
        s.blocked_by(block, time_step).velocity.y == 0,
        s.blocked_by(block, time_step).on_ground,
{
    lemma_block_keeps_settling(s, start, drop, block, time_step);
    if s.velocity.y == drop && !s.on_ground {
        let step = s.velocity.scaled_away(time_step);
        lemma_product_of_zero(time_step);
        assert(step == Vec3 { x: 0, y: product_away(drop, time_step) as i64, z: 0 });
        let dir = collision_direction(
            s.least(),
            s.greatest(),
            block.lower(),
            block.upper(),
            step,
        );
        assert(s.least() == start.least());
        assert(s.greatest() == start.greatest());
        assert(dir.y != 0);
    }
}

/// The blocks of a level leave a settling player settling.
proof fn lemma_blocks_keep_settling(
    s: Player,
    start: Player,
    drop: int,
    blocks: Seq<Block>,
    time_step: int,
)
    requires
        settling(s, start, drop),
    ensures
        settling(s.blocked_by_all(blocks, time_step), start, drop),
        s.on_ground ==> s.blocked_by_all(blocks, time_step).on_ground,
    decreases blocks.len(),
{
    if blocks.len() > 0 {
        lemma_blocks_keep_settling(s, start, drop, blocks.drop_last(), time_step);
        lemma_block_keeps_settling(
            s.blocked_by_all(blocks.drop_last(), time_step),
            start,
            drop,
            blocks.last(),
            time_step,
        );
    }
}

/// Blocks among which is the one under the feet of a settling player bring
/// the player to rest.
proof fn lemma_blocks_settle(
    s: Player,
    start: Player,
    drop: int,
    blocks: Seq<Block>,
    floor: int,
    time_step: int,
)
    requires
        settling(s, start, drop),
        start.wf(),
        all_wf(blocks),
        0 <= floor < blocks.len(),
        stands_on(start, blocks[floor]),
        product_away(drop, time_step) < 0,
        start.greatest().y + product_away(drop, time_step) >= blocks[floor].lower().y,
    ensures
        settling(s.blocked_by_all(blocks, time_step), start, drop),
        s.blocked_by_all(blocks, time_step).on_ground,
    decreases blocks.len(),
{
    let init = blocks.drop_last();
    let last = blocks.last();
    let mid = s.blocked_by_all(init, time_step);
    if floor < init.len() {
        assert(init[floor] == blocks[floor]);
        lemma_blocks_settle(s, start, drop, init, floor, time_step);
        lemma_block_keeps_settling(mid, start, drop, last, time_step);
    } else {
        lemma_blocks_keep_settling(s, start, drop, init, time_step);
        lemma_floor_stops_fall(mid, start, drop, last, time_step);
    }
}

/// A player who stands at rest on a block, with no key held and no grapple,
/// is still at rest in the same place after a tick, and on the ground:
/// the block under its feet undoes what gravity did.
///
/// Gravity points down, time runs forward, and the tick is long enough for
/// gravity to change the velocity at all. The fall that gravity alone would
/// have caused within the tick must leave the player's head above the
/// underside of the block.
pub proof fn lemma_standing_player_rests(
    p: Player,
    blocks: Seq<Block>,
    floor: int,
    gravity: int,
    time_step: int,
)
    requires
        p.wf(),
        all_wf(blocks),
        p.velocity == Vec3::origin(),
        p.h_vel == 0,
        p.d_vel == 0,
        p.grapple.is_none(),
        0 <= floor < blocks.len(),
        stands_on(p, blocks[floor]),
        gravity < 0,
        time_step > 0,
        product(clamp(gravity) as int, time_step) != 0,
        p.greatest().y + fall_step(gravity, time_step) >= blocks[floor].lower().y,
    ensures
        p.after_tick(blocks, gravity, time_step).velocity == Vec3::origin(),
        p.after_tick(blocks, gravity, time_step).position == p.position,
        p.after_tick(blocks, gravity, time_step).on_ground,
{
    lemma_origin_has_no_length();
    lemma_product_of_zero(time_step);
    lemma_product_of_zero(p.tuning.move_acc as int);
    let dragged = p.after_drag(time_step);
    assert(horizontal(p.velocity) == Vec3::origin());
    assert(dragged == p);
    assert(p.thrust() == Vec3::origin()) by {
        let theta = p.theta as int;
        lemma_product_of_zero(strafe_axis(theta).x as int);
        lemma_product_of_zero(strafe_axis(theta).z as int);
        lemma_product_of_zero(forward_axis(theta).x as int);
        lemma_product_of_zero(forward_axis(theta).z as int);
        assert(strafe_axis(theta).scaled(0) == Vec3::origin());
        assert(forward_axis(theta).scaled(0) == Vec3::origin());
        assert(Vec3::origin().plus(Vec3::origin()) == Vec3::origin());
        assert(Vec3::origin().scaled(p.tuning.move_acc as int) == Vec3::origin());
    }
    assert(Vec3::origin().scaled(time_step) == Vec3::origin());
    assert(Vec3::origin().plus(Vec3::origin()) == Vec3::origin());
    let pushed = dragged.after_thrust(time_step);
    assert(pushed == p);
    let drop = product(clamp(gravity) as int, time_step);
    lemma_product_of_opposite_signs(clamp(gravity) as int, time_step);
    assert(drop < 0);
    lemma_product_of_opposite_signs(drop, time_step);
    let heavy = pushed.after_gravity(gravity, time_step);
    assert(heavy.velocity == Vec3 { x: 0, y: drop as i64, z: 0 });
    let roped = heavy.after_grapple(blocks, time_step);
    let start = Player { on_ground: false, ..roped };
    assert(settling(start, start, drop));
    assert(start.least() == p.least());
    assert(start.greatest() == p.greatest());
    assert(start.wf());
    assert(stands_on(start, blocks[floor]));
    lemma_blocks_settle(start, start, drop, blocks, floor, time_step);
    let landed = roped.after_collisions(blocks, time_step);
    assert(landed == start.blocked_by_all(blocks, time_step));
    assert(landed.on_ground);
    assert(landed.velocity == Vec3::origin());
    assert(landed.after_speed_limit() == landed);
    assert(landed.position == p.position);
    assert(landed.position.plus(Vec3::origin()) == landed.position);
}

/// Drag and thrust act in the horizontal plane: they leave the vertical
/// velocity as it is.
pub proof fn lemma_drag_and_thrust_are_horizontal(p: Player, time_step: int)
    requires
        p.wf(),
    ensures
        p.after_drag(time_step).velocity.y == p.velocity.y,
        p.after_drag(time_step).wf(),
        p.after_thrust(time_step).velocity.y == p.velocity.y,
        p.after_thrust(time_step).wf(),
{
    let flat = horizontal(p.velocity);
    lemma_unit_stays_horizontal(flat);
    lemma_product_of_zero(p.drag());
    lemma_product_of_zero(time_step);
    let theta = p.theta as int;
    lemma_product_of_zero(p.h_vel as int);
    lemma_product_of_zero(p.d_vel as int);
    let wish = strafe_axis(theta).scaled(p.h_vel as int).plus(
        forward_axis(theta).scaled(p.d_vel as int),
    );
    assert(wish.y == 0);
    lemma_unit_stays_horizontal(wish);
    lemma_product_of_zero(p.tuning.move_acc as int);
    assert(p.thrust().y == 0);
}

/// While no block blocks the vertical axis, the blocks leave the vertical
/// velocity as it is.
proof fn lemma_blocks_keep_vertical(s: Player, blocks: Seq<Block>, time_step: int)
    ensures
        s.on_ground ==> s.blocked_by_all(blocks, time_step).on_ground,
        !s.blocked_by_all(blocks, time_step).on_ground ==> s.blocked_by_all(
            blocks,
            time_step,
        ).velocity.y == s.velocity.y,
    decreases blocks.len(),
{
    if blocks.len() > 0 {
        lemma_blocks_keep_vertical(s, blocks.drop_last(), time_step);
    }
}

/// Gravity adds its share of the tick to the vertical velocity and leaves
/// the rest of the player as it is.
proof fn lemma_gravity_is_vertical(p: Player, gravity: int, time_step: int)
    requires
        p.wf(),
    ensures
        p.after_gravity(gravity, time_step).velocity.y == clamp(
            p.velocity.y + product(clamp(gravity) as int, time_step),
        ),
        p.after_gravity(gravity, time_step).grapple == p.grapple,
        p.after_gravity(gravity, time_step).tuning == p.tuning,
{
}

/// A grapple that is not hooked leaves the velocity as it is.
proof fn lemma_loose_grapple_keeps_velocity(p: Player, blocks: Seq<Block>, time_step: int)
    requires
        match p.grapple {
            Some(g) => !g.hooked,
            None => true,
        },
    ensures
        p.after_grapple(blocks, time_step).velocity == p.velocity,
        p.after_grapple(blocks, time_step).tuning == p.tuning,
{
}

/// A player whom no hooked grapple holds and who is off the ground once
/// the blocks have had their say has the vertical velocity that gravity
/// alone gives.
proof fn lemma_forces_on_airborne_player(
    p: Player,
    blocks: Seq<Block>,
    gravity: int,
    time_step: int,
)
    requires
        p.wf(),
        match p.grapple {
            Some(g) => !g.hooked,
            None => true,
        },
        !p.after_forces(blocks, gravity, time_step).on_ground,
    ensures
        p.after_forces(blocks, gravity, time_step).velocity.y == clamp(
            p.velocity.y + product(clamp(gravity) as int, time_step),
        ),
        p.after_forces(blocks, gravity, time_step).tuning == p.tuning,
{
    lemma_drag_and_thrust_are_horizontal(p, time_step);
    let dragged = p.after_drag(time_step);
    assert(dragged.grapple == p.grapple && dragged.tuning == p.tuning);
    lemma_drag_and_thrust_are_horizontal(dragged, time_step);
    let pushed = dragged.after_thrust(time_step);
    assert(pushed.grapple == p.grapple && pushed.tuning == p.tuning);
    lemma_gravity_is_vertical(pushed, gravity, time_step);
    let heavy = pushed.after_gravity(gravity, time_step);
    lemma_loose_grapple_keeps_velocity(heavy, blocks, time_step);
    let roped = heavy.after_grapple(blocks, time_step);
    let start = Player { on_ground: false, ..roped };
    lemma_blocks_keep_vertical(start, blocks, time_step);
    lemma_blocks_keep_fields(start, blocks, time_step);
}

/// The blocks change nothing of a player but the velocity and the ground
/// flag.
pub proof fn lemma_blocks_keep_fields(s: Player, blocks: Seq<Block>, time_step: int)
    ensures
        s.blocked_by_all(blocks, time_step) == (Player {
            velocity: s.blocked_by_all(blocks, time_step).velocity,
            on_ground: s.blocked_by_all(blocks, time_step).on_ground,
            ..s
        }),
    decreases blocks.len(),
{
    if blocks.len() > 0 {
        lemma_blocks_keep_fields(s, blocks.drop_last(), time_step);
    }
}

/// A hooked grapple stays hooked, and its tip stays where it is, through
/// every tick.
pub proof fn lemma_hooked_grapple_holds(
    p: Player,
    blocks: Seq<Block>,
    gravity: int,
    time_step: int,
)
    requires
        p.grapple.is_some(),
        p.grapple.unwrap().hooked,
    ensures
        p.after_tick(blocks, gravity, time_step).grapple == p.grapple,
{
    let roped = p.after_drag(time_step).after_thrust(time_step).after_gravity(
        gravity,
        time_step,
    ).after_grapple(blocks, time_step);
    assert(roped.grapple == p.grapple);
    lemma_blocks_keep_fields(Player { on_ground: false, ..roped }, blocks, time_step);
}

/// A player whom no hooked grapple holds, who ends a tick off the ground
/// and within the speed limit, ends it with the vertical velocity that
/// gravity alone gives: the old one and the gravity of the tick.
pub proof fn lemma_airborne_player_falls(
    p: Player,
    blocks: Seq<Block>,
    gravity: int,
    time_step: int,
)
    requires
        p.wf(),
        match p.grapple {
            Some(g) => !g.hooked,
            None => true,
        },
        !p.after_tick(blocks, gravity, time_step).on_ground,
        p.after_forces(blocks, gravity, time_step).velocity.length_spec() <= p.tuning.term_spd,
    ensures
        p.after_tick(blocks, gravity, time_step).velocity.y == clamp(
            p.velocity.y + product(clamp(gravity) as int, time_step),
        ),
{
    let forced = p.after_forces(blocks, gravity, time_step);
    assert(p.after_tick(blocks, gravity, time_step) == forced.after_speed_limit().after_move(
        time_step,
    ));
    assert(forced.after_speed_limit().after_move(time_step).on_ground == forced.on_ground);
    lemma_forces_on_airborne_player(p, blocks, gravity, time_step);
}

/// The blocks leave a velocity within range within range.
proof fn lemma_blocks_keep_range(s: Player, blocks: Seq<Block>, time_step: int)
    requires
        s.velocity.wf(),
    ensures
        s.blocked_by_all(blocks, time_step).velocity.wf(),
    decreases blocks.len(),
{
    if blocks.len() > 0 {
        lemma_blocks_keep_range(s, blocks.drop_last(), time_step);
    }
}

/// The forces of a tick leave the velocity within range and the tuning as
/// it is.
proof fn lemma_forces_keep_range(p: Player, blocks: Seq<Block>, gravity: int, time_step: int)
    requires
        p.wf(),
    ensures
        p.after_forces(blocks, gravity, time_step).velocity.wf(),
        p.after_forces(blocks, gravity, time_step).tuning == p.tuning,
{
    lemma_drag_and_thrust_are_horizontal(p, time_step);
    let dragged = p.after_drag(time_step);
    assert(dragged.tuning == p.tuning);
    lemma_drag_and_thrust_are_horizontal(dragged, time_step);
    let pushed = dragged.after_thrust(time_step);
    assert(pushed.tuning == p.tuning);
    let heavy = pushed.after_gravity(gravity, time_step);
    assert(heavy.velocity.wf() && heavy.tuning == p.tuning);
    let roped = heavy.after_grapple(blocks, time_step);
    assert(roped.velocity.wf() && roped.tuning == p.tuning);
    let start = Player { on_ground: false, ..roped };
    lemma_blocks_keep_range(start, blocks, time_step);
    lemma_blocks_keep_fields(start, blocks, time_step);
}

/// The speed limit holds: a player whose velocity is within range has,
/// after the limit, a speed no greater than the terminal speed.
pub proof fn lemma_speed_limit_holds(p: Player)
    requires
        p.velocity.wf(),
        0 <= p.tuning.term_spd <= LIMIT,
    ensures
        p.after_speed_limit().velocity.length_spec() <= p.tuning.term_spd,
{
    let v = p.velocity;
    if v.length_spec() > p.tuning.term_spd {
        assert(v.dot_wide(v) >= 0) by (nonlinear_arith)
            requires
                v.dot_wide(v) == v.x * v.x + v.y * v.y + v.z * v.z,
        ;
        lemma_sqrt_floor_exists(v.dot_wide(v));
        lemma_rescaled_length(v, p.tuning.term_spd as int);
    }
}

/// No tick leaves a player faster than the terminal speed.
pub proof fn lemma_tick_keeps_speed_limit(
    p: Player,
    blocks: Seq<Block>,
    gravity: int,
    time_step: int,
)
    requires
        p.wf(),
    ensures
        p.after_tick(blocks, gravity, time_step).velocity.length_spec() <= p.tuning.term_spd,
{
    lemma_forces_keep_range(p, blocks, gravity, time_step);
    lemma_speed_limit_holds(p.after_forces(blocks, gravity, time_step));
}

/// Where the keys take the horizontal speed to the move speed or beyond,
/// the horizontal speed afterwards is the move speed or less.
pub proof fn lemma_keys_cap_speed(p: Player, time_step: int)
    requires
        p.wf(),
        horizontal(p.velocity).length_spec() <= p.tuning.move_spd + SPEED_SLACK,
        horizontal(p.velocity).plus(p.thrust()).length_spec() >= p.tuning.move_spd,
    ensures
        horizontal(p.after_thrust(time_step).velocity).length_spec() <= p.tuning.move_spd,
{
    let flat = horizontal(p.velocity);
    let pushed = flat.plus(p.thrust());
    let theta = p.theta as int;
    lemma_product_of_zero(p.h_vel as int);
    lemma_product_of_zero(p.d_vel as int);
    let wish = strafe_axis(theta).scaled(p.h_vel as int).plus(
        forward_axis(theta).scaled(p.d_vel as int),
    );
    assert(wish.y == 0);
    lemma_unit_stays_horizontal(wish);
    lemma_product_of_zero(p.tuning.move_acc as int);
    assert(p.thrust().y == 0);
    assert(pushed.y == 0);
    lemma_unit_stays_horizontal(pushed);
    lemma_product_of_zero(p.tuning.move_spd as int);
    let capped = pushed.unit_spec().scaled(p.tuning.move_spd as int);
    assert(capped.y == 0);
    assert(horizontal(p.after_thrust(time_step).velocity) == capped);
    assert(pushed.dot_wide(pushed) >= 0) by (nonlinear_arith)
        requires
            pushed.dot_wide(pushed) == pushed.x * pushed.x + pushed.y * pushed.y + pushed.z
                * pushed.z,
    ;
    lemma_sqrt_floor_exists(pushed.dot_wide(pushed));
    lemma_rescaled_length(pushed, p.tuning.move_spd as int);
}

} // verus!
