//! The player: an upright box that runs, jumps, falls, and swings on a
//! grapple, one tick at a time.

use vstd::prelude::*;
use crate::aabb::{collision, collision_direction, AABB};
use crate::block::{all_wf, Block};
use crate::fixed::{clamp, in_range, magnitude, mul_fixed, product, saturate, within, LIMIT};
use crate::grapple::Grapple;
use crate::trig::{cos_fixed, cosine, sin_fixed, sine, QUARTER_TURN};
use crate::vec3::Vec3;

verus! {

/// How far above the speed limit the player may be and still accelerate.
pub const SPEED_SLACK: i64 = 1_000;

/// The fixed-point number two.
pub const TWO: i64 = 2_000_000;

/// The constants that tune how a player moves.
#[derive(Clone, Copy, Debug, PartialEq, Eq, Structural)]
pub struct Tuning {
    /// Radians turned per unit of mouse movement.
    pub look_spd: i64,
    /// Acceleration while a movement key is held, per tick.
    pub move_acc: i64,
    /// Horizontal speed lost per tick on the ground.
    pub friction: i64,
    /// Horizontal speed lost per tick in the air.
    pub air_res: i64,
    /// The horizontal speed that movement keys alone do not exceed.
    pub move_spd: i64,
    /// The speed that nothing exceeds.
    pub term_spd: i64,
    /// The upward speed of a jump.
    pub jump_spd: i64,
}

impl Tuning {
    /// Every constant is positive and within range.
    pub open spec fn wf(self) -> bool {
        &&& 0 < self.look_spd <= LIMIT
        &&& 0 < self.move_acc <= LIMIT
        &&& 0 < self.friction <= LIMIT
        &&& 0 < self.air_res <= LIMIT
        &&& 0 < self.move_spd <= LIMIT
        &&& 0 < self.term_spd <= LIMIT
        &&& 0 < self.jump_spd <= LIMIT
    }

    /// The tuning of the game as shipped.
    pub open spec fn shipped() -> Tuning {
        Tuning {
            look_spd: 800,
            move_acc: 40_000,
            friction: 30_000,
            air_res: 1_500,
            move_spd: 100_000,
            term_spd: 500_000,
            jump_spd: 200_000,
        }
    }

    /// Whether every constant is positive and within range.
    pub fn is_valid(&self) -> (r: bool)
        ensures
            r == self.wf(),
    {
        0 < self.look_spd && self.look_spd <= LIMIT && 0 < self.move_acc && self.move_acc <= LIMIT
            && 0 < self.friction && self.friction <= LIMIT && 0 < self.air_res && self.air_res
            <= LIMIT && 0 < self.move_spd && self.move_spd <= LIMIT && 0 < self.term_spd
            && self.term_spd <= LIMIT && 0 < self.jump_spd && self.jump_spd <= LIMIT
    }

    /// The tuning of the game as shipped.
    pub fn standard() -> (r: Tuning)
        ensures
            r == Tuning::shipped(),
            r.wf(),
    {
        Tuning {
            look_spd: 800,
            move_acc: 40_000,
            friction: 30_000,
            air_res: 1_500,
            move_spd: 100_000,
            term_spd: 500_000,
            jump_spd: 200_000,
        }
    }
}

/// A direction in which the player can be told to go.
#[derive(Clone, Copy, Debug, PartialEq, Eq, Structural)]
pub enum Go {
    Left,
    Forward,
    Right,
    Back,
    Jump,
}

/// A player: where it is, how it moves, where it looks, what keys are
/// held, and its grapple, if it has one.
#[derive(Clone, Copy, Debug, PartialEq, Eq)]
pub struct Player {
    pub tuning: Tuning,
    /// The centre of the player's box.
    pub position: Vec3,
    /// The displacement per tick.
    pub velocity: Vec3,
    /// The strafing input: negative to the left, positive to the right.
    pub h_vel: i64,
    /// The forward input: positive forward, negative back.
    pub d_vel: i64,
    /// The yaw, in radians.
    pub theta: i64,
    /// The pitch, in radians, strictly between minus and plus a quarter turn.
    pub phi: i64,
    /// The extent of the player's box along each axis.
    pub dims: Vec3,
    /// Whether the last tick ended with the vertical axis blocked.
    pub on_ground: bool,
    pub grapple: Option<Grapple>,
    /// Whether the player is hauling on the grapple.
    pub pulling: bool,
}

/// The part of a velocity that lies in the horizontal plane.
pub open spec fn horizontal(v: Vec3) -> Vec3 {
    Vec3 { x: v.x, y: 0, z: v.z }
}

/// The direction to the player's right for a yaw of `theta`.
pub open spec fn strafe_axis(theta: int) -> Vec3 {
    Vec3 { x: cosine(theta) as i64, y: 0, z: (-sine(theta)) as i64 }
}

/// The direction ahead of the player for a yaw of `theta`.
pub open spec fn forward_axis(theta: int) -> Vec3 {
    Vec3 { x: sine(theta) as i64, y: 0, z: cosine(theta) as i64 }
}

/// The direction in which the player looks for the given yaw and pitch.
pub open spec fn look_direction(theta: int, phi: int) -> Vec3 {
    Vec3 {
        x: product(sine(theta), cosine(phi)) as i64,
        y: sine(phi) as i64,
        z: product(cosine(theta), cosine(phi)) as i64,
    }
}

impl Player {
    /// The tuning is well formed, every quantity is within range, no extent
    /// is negative and the pitch is short of a quarter turn either way.
    pub open spec fn wf(self) -> bool {
        &&& self.tuning.wf()
        &&& self.position.wf()
        &&& self.velocity.wf()
        &&& self.dims.wf()
        &&& self.dims.x >= 0 && self.dims.y >= 0 && self.dims.z >= 0
        &&& in_range(self.h_vel as int)
        &&& in_range(self.d_vel as int)
        &&& in_range(self.theta as int)
        &&& -QUARTER_TURN < self.phi < QUARTER_TURN
        &&& match self.grapple {
            Some(g) => g.wf(),
            None => true,
        }
    }

    /// A player who has just entered the level at `position`: at rest, in the
    /// air, looking straight ahead, with no input and no grapple.
    pub open spec fn spawned(position: Vec3) -> Player {
        Player {
            tuning: Tuning::shipped(),
            position,
            velocity: Vec3::origin(),
            h_vel: 0,
            d_vel: 0,
            theta: 0,
            phi: 0,
            dims: Vec3 { x: 500_000, y: 2_000_000, z: 500_000 },
            on_ground: false,
            grapple: None,
            pulling: false,
        }
    }

    /// The corner of the player's box with the least coordinates: half the
    /// extent below the centre on each axis.
    pub open spec fn least(self) -> Vec3 {
        self.position.minus(self.dims.divided(TWO as int))
    }

    /// The corner of the player's box with the greatest coordinates: half
    /// the extent above the centre on each axis.
    pub open spec fn greatest(self) -> Vec3 {
        self.position.plus(self.dims.divided(TWO as int))
    }

    /// The horizontal speed that is lost per tick: to friction on the
    /// ground, to the air otherwise.
    pub open spec fn drag(self) -> int {
        if self.on_ground {
            self.tuning.friction as int
        } else {
            self.tuning.air_res as int
        }
    }

    /// The player after friction or air resistance has acted for
    /// `time_step`: a horizontal speed no greater than the drag is lost
    /// altogether, a greater one is reduced against its direction.
    pub open spec fn after_drag(self, time_step: int) -> Player {
        let flat = horizontal(self.velocity);
        if flat.length_spec() == 0 {
            self
        } else if flat.length_spec() <= self.drag() {
            Player { velocity: Vec3 { x: 0, y: self.velocity.y, z: 0 }, ..self }
        } else {
            Player {
                velocity: self.velocity.minus(
                    flat.unit_spec().scaled(self.drag()).scaled(time_step),
                ),
                ..self
            }
        }
    }

    /// The acceleration that the held movement keys ask for.
    pub open spec fn thrust(self) -> Vec3 {
        strafe_axis(self.theta as int).scaled(self.h_vel as int).plus(
            forward_axis(self.theta as int).scaled(self.d_vel as int),
        ).unit_spec().scaled(self.tuning.move_acc as int)
    }

    /// The player after the movement keys have acted for `time_step`. They
    /// act only while the horizontal speed is within the limit; where the
    /// whole thrust would take it to the limit or beyond, the horizontal
    /// velocity becomes the limit in the new direction.
    pub open spec fn after_thrust(self, time_step: int) -> Player {
        let flat = horizontal(self.velocity);
        let pushed = flat.plus(self.thrust());
        if flat.length_spec() > self.tuning.move_spd + SPEED_SLACK {
            self
        } else if pushed.length_spec() >= self.tuning.move_spd {
            let capped = pushed.unit_spec().scaled(self.tuning.move_spd as int);
            Player { velocity: Vec3 { x: capped.x, y: self.velocity.y, z: capped.z }, ..self }
        } else {
            Player { velocity: self.velocity.plus(self.thrust().scaled(time_step)), ..self }
        }
    }

    /// The player after gravity has acted for `time_step`.
    pub open spec fn after_gravity(self, gravity: int, time_step: int) -> Player {
        Player {
            velocity: self.velocity.plus(
                Vec3 { x: 0, y: clamp(gravity), z: 0 }.scaled(time_step),
            ),
            ..self
        }
    }

    /// The velocity of a player held by a grapple hooked at `anchor`: the
    /// part that leads away from the anchor is taken out, and a player who
    /// pulls is accelerated toward the anchor.
    pub open spec fn tethered_velocity(self, anchor: Vec3, pull: int, time_step: int) -> Vec3 {
        let toward = anchor.minus(self.position).unit_spec();
        let held = if self.velocity.dot_spec(toward) < 0 {
            self.velocity.minus(self.velocity.projection(toward))
        } else {
            self.velocity
        };
        if self.pulling {
            held.plus(toward.scaled(pull).scaled(time_step))
        } else {
            held
        }
    }

    /// The player after the grapple has acted for `time_step`. Without a
    /// grapple nobody pulls. A hooked grapple holds the player. An unhooked
    /// one is lost once its tip is further away than its length, and flies
    /// on otherwise.
    pub open spec fn after_grapple(self, blocks: Seq<Block>, time_step: int) -> Player {
        match self.grapple {
            None => Player { pulling: false, ..self },
            Some(g) => if g.hooked {
                Player {
                    velocity: self.tethered_velocity(g.end, g.pull as int, time_step),
                    ..self
                }
            } else if g.end.minus(self.position).length_spec() > g.length {
                Player { grapple: None, ..self }
            } else {
                Player { grapple: Some(g.after_cast(blocks, time_step)), ..self }
            },
        }
    }

    /// The player after one block has had its say: the velocity is zero on
    /// each axis that the block blocks, and a blocked vertical axis puts
    /// the player on the ground. The block is asked about the move of the
    /// tick rounded away from zero, so that a player who moves at all is
    /// seen to move.
    pub open spec fn blocked_by(self, block: Block, time_step: int) -> Player {
        let dir = collision_direction(
            self.least(),
            self.greatest(),
            block.lower(),
            block.upper(),
            self.velocity.scaled_away(time_step),
        );
        Player {
            velocity: Vec3 {
                x: if dir.x != 0 {
                    0
                } else {
                    self.velocity.x
                },
                y: if dir.y != 0 {
                    0
                } else {
                    self.velocity.y
                },
                z: if dir.z != 0 {
                    0
                } else {
                    self.velocity.z
                },
            },
            on_ground: self.on_ground || dir.y != 0,
            ..self
        }
    }

    /// The player after each block in turn has had its say.
    pub open spec fn blocked_by_all(self, blocks: Seq<Block>, time_step: int) -> Player
        decreases blocks.len(),
    {
        if blocks.len() == 0 {
            self
        } else {
            self.blocked_by_all(blocks.drop_last(), time_step).blocked_by(
                blocks.last(),
                time_step,
            )
        }
    }

    /// The player after collisions have been resolved: off the ground
    /// unless some block blocks the vertical axis.
    pub open spec fn after_collisions(self, blocks: Seq<Block>, time_step: int) -> Player {
        Player { on_ground: false, ..self }.blocked_by_all(blocks, time_step)
    }

    /// The player with a speed above the terminal speed brought down to
    /// it, the direction kept.
    pub open spec fn after_speed_limit(self) -> Player {
        if self.velocity.length_spec() > self.tuning.term_spd {
            Player {
                velocity: self.velocity.unit_spec().scaled(self.tuning.term_spd as int),
                ..self
            }
        } else {
            self
        }
    }

    /// The player moved by the velocity for `time_step`.
    pub open spec fn after_move(self, time_step: int) -> Player {
        Player { position: self.position.plus(self.velocity.scaled(time_step)), ..self }
    }

    /// The player after everything that changes the velocity but the speed
    /// limit: drag, thrust, gravity, grapple and collisions, in this order.
    pub open spec fn after_forces(self, blocks: Seq<Block>, gravity: int, time_step: int) -> Player {
        self.after_drag(time_step).after_thrust(time_step).after_gravity(
            gravity,
            time_step,
        ).after_grapple(blocks, time_step).after_collisions(blocks, time_step)
    }

    /// The player after one tick of `time_step` among `blocks` under
    /// `gravity`: the forces, then the speed limit, then the move.
    pub open spec fn after_tick(self, blocks: Seq<Block>, gravity: int, time_step: int) -> Player {
        self.after_forces(blocks, gravity, time_step).after_speed_limit().after_move(time_step)
    }

    /// The player after the command to go in a direction: a movement key
    /// sets its input axis to the acceleration, with its sign; a jump takes
    /// a player on the ground off it with the jump speed, and does nothing
    /// to a player in the air.
    pub open spec fn after_go(self, go: Go) -> Player {
        match go {
            Go::Left => Player { h_vel: (-self.tuning.move_acc) as i64, ..self },
            Go::Forward => Player { d_vel: self.tuning.move_acc, ..self },
            Go::Right => Player { h_vel: self.tuning.move_acc, ..self },
            Go::Back => Player { d_vel: (-self.tuning.move_acc) as i64, ..self },
            Go::Jump => if self.on_ground {
                Player {
                    velocity: Vec3 { y: self.tuning.jump_spd, ..self.velocity },
                    on_ground: false,
                    ..self
                }
            } else {
                self
            },
        }
    }

    /// The player after the command to stop going in a direction: the input
    /// axis is cleared if it still holds what going in that direction set.
    pub open spec fn after_stop(self, go: Go) -> Player {
        match go {
            Go::Left => if self.h_vel == -self.tuning.move_acc {
                Player { h_vel: 0, ..self }
            } else {
                self
            },
            Go::Forward => if self.d_vel == self.tuning.move_acc {
                Player { d_vel: 0, ..self }
            } else {
                self
            },
            Go::Right => if self.h_vel == self.tuning.move_acc {
                Player { h_vel: 0, ..self }
            } else {
                self
            },
            Go::Back => if self.d_vel == -self.tuning.move_acc {
                Player { d_vel: 0, ..self }
            } else {
                self
            },
            Go::Jump => self,
        }
    }

    /// The player after the mouse has moved: the yaw turns with the
    /// horizontal movement; the pitch turns against the vertical movement,
    /// unless that would take it to a quarter turn or beyond.
    pub open spec fn after_look(self, movement_x: int, movement_y: int) -> Player {
        let turn = product(movement_x, self.tuning.look_spd as int);
        let tilt = -product(movement_y, self.tuning.look_spd as int);
        Player {
            theta: clamp(self.theta + turn),
            phi: if magnitude(self.phi + tilt) < QUARTER_TURN {
                (self.phi + tilt) as i64
            } else {
                self.phi
            },
            ..self
        }
    }

    /// The player after the grapple has been toggled: a player without one
    /// fires one in the direction of the look, a player with one drops it.
    pub open spec fn after_cast_toggle(self) -> Player {
        match self.grapple {
            None => Player {
                grapple: Some(
                    Grapple::fired(
                        self.position,
                        self.position.plus(look_direction(self.theta as int, self.phi as int)),
                    ),
                ),
                ..self
            },
            Some(_) => Player { grapple: None, ..self },
        }
    }

    /// A player who enters the level at `position`.
    pub fn new(position: Vec3) -> (r: Self)
        ensures
            r == Player::spawned(position),
            position.wf() ==> r.wf(),
    {
        Self {
            tuning: Tuning::standard(),
            position,
            velocity: Vec3::zero(),
            h_vel: 0,
            d_vel: 0,
            theta: 0,
            phi: 0,
            dims: Vec3::new(500_000, 2_000_000, 500_000),
            on_ground: false,
            grapple: None,
            pulling: false,
        }
    }

    /// Whether the tuning is well formed, every quantity is within range,
    /// no extent is negative and the pitch is short of a quarter turn.
    pub fn is_valid(&self) -> (r: bool)
        ensures
            r == self.wf(),
    {
        let grapple_ok: bool = match self.grapple {
            Some(g) => g.is_valid(),
            None => true,
        };
        self.tuning.is_valid() && self.position.in_bounds() && self.velocity.in_bounds()
            && self.dims.in_bounds() && self.dims.x >= 0 && self.dims.y >= 0 && self.dims.z >= 0
            && within(self.h_vel) && within(self.d_vel) && within(self.theta) && -QUARTER_TURN
            < self.phi && self.phi < QUARTER_TURN && grapple_ok
    }

    /// Fires a grapple in the direction of the look, or drops the grapple
    /// that the player has.
    pub fn cast_grapple(&mut self)
        ensures
            *final(self) == old(self).after_cast_toggle(),
            old(self).wf() ==> final(self).wf(),
    {
        match self.grapple {
            None => {
                let sin_theta: i64 = sin_fixed(self.theta);
                let cos_theta: i64 = cos_fixed(self.theta);
                let sin_phi: i64 = sin_fixed(self.phi);
                let cos_phi: i64 = cos_fixed(self.phi);
                let cast_dir: Vec3 = Vec3::new(
                    mul_fixed(sin_theta, cos_phi),
                    sin_phi,
                    mul_fixed(cos_theta, cos_phi),
                );
                let target: Vec3 = self.position + cast_dir;
                self.grapple = Some(Grapple::new(self.position, target));
            },
            Some(_) => {
                self.grapple = None;
            },
        }
    }

    /// Starts hauling on the grapple.
    pub fn pull_grapple(&mut self)
        ensures
            *final(self) == (Player { pulling: true, ..*old(self) }),
    {
        self.pulling = true;
    }

    /// Stops hauling on the grapple; the grapple stays where it is.
    pub fn release_grapple(&mut self)
        ensures
            *final(self) == (Player { pulling: false, ..*old(self) }),
    {
        self.pulling = false;
    }

    fn apply_drag(&mut self, time_step: i64)
        requires
            old(self).wf(),
        ensures
            *final(self) == old(self).after_drag(time_step as int),
            final(self).wf(),
    {
        let flat: Vec3 = Vec3::new(self.velocity.x, 0, self.velocity.z);
        let speed: i64 = flat.length();
        if speed > 0 {
            let drag: i64 = if self.on_ground {
                self.tuning.friction
            } else {
                self.tuning.air_res
            };
            if speed <= drag {
                self.velocity.x = 0;
                self.velocity.z = 0;
            } else {
                self.velocity = self.velocity - flat.unit() * drag * time_step;
            }
        }
    }

    fn apply_thrust(&mut self, time_step: i64)
        requires
            old(self).wf(),
        ensures
            *final(self) == old(self).after_thrust(time_step as int),
            final(self).wf(),
    {
        let flat: Vec3 = Vec3::new(self.velocity.x, 0, self.velocity.z);
        let sin_theta: i64 = sin_fixed(self.theta);
        let cos_theta: i64 = cos_fixed(self.theta);
        let h_dir: Vec3 = Vec3::new(cos_theta, 0, -sin_theta);
        let d_dir: Vec3 = Vec3::new(sin_theta, 0, cos_theta);
        let move_dir: Vec3 = (h_dir * self.h_vel + d_dir * self.d_vel).unit();
        let move_acc: Vec3 = move_dir * self.tuning.move_acc;
        if flat.length() <= self.tuning.move_spd + SPEED_SLACK {
            let pushed: Vec3 = flat + move_acc;
            if pushed.length() >= self.tuning.move_spd {
                let capped: Vec3 = pushed.unit() * self.tuning.move_spd;
                self.velocity.x = capped.x;
                self.velocity.z = capped.z;
            } else {
                self.velocity = self.velocity + move_acc * time_step;
            }
        }
    }

    fn apply_gravity(&mut self, gravity: i64, time_step: i64)
        requires
            old(self).wf(),
        ensures
            *final(self) == old(self).after_gravity(gravity as int, time_step as int),
            final(self).wf(),
    {
        let pull: Vec3 = Vec3::new(0, saturate(gravity as i128), 0);
        self.velocity = self.velocity + pull * time_step;
    }

    fn apply_grapple(&mut self, blocks: &Vec<Block>, time_step: i64)
        requires
            old(self).wf(),
            all_wf(blocks@),
        ensures
            *final(self) == old(self).after_grapple(blocks@, time_step as int),
            final(self).wf(),
    {
        match self.grapple {
            None => {
                self.pulling = false;
            },
            Some(g) => {
                if g.hooked {
                    let toward: Vec3 = (g.end - self.position).unit();
                    if self.velocity.dot(&toward) < 0 {
                        self.velocity = self.velocity - self.velocity.project_onto(&toward);
                    }
                    if self.pulling {
                        self.velocity = self.velocity + toward * g.pull * time_step;
                    }
                } else if (g.end - self.position).length() > g.length {
                    self.grapple = None;
                } else {
                    let mut flying: Grapple = g;
                    flying.cast(blocks, time_step);
                    self.grapple = Some(flying);
                }
            },
        }
    }

    fn apply_block(&mut self, block: &Block, time_step: i64)
        requires
            old(self).wf(),
            block.wf(),
        ensures
            *final(self) == old(self).blocked_by(*block, time_step as int),
            final(self).wf(),
    {
        let step: Vec3 = self.velocity.scale_away(time_step);
        let dir: Vec3 = collision(&*self, block, &step);
        if dir.x != 0 {
            self.velocity.x = 0;
        }
        if dir.y != 0 {
            self.velocity.y = 0;
            self.on_ground = true;
        }
        if dir.z != 0 {
            self.velocity.z = 0;
        }
    }

    fn apply_collisions(&mut self, blocks: &Vec<Block>, time_step: i64)
        requires
            old(self).wf(),
            all_wf(blocks@),
        ensures
            *final(self) == old(self).after_collisions(blocks@, time_step as int),
            final(self).wf(),
    {
        self.on_ground = false;
        let ghost start: Player = *self;
        let mut i: usize = 0;
        while i < blocks.len()
            invariant
                i <= blocks.len(),
                all_wf(blocks@),
                self.wf(),
                *self == start.blocked_by_all(blocks@.take(i as int), time_step as int),
            decreases blocks.len() - i,
        {
            proof {
                let next = blocks@.take(i as int + 1);
                assert(next.drop_last() =~= blocks@.take(i as int));
                assert(next.last() == blocks@[i as int]);
            }
            self.apply_block(&blocks[i], time_step);
            i += 1;
        }
        proof {
            assert(blocks@.take(i as int) =~= blocks@);
        }
    }

    fn apply_speed_limit(&mut self)
        requires
            old(self).wf(),
        ensures
            *final(self) == old(self).after_speed_limit(),
            final(self).wf(),
    {
        if self.velocity.length() > self.tuning.term_spd {
            self.velocity = self.velocity.unit() * self.tuning.term_spd;
        }
    }

    /// Advances the player by one tick of `time_step`, where 1.0 is one
    /// frame at sixty frames per second.
    pub fn update(&mut self, blocks: &Vec<Block>, gravity: i64, time_step: i64)
        requires
            old(self).wf(),
            all_wf(blocks@),
        ensures
            *final(self) == old(self).after_tick(blocks@, gravity as int, time_step as int),
            final(self).wf(),
    {
        self.apply_drag(time_step);
        self.apply_thrust(time_step);
        self.apply_gravity(gravity, time_step);
        self.apply_grapple(blocks, time_step);
        self.apply_collisions(blocks, time_step);
        self.apply_speed_limit();
        self.position = self.position + self.velocity * time_step;
    }

    /// Starts going in a direction, or jumps.
    pub fn go(&mut self, go: Go)
        requires
            old(self).wf(),
        ensures
            *final(self) == old(self).after_go(go),
            final(self).wf(),
    {
        match go {
            Go::Left => {
                self.h_vel = -self.tuning.move_acc;
            },
            Go::Forward => {
                self.d_vel = self.tuning.move_acc;
            },
            Go::Right => {
                self.h_vel = self.tuning.move_acc;
            },
            Go::Back => {
                self.d_vel = -self.tuning.move_acc;
            },
            Go::Jump => {
                if self.on_ground {
                    self.velocity.y = self.tuning.jump_spd;
                    self.on_ground = false;
                }
            },
        }
    }

    /// Stops going in a direction, unless the player has since been told to
    /// go the other way.
    pub fn stop(&mut self, go: Go)
        requires
            old(self).wf(),
        ensures
            *final(self) == old(self).after_stop(go),
            final(self).wf(),
    {
        match go {
            Go::Left => {
                if self.h_vel == -self.tuning.move_acc {
                    self.h_vel = 0;
                }
            },
            Go::Forward => {
                if self.d_vel == self.tuning.move_acc {
                    self.d_vel = 0;
                }
            },
            Go::Right => {
                if self.h_vel == self.tuning.move_acc {
                    self.h_vel = 0;
                }
            },
            Go::Back => {
                if self.d_vel == -self.tuning.move_acc {
                    self.d_vel = 0;
                }
            },
            Go::Jump => {},
        }
    }

    /// Turns the look by a movement of the mouse.
    pub fn mouse_look(&mut self, movement_x: i64, movement_y: i64)
        requires
            old(self).wf(),
        ensures
            *final(self) == old(self).after_look(movement_x as int, movement_y as int),
            final(self).wf(),
    {
        let turn: i64 = mul_fixed(movement_x, self.tuning.look_spd);
        let tilt: i64 = -mul_fixed(movement_y, self.tuning.look_spd);
        self.theta = saturate(self.theta as i128 + turn as i128);
        let pitch: i64 = self.phi + tilt;
        if -QUARTER_TURN < pitch && pitch < QUARTER_TURN {
            self.phi = pitch;
        }
    }

    /// The position as a list of three coordinates.
    pub fn position(&self) -> (r: Vec<i64>)
        ensures
            r@ == seq![self.position.x, self.position.y, self.position.z],
    {
        self.position.to_vec()
    }

    /// The yaw.
    pub fn theta(&self) -> (r: i64)
        ensures
            r == self.theta,
    {
        self.theta
    }

    /// The pitch.
    pub fn phi(&self) -> (r: i64)
        ensures
            r == self.phi,
    {
        self.phi
    }
}

/// Whether every player of the sequence is well formed.
pub open spec fn all_players_wf(players: Seq<Player>) -> bool {
    forall|i: int| 0 <= i < players.len() ==> (#[trigger] players[i]).wf()
}

impl AABB for Player {
    open spec fn in_world(&self) -> bool {
        true
    }

    open spec fn lower(&self) -> Vec3 {
        self.least()
    }

    open spec fn upper(&self) -> Vec3 {
        self.greatest()
    }

    fn min(&self) -> (r: Vec3) {
        self.position - self.dims / TWO
    }

    fn max(&self) -> (r: Vec3) {
        self.position + self.dims / TWO
    }
}

} // verus!
