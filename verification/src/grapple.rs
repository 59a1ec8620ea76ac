//! The grapple: a probe that flies from the player until it lodges in a
//! block, and from then on is an anchor toward which the player can pull.

use vstd::prelude::*;
use crate::aabb::AABB;
use crate::block::{all_wf, Block};
use crate::fixed::in_range;
use crate::vec3::Vec3;

verus! {

/// The speed at which a grapple flies, per tick.
pub const CAST_SPEED: i64 = 400_000;

/// The distance from the player beyond which an unhooked grapple is lost.
pub const GRAPPLE_LENGTH: i64 = 20_000_000;

/// The acceleration with which a hooked grapple pulls, per tick.
pub const GRAPPLE_PULL: i64 = 50_000;

#[derive(Clone, Copy, Debug, PartialEq, Eq, Structural)]
pub struct Grapple {
    /// Where the tip of the grapple is.
    pub end: Vec3,
    /// The displacement of the tip per tick while it flies.
    pub cast_vel: Vec3,
    /// Whether the tip has lodged in a block.
    pub hooked: bool,
    /// The greatest distance from the player at which the grapple may fly.
    pub length: i64,
    /// The magnitude of the pull.
    pub pull: i64,
}

/// Whether a point lies in the closed box between two corners.
pub open spec fn point_in_box(p: Vec3, lo: Vec3, hi: Vec3) -> bool {
    &&& lo.x <= p.x <= hi.x
    &&& lo.y <= p.y <= hi.y
    &&& lo.z <= p.z <= hi.z
}

/// Whether a point lies in one of the blocks.
pub open spec fn in_some_block(p: Vec3, blocks: Seq<Block>) -> bool {
    exists|i: int| 0 <= i < blocks.len() && point_in_box(p, (#[trigger] blocks[i]).lower(), blocks[i].upper())
}

impl Grapple {
    /// The tip and its velocity are within range, and the two magnitudes are
    /// positive.
    pub open spec fn wf(self) -> bool {
        &&& self.end.wf()
        &&& self.cast_vel.wf()
        &&& 0 < self.length <= crate::fixed::LIMIT
        &&& 0 < self.pull <= crate::fixed::LIMIT
    }

    /// A grapple that has just been fired from `start` toward `end`.
    pub open spec fn fired(start: Vec3, end: Vec3) -> Grapple {
        Grapple {
            end,
            cast_vel: end.minus(start).unit_spec().scaled(CAST_SPEED as int),
            hooked: false,
            length: GRAPPLE_LENGTH,
            pull: GRAPPLE_PULL,
        }
    }

    /// Where the tip is after flying for `time_step`.
    pub open spec fn flown(self, time_step: int) -> Vec3 {
        self.end.plus(self.cast_vel.scaled(time_step))
    }

    /// The grapple after one step of flight among `blocks`: the tip has
    /// advanced, and the grapple is hooked if it was or if the tip now lies
    /// in a block.
    pub open spec fn after_cast(self, blocks: Seq<Block>, time_step: int) -> Grapple {
        Grapple {
            end: self.flown(time_step),
            hooked: self.hooked || in_some_block(self.flown(time_step), blocks),
            ..self
        }
    }

    /// Whether the tip and its velocity are within range and the two
    /// magnitudes positive.
    pub fn is_valid(&self) -> (r: bool)
        ensures
            r == self.wf(),
    {
        self.end.in_bounds() && self.cast_vel.in_bounds() && 0 < self.length && self.length
            <= crate::fixed::LIMIT && 0 < self.pull && self.pull <= crate::fixed::LIMIT
    }

    /// Fires a grapple from `start` toward `end`. It starts at `end`, unhooked,
    /// and flies on in the direction from `start` to `end`.
    pub fn new(start: Vec3, end: Vec3) -> (r: Self)
        ensures
            r == Grapple::fired(start, end),
            end.wf() ==> r.wf(),
    {
        let dir: Vec3 = (end - start).unit();
        Self {
            end,
            cast_vel: dir * CAST_SPEED,
            hooked: false,
            length: GRAPPLE_LENGTH,
            pull: GRAPPLE_PULL,
        }
    }

    /// Advances the tip by one step of flight and hooks the grapple if the
    /// tip now lies in a block.
    pub fn cast(&mut self, blocks: &Vec<Block>, time_step: i64)
        requires
            all_wf(blocks@),
        ensures
            *final(self) == old(self).after_cast(blocks@, time_step as int),
            old(self).wf() ==> final(self).wf(),
    {
        let tip: Vec3 = self.end + self.cast_vel * time_step;
        self.end = tip;
        let mut found: bool = false;
        let mut i: usize = 0;
        while i < blocks.len()
            invariant
                i <= blocks.len(),
                all_wf(blocks@),
                found == in_some_block(tip, blocks@.take(i as int)),
            decreases blocks.len() - i,
        {
            let lo: Vec3 = blocks[i].min();
            let hi: Vec3 = blocks[i].max();
            let inside: bool = tip.x >= lo.x && tip.x <= hi.x && tip.y >= lo.y && tip.y <= hi.y
                && tip.z >= lo.z && tip.z <= hi.z;
            proof {
                let before = blocks@.take(i as int);
                let after = blocks@.take(i as int + 1);
                assert(after[i as int] == blocks@[i as int]);
                assert(forall|j: int| 0 <= j < i ==> after[j] == before[j]);
                if in_some_block(tip, before) {
                    let j = choose|j: int|
                        0 <= j < before.len() && point_in_box(
                            tip,
                            (#[trigger] before[j]).lower(),
                            before[j].upper(),
                        );
                    assert(after[j] == before[j]);
                }
                if in_some_block(tip, after) && !inside {
                    let j = choose|j: int|
                        0 <= j < after.len() && point_in_box(
                            tip,
                            (#[trigger] after[j]).lower(),
                            after[j].upper(),
                        );
                    assert(before[j] == after[j]);
                }
            }
            if inside {
                found = true;
            }
            i += 1;
        }
        proof {
            assert(blocks@.take(i as int) =~= blocks@);
        }
        if found {
            self.hooked = true;
        }
    }
}

} // verus!
