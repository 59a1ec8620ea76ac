//! The static obstacles of a level.

use vstd::prelude::*;
use crate::aabb::{box_in_world, check_box, AABB};
use crate::vec3::Vec3;

verus! {

/// An obstacle that never moves: a box given by its least corner and its
/// extent along each axis.
#[derive(Clone, Copy, Debug, PartialEq, Eq, Structural)]
pub struct Block {
    pub origin: Vec3,
    pub dims: Vec3,
}

impl Block {
    /// No extent is negative, and both corners are within range.
    pub open spec fn wf(self) -> bool {
        box_in_world(self.origin, self.dims)
    }

    pub fn new(origin: Vec3, dims: Vec3) -> (r: Self)
        ensures
            r == (Block { origin, dims }),
    {
        Self { origin, dims }
    }

    /// Whether no extent is negative and both corners are within range.
    pub fn is_valid(&self) -> (r: bool)
        ensures
            r == self.wf(),
    {
        check_box(&self.origin, &self.dims)
    }
}

impl AABB for Block {
    open spec fn in_world(&self) -> bool {
        self.wf()
    }

    open spec fn lower(&self) -> Vec3 {
        self.origin
    }

    open spec fn upper(&self) -> Vec3 {
        Vec3 {
            x: (self.origin.x + self.dims.x) as i64,
            y: (self.origin.y + self.dims.y) as i64,
            z: (self.origin.z + self.dims.z) as i64,
        }
    }

    fn min(&self) -> (r: Vec3) {
        self.origin
    }

    fn max(&self) -> (r: Vec3) {
        Vec3::new(
            self.origin.x + self.dims.x,
            self.origin.y + self.dims.y,
            self.origin.z + self.dims.z,
        )
    }
}

/// Every block of the sequence is well formed.
pub open spec fn all_wf(blocks: Seq<Block>) -> bool {
    forall|i: int| 0 <= i < blocks.len() ==> (#[trigger] blocks[i]).wf()
}

} // verus!
