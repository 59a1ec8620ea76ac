//! The description of a level, as it is kept between plays.

use vstd::prelude::*;
use crate::block::{all_wf, Block};
use crate::universe::blocks_of;
use crate::vec3::Vec3;

verus! {

pub struct Level {
    /// The blocks, six numbers each: the least corner, then the extents.
    pub block_data: Vec<i64>,
    /// The goal.
    pub win_block: Block,
    /// Where players enter.
    pub start_pos: Vec3,
}

impl Level {
    /// The level describes a world that can be built.
    pub open spec fn wf(self) -> bool {
        &&& all_wf(blocks_of(self.block_data@))
        &&& self.win_block.wf()
        &&& self.start_pos.wf()
    }

    pub fn new(block_data: Vec<i64>, win_block: Block, start_pos: Vec3) -> (r: Self)
        ensures
            r.block_data@ == block_data@,
            r.win_block == win_block,
            r.start_pos == start_pos,
    {
        Self { block_data, win_block, start_pos }
    }

    /// A copy of the numbers that describe the blocks.
    pub fn block_data(&self) -> (r: Vec<i64>)
        ensures
            r@ == self.block_data@,
    {
        let copy: Vec<i64> = self.block_data.clone();
        assert(copy@ =~= self.block_data@);
        copy
    }

    pub fn start_pos(&self) -> (r: Vec3)
        ensures
            r == self.start_pos,
    {
        self.start_pos
    }

    pub fn win_block(&self) -> (r: Block)
        ensures
            r == self.win_block,
    {
        self.win_block
    }
}

} // verus!
