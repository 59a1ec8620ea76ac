//! The levels of the game and the mode that the game is in.

use vstd::prelude::*;
use crate::block::{all_wf, Block};
use crate::level::Level;
use crate::universe::{block_at, blocks_of, loads_as, LevelError, Universe};
use crate::vec3::Vec3;

verus! {

/// What the game is showing.
#[derive(Clone, Copy, Debug, PartialEq, Eq, Structural)]
pub enum Mode {
    Menu,
    Play,
    WonLevel,
}

pub struct Master {
    pub levels: Vec<Level>,
    pub mode: Mode,
}

/// The numbers that describe the blocks of the first level.
pub open spec fn first_level_data() -> Seq<i64> {
    seq![
        -10_000_000 as i64, -1_000_000 as i64, -10_000_000 as i64, 20_000_000, 1_000_000, 25_000_000,
        -10_000_000 as i64, 0, 10_000_000, 20_000_000, 5_000_000, 2_000_000,
        -4_000_000 as i64, 0, 6_000_000, 5_000_000, 1_500_000, 4_000_000,
        -3_250_000 as i64, 1_500_000, 7_000_000, 3_000_000, 1_500_000, 3_000_000,
        -2_250_000 as i64, 3_000_000, 8_000_000, 1_500_000, 1_000_000, 2_000_000,
        -10_000_000 as i64, 2_000_000, 25_000_000, 20_000_000, 1_000_000, 25_000_000,
        -5_000_000 as i64, 11_000_000, 18_000_000, 10_000_000, 1_000_000, 8_000_000,
        -7_000_000 as i64, 4_000_000, 35_000_000, 3_000_000, 300_000, 3_000_000,
        -7_000_000 as i64, 5_500_000, 39_500_000, 3_000_000, 300_000, 3_000_000,
        -7_000_000 as i64, 9_000_000, 47_000_000, 3_000_000, 3_000_000, 300_000,
        -7_000_000 as i64, 13_000_000, 49_500_000, 3_000_000, 300_000, 3_000_000,
        -1_500_000 as i64, 20_000_000, 55_000_000, 3_000_000, 300_000, 3_000_000,
        4_500_000, 15_000_000, 60_000_000, 3_000_000, 300_000, 6_000_000,
    ]
}

/// The numbers that describe the one block of the second level.
pub open spec fn second_level_data() -> Seq<i64> {
    seq![-10_000_000 as i64, -1_000_000 as i64, -10_000_000 as i64, 20_000_000, 1_000_000, 25_000_000]
}

/// The blocks of both levels are well formed.
pub proof fn lemma_shipped_levels_wf()
    ensures
        all_wf(blocks_of(first_level_data())),
        all_wf(blocks_of(second_level_data())),
{
    let first = first_level_data();
    assert(first.len() == 78);
    assert forall|i: int| 0 <= i < 13 implies (#[trigger] blocks_of(first)[i]).wf() by {
        assert(blocks_of(first)[i] == block_at(first, i));
    }
    let second = second_level_data();
    assert(second.len() == 6);
    assert(blocks_of(second)[0] == block_at(second, 0));
}

impl Master {
    /// Every level describes a world that can be built.
    pub open spec fn wf(self) -> bool {
        forall|i: int| 0 <= i < self.levels@.len() ==> (#[trigger] self.levels@[i]).wf()
    }

    /// The game as it starts: in the menu, with its two levels.
    pub fn new() -> (r: Self)
        ensures
            r.mode == Mode::Menu,
            r.levels@.len() == 2,
            r.levels@[0].block_data@ == first_level_data(),
            r.levels@[0].win_block == (Block {
                origin: Vec3 { x: 4_500_000, y: 15_300_000, z: 64_000_000 },
                dims: Vec3 { x: 3_000_000, y: 3_000_000, z: 2_000_000 },
            }),
            r.levels@[0].start_pos == (Vec3 { x: 2_000_000, y: 1_500_000, z: -5_000_000 as i64 }),
            r.levels@[1].block_data@ == second_level_data(),
            r.levels@[1].win_block == (Block { origin: Vec3::origin(), dims: Vec3::origin() }),
            r.levels@[1].start_pos == (Vec3 { x: 2_000_000, y: 1_500_000, z: -5_000_000 as i64 }),
            r.wf(),
    {
        let level1_block_data: Vec<i64> = vec![
            -10_000_000, -1_000_000, -10_000_000, 20_000_000, 1_000_000, 25_000_000,
            -10_000_000, 0, 10_000_000, 20_000_000, 5_000_000, 2_000_000,
            -4_000_000, 0, 6_000_000, 5_000_000, 1_500_000, 4_000_000,
            -3_250_000, 1_500_000, 7_000_000, 3_000_000, 1_500_000, 3_000_000,
            -2_250_000, 3_000_000, 8_000_000, 1_500_000, 1_000_000, 2_000_000,
            -10_000_000, 2_000_000, 25_000_000, 20_000_000, 1_000_000, 25_000_000,
            -5_000_000, 11_000_000, 18_000_000, 10_000_000, 1_000_000, 8_000_000,
            -7_000_000, 4_000_000, 35_000_000, 3_000_000, 300_000, 3_000_000,
            -7_000_000, 5_500_000, 39_500_000, 3_000_000, 300_000, 3_000_000,
            -7_000_000, 9_000_000, 47_000_000, 3_000_000, 3_000_000, 300_000,
            -7_000_000, 13_000_000, 49_500_000, 3_000_000, 300_000, 3_000_000,
            -1_500_000, 20_000_000, 55_000_000, 3_000_000, 300_000, 3_000_000,
            4_500_000, 15_000_000, 60_000_000, 3_000_000, 300_000, 6_000_000,
        ];
        let level2_block_data: Vec<i64> = vec![
            -10_000_000, -1_000_000, -10_000_000, 20_000_000, 1_000_000, 25_000_000,
        ];
        assert(level1_block_data@ =~= first_level_data());
        assert(level2_block_data@ =~= second_level_data());
        let mut levels: Vec<Level> = Vec::new();
        levels.push(
            Level::new(
                level1_block_data,
                Block::new(
                    Vec3::new(4_500_000, 15_300_000, 64_000_000),
                    Vec3::new(3_000_000, 3_000_000, 2_000_000),
                ),
                Vec3::new(2_000_000, 1_500_000, -5_000_000),
            ),
        );
        levels.push(
            Level::new(
                level2_block_data,
                Block::new(Vec3::new(0, 0, 0), Vec3::new(0, 0, 0)),
                Vec3::new(2_000_000, 1_500_000, -5_000_000),
            ),
        );
        proof {
            lemma_shipped_levels_wf();
        }
        Self { levels, mode: Mode::Menu }
    }

    /// Builds the world of one of the levels.
    pub fn start(&self, level: usize) -> (r: Result<Universe, LevelError>)
        requires
            level < self.levels@.len(),
        ensures
            loads_as(
                self.levels@[level as int].block_data@,
                self.levels@[level as int].win_block,
                self.levels@[level as int].start_pos,
                r,
            ),
            self.levels@[level as int].wf() ==> r.is_ok(),
    {
        let curr_level: &Level = &self.levels[level];
        Universe::new(curr_level.block_data(), curr_level.win_block(), curr_level.start_pos())
    }

    pub fn set_mode(&mut self, new_mode: Mode)
        ensures
            final(self).mode == new_mode,
            final(self).levels@ == old(self).levels@,
    {
        self.mode = new_mode;
    }

    pub fn mode(&self) -> (r: Mode)
        ensures
            r == self.mode,
    {
        self.mode
    }
}

} // verus!
