//! The world of one level: its blocks, its goal, and the players in it.

use vstd::prelude::*;
use crate::aabb::{
    collision, collision_direction, lemma_collides_iff_moving_into, swept_overlap, AABB,
};
use crate::block::{all_wf, Block};
use crate::fixed::{clamp, div_trunc, in_range, saturate};
use crate::graphics::{draw_world, drawable, Graphics, Scene};
use crate::player::{all_players_wf, Go, Player};
use crate::vec3::Vec3;

verus! {

/// The acceleration of gravity, per tick; it points down.
pub const GRAVITY: i64 = -10_000;

/// A command from the one who plays.
#[derive(Clone, Copy, Debug, PartialEq, Eq, Structural)]
pub enum Input {
    GoLeft,
    GoForward,
    GoRight,
    GoBack,
    StopLeft,
    StopForward,
    StopRight,
    StopBack,
    Jump,
    Cast,
    Pull,
    Release,
}

/// Why the description of a level was turned down.
#[derive(Clone, Copy, Debug, PartialEq, Eq, Structural)]
pub enum LevelError {
    /// The block with this index has a negative extent or a corner out of
    /// range.
    InvalidBlock(usize),
    /// The goal has a negative extent or a corner out of range.
    InvalidWinBlock,
    /// The place where players start is out of range.
    StartOutOfRange,
}

impl LevelError {
    /// What is wrong with the level, in words.
    pub open spec fn description(self) -> Seq<char> {
        match self {
            LevelError::InvalidBlock(_) => "a block has a negative extent or a corner out of range"@,
            LevelError::InvalidWinBlock => "the goal has a negative extent or a corner out of range"@,
            LevelError::StartOutOfRange => "the start is out of range"@,
        }
    }

    /// What is wrong with the level, in words.
    pub fn describe(&self) -> (r: &'static str)
        ensures
            r@ == self.description(),
    {
        match self {
            LevelError::InvalidBlock(_) => "a block has a negative extent or a corner out of range",
            LevelError::InvalidWinBlock => "the goal has a negative extent or a corner out of range",
            LevelError::StartOutOfRange => "the start is out of range",
        }
    }
}

/// The world of one level.
pub struct Universe {
    pub players: Vec<Player>,
    /// Where players enter the level.
    pub start_pos: Vec3,
    /// The goal: a player who moves into it has won.
    pub win_block: Block,
    pub gravity: i64,
    pub blocks: Vec<Block>,
    /// The scene as it was last drawn.
    pub graphics: Graphics,
}

/// The time step of a tick that took `elapsed_time` milliseconds, where a
/// step of 1.0 is a sixtieth of a second.
pub open spec fn frame_steps(elapsed_time: int) -> int {
    clamp(div_trunc(elapsed_time * 3, 50)) as int
}

/// The block that six consecutive numbers starting at `6 * i` describe: the
/// coordinates of its least corner, then its extents.
pub open spec fn block_at(data: Seq<i64>, i: int) -> Block {
    Block {
        origin: Vec3 { x: data[6 * i], y: data[6 * i + 1], z: data[6 * i + 2] },
        dims: Vec3 { x: data[6 * i + 3], y: data[6 * i + 4], z: data[6 * i + 5] },
    }
}

/// The blocks that a list of numbers describes, six numbers to a block;
/// numbers left over at the end describe nothing.
pub open spec fn blocks_of(data: Seq<i64>) -> Seq<Block> {
    Seq::new((data.len() / 6) as nat, |i: int| block_at(data, i))
}

/// Whether `i` is the index of the first block that is not well formed.
pub open spec fn first_invalid(blocks: Seq<Block>, i: int) -> bool {
    &&& 0 <= i < blocks.len()
    &&& !blocks[i].wf()
    &&& forall|j: int| 0 <= j < i ==> (#[trigger] blocks[j]).wf()
}

/// Whether `r` is what loading a level gives: a world with the blocks that
/// the numbers describe, one fresh player at the start and nothing drawn
/// yet, or the first fault among an ill-formed block, an ill-formed goal and
/// a start out of range.
pub open spec fn loads_as(
    block_data: Seq<i64>,
    win_block: Block,
    start_pos: Vec3,
    r: Result<Universe, LevelError>,
) -> bool {
    match r {
        Ok(u) => {
            &&& all_wf(blocks_of(block_data))
            &&& win_block.wf()
            &&& start_pos.wf()
            &&& u.blocks@ == blocks_of(block_data)
            &&& u.win_block == win_block
            &&& u.start_pos == start_pos
            &&& u.gravity == GRAVITY
            &&& u.players@ == seq![Player::spawned(start_pos)]
            &&& u.graphics.blank()
            &&& u.wf()
        },
        Err(LevelError::InvalidBlock(i)) => first_invalid(blocks_of(block_data), i as int),
        Err(LevelError::InvalidWinBlock) => all_wf(blocks_of(block_data)) && !win_block.wf(),
        Err(LevelError::StartOutOfRange) => all_wf(blocks_of(block_data)) && win_block.wf()
            && !start_pos.wf(),
    }
}

/// The player after a command.
pub open spec fn commanded(player: Player, input: Input) -> Player {
    match input {
        Input::GoLeft => player.after_go(Go::Left),
        Input::GoForward => player.after_go(Go::Forward),
        Input::GoRight => player.after_go(Go::Right),
        Input::GoBack => player.after_go(Go::Back),
        Input::StopLeft => player.after_stop(Go::Left),
        Input::StopForward => player.after_stop(Go::Forward),
        Input::StopRight => player.after_stop(Go::Right),
        Input::StopBack => player.after_stop(Go::Back),
        Input::Jump => player.after_go(Go::Jump),
        Input::Cast => player.after_cast_toggle(),
        Input::Pull => Player { pulling: true, ..player },
        Input::Release => Player { pulling: false, ..player },
    }
}

/// The player after one tick; the same as `Player::after_tick`, kept folded
/// while the players are walked.
#[verifier::opaque]
spec fn ticked(player: Player, blocks: Seq<Block>, gravity: int, time_step: int) -> Player {
    player.after_tick(blocks, gravity, time_step)
}

/// The time step of a tick that took `elapsed_time` milliseconds.
pub fn time_step_of(elapsed_time: i64) -> (r: i64)
    ensures
        r == frame_steps(elapsed_time as int),
        in_range(r as int),
{
    saturate((elapsed_time as i128 * 3) / 50)
}

/// The blocks that a list of numbers describes.
pub fn parse_blocks(block_data: &Vec<i64>) -> (r: Vec<Block>)
    ensures
        r@ == blocks_of(block_data@),
{
    let count: usize = block_data.len() / 6;
    let mut blocks: Vec<Block> = Vec::new();
    let mut i: usize = 0;
    while i < count
        invariant
            i <= count,
            count == block_data.len() / 6,
            blocks@ == Seq::new(i as nat, |k: int| block_at(block_data@, k)),
        decreases count - i,
    {
        let origin: Vec3 = Vec3::new(block_data[6 * i], block_data[6 * i + 1], block_data[6 * i + 2]);
        let dims: Vec3 = Vec3::new(
            block_data[6 * i + 3],
            block_data[6 * i + 4],
            block_data[6 * i + 5],
        );
        blocks.push(Block::new(origin, dims));
        i += 1;
        assert(blocks@ =~= Seq::new(i as nat, |k: int| block_at(block_data@, k)));
    }
    blocks
}

/// The index of the first block that is not well formed, if there is one.
pub fn find_invalid(blocks: &Vec<Block>) -> (r: Option<usize>)
    ensures
        match r {
            Some(i) => first_invalid(blocks@, i as int),
            None => all_wf(blocks@),
        },
{
    let mut i: usize = 0;
    while i < blocks.len()
        invariant
            i <= blocks.len(),
            forall|j: int| 0 <= j < i ==> (#[trigger] blocks@[j]).wf(),
        decreases blocks.len() - i,
    {
        if !blocks[i].is_valid() {
            return Some(i);
        }
        i += 1;
    }
    None
}

impl Universe {
    /// There is a player, and the players, the blocks, the goal and the
    /// starting place are all well formed.
    pub open spec fn wf(self) -> bool {
        &&& self.players@.len() > 0
        &&& all_players_wf(self.players@)
        &&& all_wf(self.blocks@)
        &&& self.win_block.wf()
        &&& self.start_pos.wf()
    }

    /// Whether the two worlds differ in their players at most.
    pub open spec fn same_but_players(self, other: Universe) -> bool {
        &&& self.same_level(other)
        &&& self.graphics == other.graphics
    }

    /// Whether the two worlds are worlds of the same level: the same blocks,
    /// goal, start and gravity.
    pub open spec fn same_level(self, other: Universe) -> bool {
        &&& self.start_pos == other.start_pos
        &&& self.win_block == other.win_block
        &&& self.gravity == other.gravity
        &&& self.blocks@ == other.blocks@
    }

    /// Whether the world has a block and few enough blocks and players for
    /// the scene to be drawn.
    pub open spec fn can_draw(self) -> bool {
        &&& self.blocks@.len() >= 1
        &&& drawable(self.blocks@.len() as int, self.players@.len() as int)
    }

    /// Whether the first player is moving into the goal.
    pub open spec fn won(self) -> bool {
        collision_direction(
            self.players@[0].least(),
            self.players@[0].greatest(),
            self.win_block.lower(),
            self.win_block.upper(),
            self.players@[0].velocity,
        ) != Vec3::origin()
    }

    /// Whether there is a player and the players, the blocks, the goal and
    /// the starting place are all well formed.
    pub fn is_valid(&self) -> (r: bool)
        ensures
            r == self.wf(),
    {
        if self.players.len() == 0 || !self.win_block.is_valid() || !self.start_pos.in_bounds() {
            return false;
        }
        match find_invalid(&self.blocks) {
            Some(_) => {
                return false;
            },
            None => {},
        }
        let mut i: usize = 0;
        while i < self.players.len()
            invariant
                i <= self.players.len(),
                forall|j: int| 0 <= j < i ==> (#[trigger] self.players@[j]).wf(),
            decreases self.players.len() - i,
        {
            if !self.players[i].is_valid() {
                return false;
            }
            i += 1;
        }
        true
    }

    /// Whether the world has a block and few enough blocks and players for
    /// the scene to be drawn.
    pub fn is_drawable(&self) -> (r: bool)
        ensures
            r == self.can_draw(),
    {
        let blocks: u128 = self.blocks.len() as u128;
        let players: u128 = self.players.len() as u128;
        blocks >= 1 && 24 * (blocks + 1) + 28 * players <= u32::MAX as u128
    }

    /// Builds the world of a level from the numbers that describe its
    /// blocks, its goal and the place where players start, with one player at
    /// that place. The level is turned down if a block or the goal has a
    /// negative extent or a corner out of range, or if the start is out of
    /// range; the first fault found in this order is reported.
    pub fn new(block_data: Vec<i64>, win_block: Block, start_pos: Vec3) -> (r: Result<
        Self,
        LevelError,
    >)
        ensures
            loads_as(block_data@, win_block, start_pos, r),
    {
        let blocks: Vec<Block> = parse_blocks(&block_data);
        match find_invalid(&blocks) {
            Some(i) => {
                return Err(LevelError::InvalidBlock(i));
            },
            None => {},
        }
        if !win_block.is_valid() {
            return Err(LevelError::InvalidWinBlock);
        }
        if !start_pos.in_bounds() {
            return Err(LevelError::StartOutOfRange);
        }
        let mut players: Vec<Player> = Vec::new();
        players.push(Player::new(start_pos));
        assert(players@ =~= seq![Player::spawned(start_pos)]);
        Ok(Self { players, start_pos, win_block, gravity: GRAVITY, blocks, graphics: Graphics::new() })
    }

    /// Whether the first player, moving on with its velocity, collides with
    /// the goal.
    pub fn won_level(&self) -> (r: bool)
        requires
            self.wf(),
        ensures
            r == self.won(),
    {
        let player: &Player = &self.players[0];
        let dir: Vec3 = collision(player, &self.win_block, &player.velocity);
        dir.length() > 0
    }

    /// Puts a fresh player at the start in place of the first player.
    pub fn restart(&mut self)
        requires
            old(self).wf(),
        ensures
            final(self).players@ == old(self).players@.update(
                0,
                Player::spawned(old(self).start_pos),
            ),
            final(self).same_but_players(*old(self)),
            final(self).wf(),
    {
        let fresh: Player = Player::new(self.start_pos);
        self.players.set(0, fresh);
    }

    /// Advances every player by one tick that took `elapsed_time`
    /// milliseconds.
    pub fn tick(&mut self, elapsed_time: i64)
        requires
            old(self).wf(),
        ensures
            final(self).players@.len() == old(self).players@.len(),
            forall|i: int|
                0 <= i < old(self).players@.len() ==> #[trigger] final(self).players@[i] == old(
                    self,
                ).players@[i].after_tick(
                    old(self).blocks@,
                    old(self).gravity as int,
                    frame_steps(elapsed_time as int),
                ),
            final(self).same_but_players(*old(self)),
            final(self).wf(),
    {
        let time_step: i64 = time_step_of(elapsed_time);
        let count: usize = self.players.len();
        let mut i: usize = 0;
        while i < count
            invariant
                i <= count,
                count == self.players@.len(),
                count == old(self).players@.len(),
                self.same_but_players(*old(self)),
                self.wf(),
                forall|j: int|
                    0 <= j < i ==> #[trigger] self.players@[j] == ticked(
                        old(self).players@[j],
                        old(self).blocks@,
                        old(self).gravity as int,
                        time_step as int,
                    ),
                forall|j: int| i <= j < count ==> #[trigger] self.players@[j] == old(self).players@[j],
            decreases count - i,
        {
            self.step_player(i, time_step);
            i += 1;
        }
        proof {
            reveal(ticked);
        }
    }

    /// Draws the scene as the player with the number `curr_player` sees it.
    pub fn update_graphics(&mut self, curr_player: usize)
        requires
            old(self).wf(),
            old(self).can_draw(),
            curr_player < old(self).players@.len(),
        ensures
            final(self).graphics.shows(
                Scene::of_world(
                    old(self).blocks@,
                    old(self).win_block,
                    old(self).players@,
                    curr_player as int,
                ),
                old(self).players@[curr_player as int],
            ),
            final(self).players@ == old(self).players@,
            final(self).same_level(*old(self)),
            final(self).wf(),
    {
        self.graphics = draw_world(&self.blocks, &self.win_block, &self.players, curr_player);
    }

    /// Advances every player by one tick that took `elapsed_time`
    /// milliseconds, and draws the scene as the player with the number
    /// `curr_player` then sees it.
    pub fn update(&mut self, curr_player: usize, elapsed_time: i64)
        requires
            old(self).wf(),
            old(self).can_draw(),
            curr_player < old(self).players@.len(),
        ensures
            final(self).players@.len() == old(self).players@.len(),
            forall|i: int|
                0 <= i < old(self).players@.len() ==> #[trigger] final(self).players@[i] == old(
                    self,
                ).players@[i].after_tick(
                    old(self).blocks@,
                    old(self).gravity as int,
                    frame_steps(elapsed_time as int),
                ),
            final(self).graphics.shows(
                Scene::of_world(
                    final(self).blocks@,
                    final(self).win_block,
                    final(self).players@,
                    curr_player as int,
                ),
                final(self).players@[curr_player as int],
            ),
            final(self).same_level(*old(self)),
            final(self).wf(),
    {
        self.tick(elapsed_time);
        self.update_graphics(curr_player);
    }

    /// Advances one player by one tick.
    fn step_player(&mut self, index: usize, time_step: i64)
        requires
            old(self).wf(),
            index < old(self).players@.len(),
        ensures
            final(self).players@ == old(self).players@.update(
                index as int,
                ticked(
                    old(self).players@[index as int],
                    old(self).blocks@,
                    old(self).gravity as int,
                    time_step as int,
                ),
            ),
            final(self).same_but_players(*old(self)),
            final(self).wf(),
    {
        let mut player: Player = self.players[index];
        player.update(&self.blocks, self.gravity, time_step);
        self.players.set(index, player);
        proof {
            reveal(ticked);
        }
    }

    /// Hands a command to one of the players.
    pub fn player_input(&mut self, curr_player: usize, input: Input)
        requires
            old(self).wf(),
            curr_player < old(self).players@.len(),
        ensures
            final(self).players@ == old(self).players@.update(
                curr_player as int,
                commanded(old(self).players@[curr_player as int], input),
            ),
            final(self).same_but_players(*old(self)),
            final(self).wf(),
    {
        let mut player: Player = self.players[curr_player];
        match input {
            Input::GoLeft => player.go(Go::Left),
            Input::GoForward => player.go(Go::Forward),
            Input::GoRight => player.go(Go::Right),
            Input::GoBack => player.go(Go::Back),
            Input::StopLeft => player.stop(Go::Left),
            Input::StopForward => player.stop(Go::Forward),
            Input::StopRight => player.stop(Go::Right),
            Input::StopBack => player.stop(Go::Back),
            Input::Jump => player.go(Go::Jump),
            Input::Cast => player.cast_grapple(),
            Input::Pull => player.pull_grapple(),
            Input::Release => player.release_grapple(),
        }
        self.players.set(curr_player, player);
    }

    /// Fires or drops the grapple of the first player.
    pub fn cast_grapple(&mut self)
        requires
            old(self).wf(),
        ensures
            final(self).players@ == old(self).players@.update(
                0,
                old(self).players@[0].after_cast_toggle(),
            ),
            final(self).same_but_players(*old(self)),
            final(self).wf(),
    {
        self.player_input(0, Input::Cast);
    }

    /// Has the first player haul on the grapple.
    pub fn pull_grapple(&mut self)
        requires
            old(self).wf(),
        ensures
            final(self).players@ == old(self).players@.update(
                0,
                (Player { pulling: true, ..old(self).players@[0] }),
            ),
            final(self).same_but_players(*old(self)),
            final(self).wf(),
    {
        self.player_input(0, Input::Pull);
    }

    /// Has the first player let go of the grapple's rope.
    pub fn release_grapple(&mut self)
        requires
            old(self).wf(),
        ensures
            final(self).players@ == old(self).players@.update(
                0,
                (Player { pulling: false, ..old(self).players@[0] }),
            ),
            final(self).same_but_players(*old(self)),
            final(self).wf(),
    {
        self.player_input(0, Input::Release);
    }

    /// Tells the first player to go in a direction, or to jump.
    pub fn go(&mut self, go: Go)
        requires
            old(self).wf(),
        ensures
            final(self).players@ == old(self).players@.update(0, old(self).players@[0].after_go(go)),
            final(self).same_but_players(*old(self)),
            final(self).wf(),
    {
        let mut player: Player = self.players[0];
        player.go(go);
        self.players.set(0, player);
    }

    /// Tells the first player to stop going in a direction.
    pub fn stop(&mut self, go: Go)
        requires
            old(self).wf(),
        ensures
            final(self).players@ == old(self).players@.update(
                0,
                old(self).players@[0].after_stop(go),
            ),
            final(self).same_but_players(*old(self)),
            final(self).wf(),
    {
        let mut player: Player = self.players[0];
        player.stop(go);
        self.players.set(0, player);
    }

    /// Turns the look of one of the players by a movement of the mouse.
    pub fn mouse_look(&mut self, curr_player: usize, movement_x: i64, movement_y: i64)
        requires
            old(self).wf(),
            curr_player < old(self).players@.len(),
        ensures
            final(self).players@ == old(self).players@.update(
                curr_player as int,
                old(self).players@[curr_player as int].after_look(
                    movement_x as int,
                    movement_y as int,
                ),
            ),
            final(self).same_but_players(*old(self)),
            final(self).wf(),
    {
        let mut player: Player = self.players[curr_player];
        player.mouse_look(movement_x, movement_y);
        self.players.set(curr_player, player);
    }

    /// A copy of the scene as it was last drawn.
    pub fn graphics(&self) -> (r: Graphics)
        ensures
            r.positions@ == self.graphics.positions@,
            r.colors@ == self.graphics.colors@,
            r.indices@ == self.graphics.indices@,
            r.cam_pos@ == self.graphics.cam_pos@,
            r.cam_theta == self.graphics.cam_theta,
            r.cam_phi == self.graphics.cam_phi,
    {
        self.graphics.copy()
    }
}

/// The first player has won exactly when it moves and, moved on by its
/// velocity, meets the goal. A player at rest has not won, wherever it is.
pub proof fn lemma_won_iff_moving_into_goal(u: Universe)
    requires
        u.wf(),
    ensures
        u.won() <==> (u.players@[0].velocity != Vec3::origin() && swept_overlap(
            u.players@[0].least(),
            u.players@[0].greatest(),
            u.win_block.lower(),
            u.win_block.upper(),
            u.players@[0].velocity,
        )),
{
    let p = u.players@[0];
    lemma_collides_iff_moving_into(
        p.least(),
        p.greatest(),
        u.win_block.lower(),
        u.win_block.upper(),
        p.velocity,
    );
}

} // verus!
