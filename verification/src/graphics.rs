//! The scene that a renderer draws: every block, the goal, the other
//! players and the ropes of their grapples, as vertex coordinates, colours
//! and triangle indices, and where the camera is.
//!
//! Colours are four fixed-point numbers each: red, green, blue and opacity.

use vstd::prelude::*;
use crate::block::Block;
use crate::fixed::{div_trunc, SCALE};
use crate::mesh::{block_index, get_block_indices, push_quad_indices, quad_corner};
use crate::player::{strafe_axis, Player, TWO};
use crate::trig::{cos_fixed, sin_fixed};
use crate::vec3::Vec3;

verus! {

/// Half the width of the rope of a grapple.
pub const ROPE_HALF_WIDTH: i64 = 5_000;

/// The buffers of a scene and the camera that looks at it.
pub struct Graphics {
    /// The coordinates of the vertices, three to a vertex.
    pub positions: Vec<i64>,
    /// The colours, four numbers to a colour.
    pub colors: Vec<i64>,
    /// The vertices of the triangles, three to a triangle.
    pub indices: Vec<u32>,
    /// The three coordinates of the camera.
    pub cam_pos: Vec<i64>,
    /// The yaw of the camera.
    pub cam_theta: i64,
    /// The pitch of the camera.
    pub cam_phi: i64,
}

/// What the buffers of a scene hold while it is put together.
pub struct Scene {
    pub positions: Seq<i64>,
    pub colors: Seq<i64>,
    pub indices: Seq<u32>,
    /// The number of vertices so far: the index of the next vertex.
    pub next: int,
}

/// The three coordinates of each vertex in turn.
pub open spec fn coords(vertices: Seq<Vec3>) -> Seq<i64> {
    Seq::new(
        3 * vertices.len(),
        |k: int|
            if k % 3 == 0 {
                vertices[k / 3].x
            } else if k % 3 == 1 {
                vertices[k / 3].y
            } else {
                vertices[k / 3].z
            },
    )
}

/// The twenty-four vertices of a box, four to a face: first the three faces
/// that meet at the least corner, then the three that meet at the greatest.
pub open spec fn box_vertices(origin: Vec3, dims: Vec3) -> Seq<Vec3> {
    let far = origin.plus(dims);
    let x = Vec3 { x: dims.x, y: 0, z: 0 };
    let y = Vec3 { x: 0, y: dims.y, z: 0 };
    let z = Vec3 { x: 0, y: 0, z: dims.z };
    let xy = Vec3 { x: dims.x, y: dims.y, z: 0 };
    let xz = Vec3 { x: dims.x, y: 0, z: dims.z };
    let yz = Vec3 { x: 0, y: dims.y, z: dims.z };
    seq![
        origin,
        origin.plus(x),
        origin.plus(xy),
        origin.plus(y),
        origin,
        origin.plus(x),
        origin.plus(xz),
        origin.plus(z),
        origin,
        origin.plus(z),
        origin.plus(yz),
        origin.plus(y),
        far,
        far.minus(x),
        far.minus(xy),
        far.minus(y),
        far,
        far.minus(x),
        far.minus(xz),
        far.minus(z),
        far,
        far.minus(z),
        far.minus(yz),
        far.minus(y),
    ]
}

/// The thirty-six indices of a box whose first vertex has the index `first`.
pub open spec fn box_indices(first: int) -> Seq<u32> {
    Seq::new(36, |k: int| block_index(first, k) as u32)
}

/// The six indices of a face whose first vertex has the index `first`.
pub open spec fn quad_indices(first: int) -> Seq<u32> {
    Seq::new(6, |k: int| (first + quad_corner(k)) as u32)
}

/// The `k`-th number of the six colours that the faces of boxes cycle
/// through: red, green, blue, yellow, magenta and cyan, all opaque.
pub open spec fn pattern(k: int) -> i64 {
    if k == 0 || k == 3 || k == 5 || k == 7 || k == 10 || k == 11 || k == 12 || k == 13 || k == 15
        || k == 16 || k == 18 || k == 19 || k == 21 || k == 22 || k == 23 {
        SCALE
    } else {
        0
    }
}

/// The twenty-four numbers of the colours of a box: the pattern, begun
/// `turn` colours in.
pub open spec fn pattern_row(turn: int) -> Seq<i64> {
    Seq::new(24, |k: int| pattern((turn * 4 + k) % 24))
}

/// The colours of the first box: six times an opaque grey.
pub open spec fn floor_colors() -> Seq<i64> {
    Seq::new(
        24,
        |k: int|
            if k % 4 == 3 {
                SCALE
            } else {
                (SCALE / 2) as i64
            },
    )
}

/// The four corners of the rope of a grapple, a flat strip from the player
/// to the tip.
pub open spec fn rope_vertices(player: Player, tip: Vec3) -> Seq<Vec3> {
    let side = strafe_axis(player.theta as int).scaled(ROPE_HALF_WIDTH as int);
    seq![
        player.position.plus(side),
        player.position.minus(side),
        tip.minus(side),
        tip.plus(side),
    ]
}

/// Where the camera of a player is: an eighth of the player's height above
/// the middle of the player.
pub open spec fn camera_place(player: Player) -> Vec3 {
    player.position.plus(Vec3 { x: 0, y: div_trunc(player.dims.y as int, 8) as i64, z: 0 })
}

impl Scene {
    /// The scene with nothing in it.
    pub open spec fn empty() -> Scene {
        Scene { positions: Seq::empty(), colors: Seq::empty(), indices: Seq::empty(), next: 0 }
    }

    /// The scene with the vertices and triangles of one more box.
    pub open spec fn with_box(self, origin: Vec3, dims: Vec3) -> Scene {
        Scene {
            positions: self.positions + coords(box_vertices(origin, dims)),
            indices: self.indices + box_indices(self.next),
            next: self.next + 24,
            ..self
        }
    }

    /// The scene with the vertices and triangles of each block in turn.
    pub open spec fn with_blocks(self, blocks: Seq<Block>) -> Scene
        decreases blocks.len(),
    {
        if blocks.len() == 0 {
            self
        } else {
            self.with_blocks(blocks.drop_last()).with_box(blocks.last().origin, blocks.last().dims)
        }
    }

    /// The scene with more colours.
    pub open spec fn with_colors(self, colors: Seq<i64>) -> Scene {
        Scene { colors: self.colors + colors, ..self }
    }

    /// The scene with the colours of `count` boxes, each beginning one
    /// colour further into the pattern than the one before.
    pub open spec fn with_pattern_rows(self, count: int) -> Scene
        decreases count,
    {
        if count <= 0 {
            self
        } else {
            self.with_pattern_rows(count - 1).with_colors(pattern_row(count - 1))
        }
    }

    /// The scene with the rope of a grapple, in opaque white.
    pub open spec fn with_rope(self, player: Player, tip: Vec3) -> Scene {
        Scene {
            positions: self.positions + coords(rope_vertices(player, tip)),
            colors: self.colors + seq![SCALE, SCALE, SCALE, SCALE],
            indices: self.indices + quad_indices(self.next),
            next: self.next + 4,
        }
    }

    /// The scene with what is drawn of the player with the number `index`:
    /// its box, unless the camera is its own, and the rope of its grapple, if
    /// it has one.
    pub open spec fn with_player(self, player: Player, index: int, camera: int) -> Scene {
        let boxed = if index != camera {
            self.with_box(player.least(), player.dims).with_colors(pattern_row(index))
        } else {
            self
        };
        match player.grapple {
            Some(g) => boxed.with_rope(player, g.end),
            None => boxed,
        }
    }

    /// The scene with what is drawn of each player in turn.
    pub open spec fn with_players(self, players: Seq<Player>, camera: int) -> Scene
        decreases players.len(),
    {
        if players.len() == 0 {
            self
        } else {
            self.with_players(players.drop_last(), camera).with_player(
                players.last(),
                players.len() - 1,
                camera,
            )
        }
    }

    /// The scene of a world as the player with the number `camera` sees it:
    /// the blocks, the goal, the grey of the first block and the pattern for
    /// the others, then the players.
    pub open spec fn of_world(
        blocks: Seq<Block>,
        win_block: Block,
        players: Seq<Player>,
        camera: int,
    ) -> Scene {
        Scene::empty().with_blocks(blocks).with_box(win_block.origin, win_block.dims).with_colors(
            floor_colors(),
        ).with_pattern_rows(blocks.len() - 1).with_players(players, camera)
    }
}

/// Whether a world with so many blocks and players has few enough vertices
/// for their indices to be numbered.
pub open spec fn drawable(blocks: int, players: int) -> bool {
    24 * (blocks + 1) + 28 * players <= u32::MAX
}

/// The `k`-th number of the pattern of colours.
fn pattern_at(k: usize) -> (r: i64)
    requires
        k < 24,
    ensures
        r == pattern(k as int),
{
    let colors: [i64; 24] = [
        SCALE, 0, 0, SCALE,
        0, SCALE, 0, SCALE,
        0, 0, SCALE, SCALE,
        SCALE, SCALE, 0, SCALE,
        SCALE, 0, SCALE, SCALE,
        0, SCALE, SCALE, SCALE,
    ];
    colors[k]
}

/// The colours of a box: the pattern, begun `turn` colours in.
fn pattern_colors(turn: usize) -> (r: Vec<i64>)
    requires
        turn <= 0x0fff_ffff,
    ensures
        r@ == pattern_row(turn as int),
{
    let mut colors: Vec<i64> = Vec::new();
    let mut k: usize = 0;
    while k < 24
        invariant
            k <= 24,
            turn <= 0x0fff_ffff,
            colors@ == Seq::new(k as nat, |j: int| pattern((turn * 4 + j) % 24)),
        decreases 24 - k,
    {
        colors.push(pattern_at((turn * 4 + k) % 24));
        k += 1;
        assert(colors@ =~= Seq::new(k as nat, |j: int| pattern((turn * 4 + j) % 24)));
    }
    colors
}

/// The colours of the first box.
fn grey_colors() -> (r: Vec<i64>)
    ensures
        r@ == floor_colors(),
{
    let mut colors: Vec<i64> = Vec::new();
    let mut k: usize = 0;
    while k < 24
        invariant
            k <= 24,
            colors@ == Seq::new(
                k as nat,
                |j: int|
                    if j % 4 == 3 {
                        SCALE
                    } else {
                        (SCALE / 2) as i64
                    },
            ),
        decreases 24 - k,
    {
        colors.push(if k % 4 == 3 { SCALE } else { SCALE / 2 });
        k += 1;
        assert(colors@ =~= Seq::new(
            k as nat,
            |j: int|
                if j % 4 == 3 {
                    SCALE
                } else {
                    (SCALE / 2) as i64
                },
        ));
    }
    colors
}

/// Appends the three coordinates of a vertex.
fn push_vertex(positions: &mut Vec<i64>, vertex: Vec3, Ghost(vertices): Ghost<Seq<Vec3>>)
    requires
        old(positions)@ == coords(vertices),
    ensures
        final(positions)@ == coords(vertices.push(vertex)),
{
    positions.push(vertex.x);
    positions.push(vertex.y);
    positions.push(vertex.z);
    assert(positions@ =~= coords(vertices.push(vertex)));
}

/// The coordinates of the twenty-four vertices of a box.
pub fn get_block_vertices(origin: &Vec3, dims: &Vec3) -> (r: Vec<i64>)
    ensures
        r@ == coords(box_vertices(*origin, *dims)),
{
    let o: Vec3 = *origin;
    let far: Vec3 = o + *dims;
    let x: Vec3 = Vec3::new(dims.x, 0, 0);
    let y: Vec3 = Vec3::new(0, dims.y, 0);
    let z: Vec3 = Vec3::new(0, 0, dims.z);
    let xy: Vec3 = Vec3::new(dims.x, dims.y, 0);
    let xz: Vec3 = Vec3::new(dims.x, 0, dims.z);
    let yz: Vec3 = Vec3::new(0, dims.y, dims.z);
    let mut positions: Vec<i64> = Vec::new();
    let ghost mut done: Seq<Vec3> = Seq::empty();
    assert(positions@ =~= coords(done));
    let corners: [Vec3; 24] = [
        o,
        o + x,
        o + xy,
        o + y,
        o,
        o + x,
        o + xz,
        o + z,
        o,
        o + z,
        o + yz,
        o + y,
        far,
        far - x,
        far - xy,
        far - y,
        far,
        far - x,
        far - xz,
        far - z,
        far,
        far - z,
        far - yz,
        far - y,
    ];
    assert(corners@ =~= box_vertices(*origin, *dims));
    let mut i: usize = 0;
    while i < 24
        invariant
            i <= 24,
            corners@ == box_vertices(*origin, *dims),
            done == corners@.take(i as int),
            positions@ == coords(done),
        decreases 24 - i,
    {
        push_vertex(&mut positions, corners[i], Ghost(done));
        proof {
            done = done.push(corners@[i as int]);
            assert(done =~= corners@.take(i as int + 1));
        }
        i += 1;
    }
    assert(corners@.take(24) =~= corners@);
    positions
}

/// The buffers of a scene while it is put together.
struct Buffers {
    positions: Vec<i64>,
    colors: Vec<i64>,
    indices: Vec<u32>,
    index: u32,
}

impl Buffers {
    /// The buffers hold the scene.
    spec fn hold(self, scene: Scene) -> bool {
        &&& self.positions@ == scene.positions
        &&& self.colors@ == scene.colors
        &&& self.indices@ == scene.indices
        &&& self.index == scene.next
    }

    fn new() -> (r: Self)
        ensures
            r.hold(Scene::empty()),
    {
        Buffers { positions: Vec::new(), colors: Vec::new(), indices: Vec::new(), index: 0 }
    }

    fn add_box(&mut self, origin: &Vec3, dims: &Vec3, Ghost(scene): Ghost<Scene>)
        requires
            old(self).hold(scene),
            scene.next + 24 <= u32::MAX,
        ensures
            final(self).hold(scene.with_box(*origin, *dims)),
    {
        let mut vertices: Vec<i64> = get_block_vertices(origin, dims);
        self.positions.append(&mut vertices);
        let mut more: Vec<u32> = get_block_indices(&mut self.index);
        assert(more@ =~= box_indices(scene.next));
        self.indices.append(&mut more);
    }

    fn add_colors(&mut self, colors: Vec<i64>, Ghost(scene): Ghost<Scene>)
        requires
            old(self).hold(scene),
        ensures
            final(self).hold(scene.with_colors(colors@)),
    {
        let mut more: Vec<i64> = colors;
        self.colors.append(&mut more);
    }

    fn add_rope(&mut self, player: &Player, tip: &Vec3, Ghost(scene): Ghost<Scene>)
        requires
            old(self).hold(scene),
            scene.next + 4 <= u32::MAX,
        ensures
            final(self).hold(scene.with_rope(*player, *tip)),
    {
        let h_dir: Vec3 = Vec3::new(cos_fixed(player.theta), 0, -sin_fixed(player.theta));
        let side: Vec3 = h_dir * ROPE_HALF_WIDTH;
        let ghost before = self.positions@;
        let mut corners: Vec<i64> = Vec::new();
        assert(corners@ =~= coords(Seq::<Vec3>::empty()));
        push_vertex(&mut corners, player.position + side, Ghost(Seq::empty()));
        let ghost one = seq![player.position.plus(side)];
        assert(Seq::<Vec3>::empty().push(player.position.plus(side)) =~= one);
        push_vertex(&mut corners, player.position - side, Ghost(one));
        let ghost two = one.push(player.position.minus(side));
        push_vertex(&mut corners, *tip - side, Ghost(two));
        let ghost three = two.push(tip.minus(side));
        push_vertex(&mut corners, *tip + side, Ghost(three));
        assert(three.push(tip.plus(side)) =~= rope_vertices(*player, *tip));
        self.positions.append(&mut corners);
        let ghost first = self.index;
        let ghost indices_before = self.indices@;
        push_quad_indices(&mut self.indices, &mut self.index);
        assert(self.indices@ =~= indices_before + quad_indices(first as int)) by {
            let joined = indices_before + quad_indices(first as int);
            assert forall|i: int| 0 <= i < joined.len() implies self.indices@[i] == joined[i] by {
                if i >= indices_before.len() {
                    let k = i - indices_before.len();
                    assert(self.indices@[indices_before.len() + k] == first + quad_corner(k));
                }
            }
        }
        self.colors.push(SCALE);
        self.colors.push(SCALE);
        self.colors.push(SCALE);
        self.colors.push(SCALE);
        assert(self.colors@ =~= scene.colors + seq![SCALE, SCALE, SCALE, SCALE]);
    }
}

impl Graphics {
    /// The buffers hold the scene, and the camera is that of the player.
    pub open spec fn shows(self, scene: Scene, viewer: Player) -> bool {
        &&& self.positions@ == scene.positions
        &&& self.colors@ == scene.colors
        &&& self.indices@ == scene.indices
        &&& self.cam_pos@ == seq![
            camera_place(viewer).x,
            camera_place(viewer).y,
            camera_place(viewer).z,
        ]
        &&& self.cam_theta == viewer.theta
        &&& self.cam_phi == -viewer.phi
    }

    /// Nothing has been drawn: the buffers are empty and the camera has no
    /// place yet.
    pub open spec fn blank(self) -> bool {
        &&& self.positions@.len() == 0
        &&& self.colors@.len() == 0
        &&& self.indices@.len() == 0
        &&& self.cam_pos@.len() == 0
        &&& self.cam_theta == 0
        &&& self.cam_phi == 0
    }

    /// Graphics in which nothing has been drawn.
    pub fn new() -> (r: Self)
        ensures
            r.blank(),
    {
        Self {
            positions: Vec::new(),
            colors: Vec::new(),
            indices: Vec::new(),
            cam_pos: Vec::new(),
            cam_theta: 0,
            cam_phi: 0,
        }
    }

    /// Replaces the buffers and the camera.
    pub fn update(
        &mut self,
        positions: Vec<i64>,
        colors: Vec<i64>,
        indices: Vec<u32>,
        cam_pos: Vec<i64>,
        cam_theta: i64,
        cam_phi: i64,
    )
        ensures
            final(self).positions@ == positions@,
            final(self).colors@ == colors@,
            final(self).indices@ == indices@,
            final(self).cam_pos@ == cam_pos@,
            final(self).cam_theta == cam_theta,
            final(self).cam_phi == cam_phi,
    {
        self.positions = positions;
        self.colors = colors;
        self.indices = indices;
        self.cam_pos = cam_pos;
        self.cam_theta = cam_theta;
        self.cam_phi = cam_phi;
    }

    /// A copy of the vertex coordinates.
    pub fn positions(&self) -> (r: Vec<i64>)
        ensures
            r@ == self.positions@,
    {
        let copy: Vec<i64> = self.positions.clone();
        assert(copy@ =~= self.positions@);
        copy
    }

    /// A copy of the colours.
    pub fn colors(&self) -> (r: Vec<i64>)
        ensures
            r@ == self.colors@,
    {
        let copy: Vec<i64> = self.colors.clone();
        assert(copy@ =~= self.colors@);
        copy
    }

    /// A copy of the triangle indices.
    pub fn indices(&self) -> (r: Vec<u32>)
        ensures
            r@ == self.indices@,
    {
        let copy: Vec<u32> = self.indices.clone();
        assert(copy@ =~= self.indices@);
        copy
    }

    /// A copy of the coordinates of the camera.
    pub fn cam_pos(&self) -> (r: Vec<i64>)
        ensures
            r@ == self.cam_pos@,
    {
        let copy: Vec<i64> = self.cam_pos.clone();
        assert(copy@ =~= self.cam_pos@);
        copy
    }

    /// The yaw of the camera.
    pub fn cam_theta(&self) -> (r: i64)
        ensures
            r == self.cam_theta,
    {
        self.cam_theta
    }

    /// The pitch of the camera.
    pub fn cam_phi(&self) -> (r: i64)
        ensures
            r == self.cam_phi,
    {
        self.cam_phi
    }

    /// A copy of the buffers and the camera.
    pub fn copy(&self) -> (r: Self)
        ensures
            r.positions@ == self.positions@,
            r.colors@ == self.colors@,
            r.indices@ == self.indices@,
            r.cam_pos@ == self.cam_pos@,
            r.cam_theta == self.cam_theta,
            r.cam_phi == self.cam_phi,
    {
        Self {
            positions: self.positions(),
            colors: self.colors(),
            indices: self.indices(),
            cam_pos: self.cam_pos(),
            cam_theta: self.cam_theta,
            cam_phi: self.cam_phi,
        }
    }
}

/// What is drawn of a player puts at most twenty-eight vertices into the
/// scene.
proof fn lemma_vertices_so_far(scene: Scene, player: Player, index: int, camera: int)
    ensures
        scene.next <= scene.with_player(player, index, camera).next <= scene.next + 28,
{
}

impl Scene {
    /// There are three coordinates to each vertex, and every index names a
    /// vertex of the scene.
    pub open spec fn sound(self) -> bool {
        &&& 0 <= self.next <= u32::MAX
        &&& self.positions.len() == 3 * self.next
        &&& forall|k: int| 0 <= k < self.indices.len() ==> #[trigger] self.indices[k] < self.next
    }
}

/// A box leaves a sound scene sound, if its vertices can be numbered.
proof fn lemma_box_keeps_sound(scene: Scene, origin: Vec3, dims: Vec3)
    requires
        scene.sound(),
        scene.next + 24 <= u32::MAX,
    ensures
        scene.with_box(origin, dims).sound(),
{
    let after = scene.with_box(origin, dims);
    assert forall|k: int| 0 <= k < after.indices.len() implies #[trigger] after.indices[k]
        < after.next by {
        if k >= scene.indices.len() {
            let j = k - scene.indices.len();
            assert(after.indices[k] == box_indices(scene.next)[j]);
            assert(0 <= j / 6 < 6 && 0 <= j % 6 < 6);
        } else {
            assert(after.indices[k] == scene.indices[k]);
        }
    }
}

/// The blocks leave a sound scene sound, if their vertices can be numbered.
proof fn lemma_blocks_keep_sound(scene: Scene, blocks: Seq<Block>)
    requires
        scene.sound(),
        scene.next + 24 * blocks.len() <= u32::MAX,
    ensures
        scene.with_blocks(blocks).sound(),
        scene.with_blocks(blocks).next == scene.next + 24 * blocks.len(),
    decreases blocks.len(),
{
    if blocks.len() > 0 {
        lemma_blocks_keep_sound(scene, blocks.drop_last());
        lemma_box_keeps_sound(
            scene.with_blocks(blocks.drop_last()),
            blocks.last().origin,
            blocks.last().dims,
        );
    }
}

/// Colours leave a sound scene sound.
proof fn lemma_pattern_rows_keep_sound(scene: Scene, count: int)
    requires
        scene.sound(),
    ensures
        scene.with_pattern_rows(count).sound(),
        scene.with_pattern_rows(count).next == scene.next,
    decreases count,
{
    if count > 0 {
        lemma_pattern_rows_keep_sound(scene, count - 1);
    }
}

/// What is drawn of a player leaves a sound scene sound, if its vertices
/// can be numbered.
proof fn lemma_player_keeps_sound(scene: Scene, player: Player, index: int, camera: int)
    requires
        scene.sound(),
        scene.next + 28 <= u32::MAX,
    ensures
        scene.with_player(player, index, camera).sound(),
        scene.with_player(player, index, camera).next <= scene.next + 28,
{
    let boxed = if index != camera {
        scene.with_box(player.least(), player.dims).with_colors(pattern_row(index))
    } else {
        scene
    };
    if index != camera {
        lemma_box_keeps_sound(scene, player.least(), player.dims);
    }
    assert(boxed.sound());
    match player.grapple {
        Some(g) => {
            let after = boxed.with_rope(player, g.end);
            assert forall|k: int| 0 <= k < after.indices.len() implies #[trigger] after.indices[k]
                < after.next by {
                if k >= boxed.indices.len() {
                    let j = k - boxed.indices.len();
                    assert(after.indices[k] == quad_indices(boxed.next)[j]);
                } else {
                    assert(after.indices[k] == boxed.indices[k]);
                }
            }
        },
        None => {},
    }
}

/// The players leave a sound scene sound, if their vertices can be
/// numbered.
proof fn lemma_players_keep_sound(scene: Scene, players: Seq<Player>, camera: int)
    requires
        scene.sound(),
        scene.next + 28 * players.len() <= u32::MAX,
    ensures
        scene.with_players(players, camera).sound(),
        scene.with_players(players, camera).next <= scene.next + 28 * players.len(),
    decreases players.len(),
{
    if players.len() > 0 {
        lemma_players_keep_sound(scene, players.drop_last(), camera);
        lemma_player_keeps_sound(
            scene.with_players(players.drop_last(), camera),
            players.last(),
            players.len() - 1,
            camera,
        );
    }
}

/// In the scene of a world that can be drawn, there are three coordinates
/// to each vertex and every index names a vertex.
pub proof fn lemma_scene_is_sound(
    blocks: Seq<Block>,
    win_block: Block,
    players: Seq<Player>,
    camera: int,
)
    requires
        drawable(blocks.len() as int, players.len() as int),
    ensures
        Scene::of_world(blocks, win_block, players, camera).sound(),
{
    let empty = Scene::empty();
    lemma_blocks_keep_sound(empty, blocks);
    let built = empty.with_blocks(blocks);
    lemma_box_keeps_sound(built, win_block.origin, win_block.dims);
    let walled = built.with_box(win_block.origin, win_block.dims).with_colors(floor_colors());
    lemma_pattern_rows_keep_sound(walled, blocks.len() - 1);
    let painted = walled.with_pattern_rows(blocks.len() - 1);
    lemma_players_keep_sound(painted, players, camera);
}

/// The scene of a world as one of its players sees it.
pub fn draw_world(
    blocks: &Vec<Block>,
    win_block: &Block,
    players: &Vec<Player>,
    curr_player: usize,
) -> (r: Graphics)
    requires
        blocks@.len() >= 1,
        curr_player < players@.len(),
        drawable(blocks@.len() as int, players@.len() as int),
        crate::player::all_players_wf(players@),
    ensures
        r.shows(
            Scene::of_world(blocks@, *win_block, players@, curr_player as int),
            players@[curr_player as int],
        ),
{
    let mut buffers: Buffers = Buffers::new();
    let ghost mut scene: Scene = Scene::empty();
    let mut i: usize = 0;
    while i < blocks.len()
        invariant
            i <= blocks.len(),
            drawable(blocks@.len() as int, players@.len() as int),
            buffers.hold(scene),
            scene == Scene::empty().with_blocks(blocks@.take(i as int)),
            scene.next == 24 * i,
        decreases blocks.len() - i,
    {
        proof {
            let next = blocks@.take(i as int + 1);
            assert(next.drop_last() =~= blocks@.take(i as int));
            assert(next.last() == blocks@[i as int]);
        }
        buffers.add_box(&blocks[i].origin, &blocks[i].dims, Ghost(scene));
        proof {
            scene = scene.with_box(blocks@[i as int].origin, blocks@[i as int].dims);
        }
        i += 1;
    }
    proof {
        assert(blocks@.take(i as int) =~= blocks@);
    }
    buffers.add_box(&win_block.origin, &win_block.dims, Ghost(scene));
    proof {
        scene = scene.with_box(win_block.origin, win_block.dims);
    }
    buffers.add_colors(grey_colors(), Ghost(scene));
    proof {
        scene = scene.with_colors(floor_colors());
    }
    let ghost base: Scene = scene;
    let painted: usize = blocks.len() - 1;
    let mut b: usize = 0;
    while b < painted
        invariant
            b <= painted,
            painted == blocks@.len() - 1,
            drawable(blocks@.len() as int, players@.len() as int),
            buffers.hold(scene),
            scene == base.with_pattern_rows(b as int),
            scene.next == 24 * (blocks@.len() + 1),
        decreases painted - b,
    {
        buffers.add_colors(pattern_colors(b), Ghost(scene));
        proof {
            scene = scene.with_colors(pattern_row(b as int));
        }
        b += 1;
    }
    let ghost drawn: Scene = scene;
    let mut j: usize = 0;
    while j < players.len()
        invariant
            j <= players.len(),
            curr_player < players@.len(),
            drawable(blocks@.len() as int, players@.len() as int),
            buffers.hold(scene),
            scene == drawn.with_players(players@.take(j as int), curr_player as int),
            scene.next <= 24 * (blocks@.len() + 1) + 28 * j,
        decreases players.len() - j,
    {
        proof {
            let next = players@.take(j as int + 1);
            assert(next.drop_last() =~= players@.take(j as int));
            assert(next.last() == players@[j as int]);
            lemma_vertices_so_far(scene, players@[j as int], j as int, curr_player as int);
        }
        let player: &Player = &players[j];
        if j != curr_player {
            let corner: Vec3 = player.position - player.dims / TWO;
            buffers.add_box(&corner, &player.dims, Ghost(scene));
            proof {
                scene = scene.with_box(player.least(), player.dims);
            }
            buffers.add_colors(pattern_colors(j), Ghost(scene));
            proof {
                scene = scene.with_colors(pattern_row(j as int));
            }
        }
        match player.grapple {
            Some(g) => {
                buffers.add_rope(player, &g.end, Ghost(scene));
                proof {
                    scene = scene.with_rope(*player, g.end);
                }
            },
            None => {},
        }
        j += 1;
    }
    proof {
        assert(players@.take(j as int) =~= players@);
    }
    let viewer: &Player = &players[curr_player];
    let cam: Vec3 = viewer.position + Vec3::new(0, viewer.dims.y / 8, 0);
    Graphics {
        positions: buffers.positions,
        colors: buffers.colors,
        indices: buffers.indices,
        cam_pos: cam.to_vec(),
        cam_theta: viewer.theta,
        cam_phi: -viewer.phi,
    }
}

} // verus!
