use grapple_world::block::Block;
use grapple_world::fixed::SCALE;
use grapple_world::graphics::{draw_world, get_block_vertices, Graphics};
use grapple_world::player::Player;
use grapple_world::universe::Universe;
use grapple_world::vec3::Vec3;

const S: i64 = SCALE;
const HALF: i64 = 500_000;

fn floor() -> Block {
    Block::new(Vec3::new(-10 * S, -S, -10 * S), Vec3::new(20 * S, S, 25 * S))
}

fn goal() -> Block {
    Block::new(Vec3::new(4_500_000, 15_300_000, 64 * S), Vec3::new(3 * S, 3 * S, 2 * S))
}

fn three_blocks() -> Vec<Block> {
    vec![
        floor(),
        Block::new(Vec3::zero(), Vec3::new(S, S, S)),
        Block::new(Vec3::new(5 * S, 0, 0), Vec3::new(S, 2 * S, S)),
    ]
}

fn two_players() -> Vec<Player> {
    let mut first = Player::new(Vec3::new(2 * S, 1_500_000, -5 * S));
    first.theta = 1_000_000;
    first.phi = 200_000;
    let mut second = Player::new(Vec3::new(0, 30 * S, 0));
    second.theta = 500_000;
    second.phi = -250_000;
    second.cast_grapple();
    vec![first, second]
}

fn pattern_from(turn: usize) -> Vec<i64> {
    let pattern: [i64; 24] = [
        S, 0, 0, S, 0, S, 0, S, 0, 0, S, S, S, S, 0, S, S, 0, S, S, 0, S, S, S,
    ];
    (0..24).map(|k| pattern[(turn * 4 + k) % 24]).collect()
}

#[test]
fn block_vertices_go_round_the_six_faces() {
    let vertices = get_block_vertices(&Vec3::new(1, 2, 3), &Vec3::new(10, 20, 30));
    assert_eq!(
        vertices,
        vec![
            1, 2, 3, 11, 2, 3, 11, 22, 3, 1, 22, 3, 1, 2, 3, 11, 2, 3, 11, 2, 33, 1, 2, 33, 1, 2,
            3, 1, 2, 33, 1, 22, 33, 1, 22, 3, 11, 22, 33, 1, 22, 33, 1, 2, 33, 11, 2, 33, 11, 22,
            33, 1, 22, 33, 1, 22, 3, 11, 22, 3, 11, 22, 33, 11, 22, 3, 11, 2, 3, 11, 2, 33
        ]
    );
}

#[test]
fn new_graphics_are_empty() {
    let g = Graphics::new();
    assert!(g.positions().is_empty());
    assert!(g.colors().is_empty());
    assert!(g.indices().is_empty());
    assert!(g.cam_pos().is_empty());
    assert_eq!(g.cam_theta(), 0);
    assert_eq!(g.cam_phi(), 0);
}

#[test]
fn graphics_update_replaces_everything() {
    let mut g = Graphics::new();
    g.update(vec![1, 2, 3], vec![4, 5, 6, 7], vec![0, 0, 0], vec![8, 9, 10], 11, -12);
    assert_eq!(g.positions(), vec![1, 2, 3]);
    assert_eq!(g.colors(), vec![4, 5, 6, 7]);
    assert_eq!(g.indices(), vec![0, 0, 0]);
    assert_eq!(g.cam_pos(), vec![8, 9, 10]);
    assert_eq!(g.cam_theta(), 11);
    assert_eq!(g.cam_phi(), -12);
    let copy = g.copy();
    assert_eq!(copy.positions, g.positions);
    assert_eq!(copy.colors, g.colors);
    assert_eq!(copy.indices, g.indices);
    assert_eq!(copy.cam_pos, g.cam_pos);
    assert_eq!((copy.cam_theta, copy.cam_phi), (11, -12));
}

#[test]
fn scene_of_one_block_seen_by_the_only_player() {
    let players = vec![Player::new(Vec3::new(2 * S, 1_500_000, -5 * S))];
    let g = draw_world(&vec![floor()], &goal(), &players, 0);
    assert_eq!(g.positions.len(), 144);
    assert_eq!(g.indices.len(), 72);
    assert_eq!(
        g.positions[..12],
        [
            -10 * S, -S, -10 * S, 10 * S, -S, -10 * S, 10 * S, 0, -10 * S, -10 * S, 0, -10 * S
        ]
    );
    assert_eq!(g.positions[..72], get_block_vertices(&floor().origin, &floor().dims)[..]);
    assert_eq!(g.positions[72..], get_block_vertices(&goal().origin, &goal().dims)[..]);
    assert_eq!(g.indices[..6], [0, 1, 2, 0, 2, 3]);
    assert_eq!(g.indices[36..48], [24, 25, 26, 24, 26, 27, 28, 29, 30, 28, 30, 31]);
    assert_eq!(g.indices[66..], [44, 45, 46, 44, 46, 47]);
    assert_eq!(
        g.colors,
        vec![
            HALF, HALF, HALF, S, HALF, HALF, HALF, S, HALF, HALF, HALF, S, HALF, HALF, HALF, S,
            HALF, HALF, HALF, S, HALF, HALF, HALF, S
        ]
    );
    assert_eq!(g.cam_pos, vec![2 * S, 1_750_000, -5 * S]);
    assert_eq!(g.cam_theta, 0);
    assert_eq!(g.cam_phi, 0);
}

#[test]
fn scene_with_another_player_and_a_rope() {
    let g = draw_world(&three_blocks(), &goal(), &two_players(), 0);
    assert_eq!(g.positions.len(), 372);
    assert_eq!(g.colors.len(), 100);
    assert_eq!(g.indices.len(), 186);
    assert_eq!(g.colors[24..48], pattern_from(0)[..]);
    assert_eq!(g.colors[48..72], pattern_from(1)[..]);
    assert_eq!(g.colors[72..96], pattern_from(1)[..]);
    assert_eq!(g.colors[96..], [S, S, S, S]);
    assert_eq!(
        g.colors[48..72],
        [0, S, 0, S, 0, 0, S, S, S, S, 0, S, S, 0, S, S, 0, S, S, S, S, 0, 0, S]
    );
    assert_eq!(
        g.positions[288..300],
        [
            -250_000, 29 * S, -250_000, 250_000, 29 * S, -250_000, 250_000, 31 * S, -250_000,
            -250_000, 31 * S, -250_000
        ]
    );
    assert_eq!(
        g.positions[360..],
        [
            4_387, 30 * S, -2_397, -4_387, 30 * S, 2_397, 460_135, 29_752_596, 852_697, 468_909,
            29_752_596, 847_903
        ]
    );
    assert_eq!(g.indices[144..150], [96, 97, 98, 96, 98, 99]);
    assert_eq!(g.indices[180..], [120, 121, 122, 120, 122, 123]);
    assert_eq!(g.cam_pos, vec![2 * S, 1_750_000, -5 * S]);
    assert_eq!(g.cam_theta, 1_000_000);
    assert_eq!(g.cam_phi, -200_000);
}

#[test]
fn scene_seen_by_the_other_player() {
    let g = draw_world(&three_blocks(), &goal(), &two_players(), 1);
    assert_eq!(g.positions.len(), 372);
    assert_eq!(g.colors.len(), 100);
    assert_eq!(g.indices.len(), 186);
    assert_eq!(g.colors[72..96], pattern_from(0)[..]);
    assert_eq!(g.colors[96..], [S, S, S, S]);
    assert_eq!(g.positions[288..294], [1_750_000, HALF, -5_250_000, 2_250_000, HALF, -5_250_000]);
    assert_eq!(
        g.positions[360..],
        [
            4_387, 30 * S, -2_397, -4_387, 30 * S, 2_397, 460_135, 29_752_596, 852_697, 468_909,
            29_752_596, 847_903
        ]
    );
    assert_eq!(g.indices[180..], [120, 121, 122, 120, 122, 123]);
    assert_eq!(g.cam_pos, vec![0, 30_250_000, 0]);
    assert_eq!(g.cam_theta, 500_000);
    assert_eq!(g.cam_phi, 250_000);
}

#[test]
fn every_index_of_a_scene_names_a_vertex() {
    for camera in 0..2 {
        let g = draw_world(&three_blocks(), &goal(), &two_players(), camera);
        assert_eq!(g.positions.len() % 3, 0);
        let vertices = (g.positions.len() / 3) as u32;
        assert_eq!(vertices, 124);
        assert!(g.indices.iter().all(|i| *i < vertices));
        assert_eq!(*g.indices.iter().max().unwrap(), 123);
        assert_eq!(g.indices.len() % 3, 0);
    }
}

#[test]
fn world_draws_itself_on_update() {
    let data = vec![-10 * S, -S, -10 * S, 20 * S, S, 25 * S];
    let mut u = Universe::new(data, goal(), Vec3::new(2 * S, 1_500_000, -5 * S)).unwrap();
    assert!(u.graphics().positions().is_empty());
    assert!(u.is_drawable());
    u.update(0, 16_666_667);
    let g = u.graphics();
    assert_eq!(g.positions().len(), 144);
    assert_eq!(g.colors().len(), 24);
    assert_eq!(g.indices().len(), 72);
    assert_eq!(g.cam_pos(), vec![2 * S, 1_740_000, -5 * S]);
    u.players.push(Player::new(Vec3::new(0, 30 * S, 0)));
    u.cast_grapple();
    u.mouse_look(1, 100 * S, 50 * S);
    u.update(1, 16_666_667);
    let g = u.graphics();
    assert_eq!(g.positions().len(), 144 + 72 + 12);
    assert_eq!(g.colors().len(), 24 + 24 + 4);
    assert_eq!(g.indices().len(), 72 + 36 + 6);
    assert_eq!(g.cam_pos(), vec![0, 30_240_000, 0]);
    assert_eq!(g.cam_theta(), 80_000);
    assert_eq!(g.cam_phi(), 40_000);
    u.update_graphics(0);
    assert_eq!(u.graphics().positions().len(), 144 + 72 + 12);
    assert_eq!(u.graphics().cam_theta(), 0);
}

#[test]
fn world_without_blocks_cannot_be_drawn() {
    let u = Universe::new(Vec::new(), goal(), Vec3::zero()).unwrap();
    assert!(!u.is_drawable());
    assert!(u.is_valid());
}

#[test]
fn tick_moves_the_players_and_draws_nothing() {
    let data = vec![-10 * S, -S, -10 * S, 20 * S, S, 25 * S];
    let mut u = Universe::new(data, goal(), Vec3::new(2 * S, 1_500_000, -5 * S)).unwrap();
    u.tick(16_666_667);
    assert_eq!(u.players[0].position, Vec3::new(2 * S, 1_490_000, -5 * S));
    assert!(u.graphics().positions().is_empty());
    let mut empty = Universe::new(Vec::new(), goal(), Vec3::zero()).unwrap();
    empty.tick(16_666_667);
    assert_eq!(empty.players[0].velocity, Vec3::new(0, -10_000, 0));
}
