use grapple_world::block::Block;
use grapple_world::fixed::SCALE;
use grapple_world::grapple::{Grapple, CAST_SPEED, GRAPPLE_LENGTH, GRAPPLE_PULL};
use grapple_world::vec3::Vec3;

fn target() -> Vec<Block> {
    vec![Block::new(Vec3::new(3 * SCALE, -SCALE, 4 * SCALE), Vec3::new(SCALE, 2 * SCALE, SCALE))]
}

#[test]
fn new_grapple_flies_from_start_toward_end() {
    let g = Grapple::new(Vec3::zero(), Vec3::new(3 * SCALE, 0, 4 * SCALE));
    assert_eq!(g.end, Vec3::new(3 * SCALE, 0, 4 * SCALE));
    assert_eq!(g.cast_vel, Vec3::new(240_000, 0, 320_000));
    assert_eq!(g.cast_vel.length(), CAST_SPEED);
    assert!(!g.hooked);
    assert_eq!(g.length, GRAPPLE_LENGTH);
    assert_eq!(g.pull, GRAPPLE_PULL);
    assert_eq!(g.length, 20 * SCALE);
    assert_eq!(g.pull, 50_000);
}

#[test]
fn new_grapple_with_no_direction_does_not_fly() {
    let at = Vec3::new(SCALE, SCALE, SCALE);
    let g = Grapple::new(at, at);
    assert_eq!(g.cast_vel, Vec3::zero());
    assert_eq!(g.end, at);
}

#[test]
fn cast_advances_the_tip() {
    let mut g = Grapple::new(Vec3::zero(), Vec3::new(3 * SCALE, 0, 4 * SCALE));
    g.cast(&Vec::new(), SCALE);
    assert_eq!(g.end, Vec3::new(3_240_000, 0, 4_320_000));
    assert!(!g.hooked);
    g.cast(&Vec::new(), 500_000);
    assert_eq!(g.end, Vec3::new(3_360_000, 0, 4_480_000));
    assert!(!g.hooked);
}

#[test]
fn cast_hooks_when_the_tip_is_in_a_block() {
    let mut g = Grapple::new(Vec3::zero(), Vec3::new(3 * SCALE, 0, 4 * SCALE));
    g.cast(&target(), SCALE);
    assert_eq!(g.end, Vec3::new(3_240_000, 0, 4_320_000));
    assert!(g.hooked);
}

#[test]
fn cast_does_not_hook_outside_every_block() {
    let mut g = Grapple::new(Vec3::zero(), Vec3::new(3 * SCALE, 0, 4 * SCALE));
    g.cast(&target(), -SCALE);
    assert_eq!(g.end, Vec3::new(2_760_000, 0, 3_680_000));
    assert!(!g.hooked);
    g.cast(&target(), 500_000);
    assert_eq!(g.end, Vec3::new(2_880_000, 0, 3_840_000));
    assert!(!g.hooked);
}

#[test]
fn cast_hooks_on_the_face_of_a_block() {
    let blocks = vec![Block::new(Vec3::new(0, 0, 400_000), Vec3::new(0, 0, SCALE))];
    let mut g = Grapple::new(Vec3::new(0, 0, -SCALE), Vec3::zero());
    g.cast(&blocks, SCALE);
    assert_eq!(g.end, Vec3::new(0, 0, 400_000));
    assert!(g.hooked);
}

#[test]
fn hooked_grapple_stays_hooked() {
    let mut g = Grapple::new(Vec3::zero(), Vec3::new(3 * SCALE, 0, 4 * SCALE));
    g.cast(&target(), SCALE);
    assert!(g.hooked);
    g.cast(&target(), 100 * SCALE);
    assert!(g.hooked);
    g.cast(&Vec::new(), SCALE);
    assert!(g.hooked);
}

#[test]
fn cast_looks_at_every_block() {
    let far = Block::new(Vec3::new(50 * SCALE, 0, 0), Vec3::new(SCALE, SCALE, SCALE));
    let mut blocks = vec![far, far];
    blocks.extend(target());
    blocks.push(far);
    let mut g = Grapple::new(Vec3::zero(), Vec3::new(3 * SCALE, 0, 4 * SCALE));
    g.cast(&blocks, SCALE);
    assert!(g.hooked);
}
