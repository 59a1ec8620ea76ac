use grapple_world::aabb::{check_box, collision, BoundingBox, AABB};
use grapple_world::block::Block;
use grapple_world::fixed::{LIMIT, SCALE};
use grapple_world::vec3::Vec3;

fn cube(x: i64, y: i64, z: i64) -> Block {
    Block::new(Vec3::new(x, y, z), Vec3::new(SCALE, SCALE, SCALE))
}

#[test]
fn boxes_apart_at_rest_do_not_collide() {
    let a = cube(0, 0, 0);
    let b = cube(5 * SCALE, 5 * SCALE, 5 * SCALE);
    assert_eq!(collision(&a, &b, &Vec3::zero()), Vec3::zero());
    let c = cube(5 * SCALE, 0, 0);
    assert_eq!(collision(&a, &c, &Vec3::zero()), Vec3::zero());
}

#[test]
fn box_moving_into_a_box_ahead_is_blocked_on_that_axis() {
    let a = cube(0, 0, 0);
    let b = cube(1_500_000, 0, 0);
    assert_eq!(collision(&a, &b, &Vec3::new(SCALE, 0, 0)), Vec3::new(-SCALE, 0, 0));
}

#[test]
fn box_moving_toward_a_box_out_of_reach_is_free() {
    let a = cube(0, 0, 0);
    let b = cube(3 * SCALE, 0, 0);
    assert_eq!(collision(&a, &b, &Vec3::new(SCALE, 0, 0)), Vec3::zero());
    assert_eq!(collision(&a, &b, &Vec3::new(-SCALE, 0, 0)), Vec3::zero());
}

#[test]
fn response_points_against_the_velocity() {
    let a = cube(0, 0, 0);
    let left = cube(-1_500_000, 0, 0);
    assert_eq!(collision(&a, &left, &Vec3::new(-SCALE, 0, 0)), Vec3::new(SCALE, 0, 0));
    let below = cube(0, -1_500_000, 0);
    assert_eq!(collision(&a, &below, &Vec3::new(0, -SCALE, 0)), Vec3::new(0, SCALE, 0));
    let above = cube(0, 1_500_000, 0);
    assert_eq!(collision(&a, &above, &Vec3::new(0, SCALE, 0)), Vec3::new(0, -SCALE, 0));
    let behind = cube(0, 0, -1_500_000);
    assert_eq!(collision(&a, &behind, &Vec3::new(0, 0, -SCALE)), Vec3::new(0, 0, SCALE));
    let ahead = cube(0, 0, 1_500_000);
    assert_eq!(collision(&a, &ahead, &Vec3::new(0, 0, SCALE)), Vec3::new(0, 0, -SCALE));
}

#[test]
fn diagonal_approach_with_equal_times_blocks_both_axes() {
    let a = cube(0, 0, 0);
    let b = cube(1_500_000, 1_500_000, 0);
    let dir = collision(&a, &b, &Vec3::new(SCALE, SCALE, 0));
    assert_eq!(dir, Vec3::new(-SCALE, -SCALE, 0));
    assert!(dir.x != 0 && dir.y != 0);
}

#[test]
fn diagonal_approach_blocks_the_axis_that_touches_first() {
    let a = cube(0, 0, 0);
    let b = cube(1_500_000, 1_500_000, 0);
    assert_eq!(collision(&a, &b, &Vec3::new(SCALE, 2 * SCALE, 0)), Vec3::new(0, -SCALE, 0));
    assert_eq!(collision(&a, &b, &Vec3::new(2 * SCALE, SCALE, 0)), Vec3::new(-SCALE, 0, 0));
}

#[test]
fn three_way_tie_blocks_all_axes() {
    let a = cube(0, 0, 0);
    let b = cube(1_500_000, 1_500_000, 1_500_000);
    assert_eq!(
        collision(&a, &b, &Vec3::new(SCALE, SCALE, SCALE)),
        Vec3::new(-SCALE, -SCALE, -SCALE)
    );
}

#[test]
fn overlapping_boxes_at_rest_report_nothing() {
    let a = cube(0, 0, 0);
    let b = cube(500_000, 500_000, 500_000);
    assert_eq!(collision(&a, &b, &Vec3::zero()), Vec3::zero());
}

#[test]
fn axis_with_zero_velocity_is_no_candidate() {
    let a = cube(0, 0, 0);
    let b = cube(500_000, 500_000, 500_000);
    assert_eq!(collision(&a, &b, &Vec3::new(0, -100_000, 0)), Vec3::new(0, SCALE, 0));
    assert_eq!(collision(&a, &b, &Vec3::new(100_000, 0, 0)), Vec3::new(-SCALE, 0, 0));
}

#[test]
fn box_resting_on_a_box_is_blocked_downward() {
    let a = cube(0, SCALE, 0);
    let b = cube(0, 0, 0);
    assert_eq!(collision(&a, &b, &Vec3::new(0, -10_000, 0)), Vec3::new(0, SCALE, 0));
    assert_eq!(collision(&a, &b, &Vec3::new(50_000, -10_000, 0)), Vec3::new(0, SCALE, 0));
}

#[test]
fn negative_velocity_counts_as_an_earlier_contact() {
    let a = cube(0, SCALE, 0);
    let b = cube(0, 0, 0);
    assert_eq!(collision(&a, &b, &Vec3::new(-50_000, -10_000, 0)), Vec3::new(SCALE, 0, 0));
}

#[test]
fn bounding_boxes_intersect_when_they_touch() {
    let a = BoundingBox::new(Vec3::new(0, 0, 0), Vec3::new(SCALE, SCALE, SCALE));
    let touching = BoundingBox::new(Vec3::new(SCALE, 0, 0), Vec3::new(SCALE, SCALE, SCALE));
    let apart = BoundingBox::new(Vec3::new(SCALE + 1, 0, 0), Vec3::new(SCALE, SCALE, SCALE));
    let inside = BoundingBox::new(Vec3::new(250_000, 250_000, 250_000), Vec3::new(1, 1, 1));
    assert!(a.intersects(&touching));
    assert!(touching.intersects(&a));
    assert!(!a.intersects(&apart));
    assert!(!apart.intersects(&a));
    assert!(a.intersects(&inside));
    assert!(a.intersects(&a));
}

#[test]
fn corners_of_a_box() {
    let b = BoundingBox::new(Vec3::new(1, 2, 3), Vec3::new(10, 20, 30));
    assert_eq!(b.min(), Vec3::new(1, 2, 3));
    assert_eq!(b.max(), Vec3::new(11, 22, 33));
    let block = Block::new(Vec3::new(-5, 0, 5), Vec3::new(5, 0, 1));
    assert_eq!(block.min(), Vec3::new(-5, 0, 5));
    assert_eq!(block.max(), Vec3::new(0, 0, 6));
}

#[test]
fn check_box_accepts_boxes_within_the_world() {
    assert!(check_box(&Vec3::new(0, 0, 0), &Vec3::new(0, 0, 0)));
    assert!(check_box(&Vec3::new(-LIMIT, -LIMIT, -LIMIT), &Vec3::new(2 * LIMIT, 2 * LIMIT, 2 * LIMIT)));
    assert!(check_box(&Vec3::new(LIMIT, 0, 0), &Vec3::new(0, SCALE, SCALE)));
}

#[test]
fn check_box_refuses_negative_extents_and_far_corners() {
    assert!(!check_box(&Vec3::new(0, 0, 0), &Vec3::new(-1, 0, 0)));
    assert!(!check_box(&Vec3::new(0, 0, 0), &Vec3::new(0, -1, 0)));
    assert!(!check_box(&Vec3::new(0, 0, 0), &Vec3::new(0, 0, -1)));
    assert!(!check_box(&Vec3::new(LIMIT + 1, 0, 0), &Vec3::new(0, 0, 0)));
    assert!(!check_box(&Vec3::new(LIMIT, 0, 0), &Vec3::new(1, 0, 0)));
    assert!(!check_box(&Vec3::new(0, 0, 1), &Vec3::new(0, 0, LIMIT)));
    assert!(!check_box(&Vec3::new(0, i64::MIN, 0), &Vec3::new(0, i64::MAX, 0)));
}

#[test]
fn block_validity() {
    assert!(Block::new(Vec3::new(0, 0, 0), Vec3::new(SCALE, SCALE, SCALE)).is_valid());
    assert!(!Block::new(Vec3::new(0, 0, 0), Vec3::new(SCALE, -SCALE, SCALE)).is_valid());
}
