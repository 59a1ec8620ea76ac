use grapple_world::block::Block;
use grapple_world::fixed::{LIMIT, SCALE};
use grapple_world::grapple::Grapple;
use grapple_world::player::{Go, Player};
use grapple_world::universe::{
    find_invalid, parse_blocks, time_step_of, Input, LevelError, Universe, GRAVITY,
};
use grapple_world::vec3::Vec3;

const FRAME: i64 = 16_666_667;

fn floor_data() -> Vec<i64> {
    vec![-10 * SCALE, -SCALE, -10 * SCALE, 20 * SCALE, SCALE, 25 * SCALE]
}

fn goal() -> Block {
    Block::new(Vec3::new(4_500_000, 15_300_000, 64 * SCALE), Vec3::new(3 * SCALE, 3 * SCALE, 2 * SCALE))
}

fn start() -> Vec3 {
    Vec3::new(2 * SCALE, 1_500_000, -5 * SCALE)
}

fn world() -> Universe {
    Universe::new(floor_data(), goal(), start()).unwrap()
}

fn error_of(r: Result<Universe, LevelError>) -> LevelError {
    match r {
        Ok(_) => panic!("the level was accepted"),
        Err(e) => e,
    }
}

#[test]
fn new_world_holds_the_level() {
    let u = world();
    assert_eq!(
        u.blocks,
        vec![Block::new(
            Vec3::new(-10 * SCALE, -SCALE, -10 * SCALE),
            Vec3::new(20 * SCALE, SCALE, 25 * SCALE)
        )]
    );
    assert_eq!(u.win_block, goal());
    assert_eq!(u.start_pos, start());
    assert_eq!(u.gravity, GRAVITY);
    assert_eq!(u.gravity, -10_000);
    assert_eq!(u.players, vec![Player::new(start())]);
}

#[test]
fn parse_blocks_takes_six_numbers_to_a_block() {
    let data: Vec<i64> = (1..=12).collect();
    assert_eq!(
        parse_blocks(&data),
        vec![
            Block::new(Vec3::new(1, 2, 3), Vec3::new(4, 5, 6)),
            Block::new(Vec3::new(7, 8, 9), Vec3::new(10, 11, 12)),
        ]
    );
    assert_eq!(parse_blocks(&Vec::new()), Vec::new());
}

#[test]
fn parse_blocks_ignores_numbers_left_over() {
    let data: Vec<i64> = (1..=11).collect();
    assert_eq!(parse_blocks(&data), vec![Block::new(Vec3::new(1, 2, 3), Vec3::new(4, 5, 6))]);
    let short: Vec<i64> = vec![1, 2, 3, 4, 5];
    assert_eq!(parse_blocks(&short), Vec::new());
    let mut with_tail = floor_data();
    with_tail.push(-1);
    with_tail.push(LIMIT + 1);
    assert_eq!(Universe::new(with_tail, goal(), start()).unwrap().blocks.len(), 1);
}

#[test]
fn find_invalid_gives_the_first_faulty_block() {
    let good = Block::new(Vec3::zero(), Vec3::new(1, 1, 1));
    let bad = Block::new(Vec3::zero(), Vec3::new(1, -1, 1));
    assert_eq!(find_invalid(&vec![good, good]), None);
    assert_eq!(find_invalid(&vec![good, bad, bad]), Some(1));
    assert_eq!(find_invalid(&vec![bad]), Some(0));
    assert_eq!(find_invalid(&Vec::new()), None);
}

#[test]
fn new_world_refuses_a_block_with_a_negative_extent() {
    let mut data = floor_data();
    data.extend(vec![0, 0, 0, SCALE, -1, SCALE]);
    data.extend(vec![0, 0, 0, -SCALE, SCALE, SCALE]);
    assert_eq!(error_of(Universe::new(data, goal(), start())), LevelError::InvalidBlock(1));
}

#[test]
fn new_world_refuses_a_block_out_of_range() {
    let data = vec![LIMIT + 1, 0, 0, 0, 0, 0];
    assert_eq!(error_of(Universe::new(data, goal(), start())), LevelError::InvalidBlock(0));
    let reaching = vec![LIMIT - 1, 0, 0, 2, 0, 0];
    assert_eq!(error_of(Universe::new(reaching, goal(), start())), LevelError::InvalidBlock(0));
}

#[test]
fn new_world_refuses_a_faulty_goal() {
    let bad = Block::new(Vec3::zero(), Vec3::new(0, 0, -1));
    assert_eq!(error_of(Universe::new(floor_data(), bad, start())), LevelError::InvalidWinBlock);
}

#[test]
fn new_world_refuses_a_start_out_of_range() {
    let far = Vec3::new(0, LIMIT + 1, 0);
    assert_eq!(error_of(Universe::new(floor_data(), goal(), far)), LevelError::StartOutOfRange);
}

#[test]
fn new_world_reports_the_first_fault() {
    let bad_goal = Block::new(Vec3::zero(), Vec3::new(0, 0, -1));
    let far = Vec3::new(0, LIMIT + 1, 0);
    let bad_data = vec![0, 0, 0, -1, 0, 0];
    assert_eq!(error_of(Universe::new(bad_data, bad_goal, far)), LevelError::InvalidBlock(0));
    assert_eq!(error_of(Universe::new(floor_data(), bad_goal, far)), LevelError::InvalidWinBlock);
}

#[test]
fn new_world_accepts_an_empty_level_and_a_flat_goal() {
    let flat = Block::new(Vec3::zero(), Vec3::zero());
    let u = Universe::new(Vec::new(), flat, Vec3::zero()).unwrap();
    assert!(u.blocks.is_empty());
    assert_eq!(u.players.len(), 1);
}

#[test]
fn time_step_is_one_at_sixty_frames_a_second() {
    assert_eq!(time_step_of(FRAME), SCALE);
    assert_eq!(time_step_of(8_333_333), 499_999);
    assert_eq!(time_step_of(33_333_333), 1_999_999);
    assert_eq!(time_step_of(-FRAME), -SCALE);
    assert_eq!(time_step_of(0), 0);
    assert_eq!(time_step_of(50), 3);
    assert_eq!(time_step_of(49), 2);
    assert_eq!(time_step_of(i64::MAX), LIMIT);
    assert_eq!(time_step_of(i64::MIN), -LIMIT);
}

#[test]
fn update_moves_every_player() {
    let mut u = world();
    u.players.push(Player::new(Vec3::new(0, 30 * SCALE, 0)));
    u.update(0, FRAME);
    assert_eq!(u.players[0].position, Vec3::new(2 * SCALE, 1_490_000, -5 * SCALE));
    assert_eq!(u.players[0].velocity, Vec3::new(0, -10_000, 0));
    assert_eq!(u.players[1].position, Vec3::new(0, 29_990_000, 0));
    assert_eq!(u.players[1].velocity, Vec3::new(0, -10_000, 0));
    u.update(0, FRAME);
    u.update(0, FRAME);
    assert_eq!(u.players[0].position, Vec3::new(2 * SCALE, 1_440_000, -5 * SCALE));
    assert_eq!(u.players[0].velocity, Vec3::new(0, -30_000, 0));
    assert_eq!(u.players.len(), 2);
    assert_eq!(u.blocks.len(), 1);
}

#[test]
fn update_scales_with_the_elapsed_time() {
    let mut u = world();
    u.update(0, 2 * FRAME - 1);
    assert_eq!(u.players[0].velocity, Vec3::new(0, -19_999, 0));
    assert_eq!(u.players[0].position, Vec3::new(2 * SCALE, 1_460_003, -5 * SCALE));
}

#[test]
fn player_lands_and_walks_in_a_world() {
    let mut u = world();
    for _ in 0..60 {
        u.update(0, FRAME);
    }
    assert_eq!(u.players[0].position, Vec3::new(2 * SCALE, 1_010_000, -5 * SCALE));
    assert_eq!(u.players[0].velocity, Vec3::zero());
    assert!(u.players[0].on_ground);
    u.player_input(0, Input::GoForward);
    for _ in 0..100 {
        u.update(0, FRAME);
    }
    assert_eq!(u.players[0].position, Vec3::new(2 * SCALE, 1_010_000, 4_790_000));
    assert_eq!(u.players[0].velocity, Vec3::new(0, 0, 100_000));
    assert!(!u.won_level());
}

#[test]
fn player_moving_into_the_goal_has_won() {
    let mut u = world();
    u.players[0].position = Vec3::new(6 * SCALE, 16_500_000, 63_500_000);
    u.players[0].velocity = Vec3::new(0, 0, 300_000);
    assert!(u.won_level());
    u.players[0].position = Vec3::new(6 * SCALE, 16_500_000, 65 * SCALE);
    u.players[0].velocity = Vec3::new(0, -1, 0);
    assert!(u.won_level());
}

#[test]
fn player_in_the_open_has_not_won() {
    let mut u = world();
    assert!(!u.won_level());
    u.players[0].velocity = Vec3::new(0, 0, 300_000);
    assert!(!u.won_level());
    u.players[0].position = Vec3::new(6 * SCALE, 16_500_000, 63_500_000);
    u.players[0].velocity = Vec3::new(0, 0, 200_000);
    assert!(!u.won_level());
    u.players[0].velocity = Vec3::new(0, 0, -300_000);
    assert!(!u.won_level());
}

#[test]
fn player_at_rest_in_the_goal_has_not_won() {
    let mut u = world();
    u.players[0].position = Vec3::new(6 * SCALE, 16_500_000, 65 * SCALE);
    assert!(!u.won_level());
}

#[test]
fn only_the_first_player_can_win() {
    let mut u = world();
    let mut other = Player::new(Vec3::new(6 * SCALE, 16_500_000, 63_500_000));
    other.velocity = Vec3::new(0, 0, 300_000);
    u.players.push(other);
    assert!(!u.won_level());
}

#[test]
fn restart_puts_a_fresh_player_at_the_start() {
    let mut u = world();
    u.players[0].position = Vec3::new(7 * SCALE, 40 * SCALE, 7 * SCALE);
    u.players[0].velocity = Vec3::new(100_000, -300_000, 50_000);
    u.players[0].theta = 1_000_000;
    u.players[0].phi = -500_000;
    u.players[0].on_ground = false;
    u.player_input(0, Input::GoLeft);
    u.cast_grapple();
    u.pull_grapple();
    assert!(u.players[0].grapple.is_some());
    u.restart();
    assert_eq!(u.players[0].position, start());
    assert_eq!(u.players[0].velocity, Vec3::zero());
    assert!(u.players[0].grapple.is_none());
    assert_eq!(u.players[0], Player::new(start()));
    assert_eq!(u.players.len(), 1);
    assert_eq!(u.blocks.len(), 1);
    assert_eq!(u.win_block, goal());
    assert_eq!(u.start_pos, start());
}

#[test]
fn restart_leaves_the_other_players() {
    let mut u = world();
    let mut other = Player::new(Vec3::new(0, 30 * SCALE, 0));
    other.velocity = Vec3::new(1, 2, 3);
    u.players.push(other);
    u.update(0, FRAME);
    let second = u.players[1];
    u.restart();
    assert_eq!(u.players[0], Player::new(start()));
    assert_eq!(u.players[1], second);
}

#[test]
fn player_input_hands_each_command_on() {
    let mut u = world();
    u.player_input(0, Input::GoLeft);
    assert_eq!(u.players[0].h_vel, -40_000);
    u.player_input(0, Input::StopLeft);
    assert_eq!(u.players[0].h_vel, 0);
    u.player_input(0, Input::GoRight);
    assert_eq!(u.players[0].h_vel, 40_000);
    u.player_input(0, Input::StopLeft);
    assert_eq!(u.players[0].h_vel, 40_000);
    u.player_input(0, Input::StopRight);
    assert_eq!(u.players[0].h_vel, 0);
    u.player_input(0, Input::GoForward);
    assert_eq!(u.players[0].d_vel, 40_000);
    u.player_input(0, Input::StopForward);
    assert_eq!(u.players[0].d_vel, 0);
    u.player_input(0, Input::GoBack);
    assert_eq!(u.players[0].d_vel, -40_000);
    u.player_input(0, Input::StopBack);
    assert_eq!(u.players[0].d_vel, 0);
    u.player_input(0, Input::Jump);
    assert_eq!(u.players[0].velocity, Vec3::zero());
    u.players[0].on_ground = true;
    u.player_input(0, Input::Jump);
    assert_eq!(u.players[0].velocity, Vec3::new(0, 200_000, 0));
    assert!(!u.players[0].on_ground);
    u.player_input(0, Input::Cast);
    assert_eq!(
        u.players[0].grapple,
        Some(Grapple::new(start(), Vec3::new(2 * SCALE, 1_500_000, -4 * SCALE)))
    );
    u.player_input(0, Input::Pull);
    assert!(u.players[0].pulling);
    u.player_input(0, Input::Release);
    assert!(!u.players[0].pulling);
    assert!(u.players[0].grapple.is_some());
    u.player_input(0, Input::Cast);
    assert!(u.players[0].grapple.is_none());
}

#[test]
fn player_input_reaches_the_player_named() {
    let mut u = world();
    u.players.push(Player::new(Vec3::zero()));
    u.player_input(1, Input::GoBack);
    assert_eq!(u.players[0], Player::new(start()));
    assert_eq!(u.players[1].d_vel, -40_000);
    u.mouse_look(1, 100 * SCALE, 50 * SCALE);
    assert_eq!(u.players[0], Player::new(start()));
    assert_eq!(u.players[1].theta(), 80_000);
    assert_eq!(u.players[1].phi(), -40_000);
}

#[test]
fn shortcuts_act_on_the_first_player() {
    let mut u = world();
    u.players.push(Player::new(Vec3::zero()));
    u.go(Go::Left);
    u.go(Go::Forward);
    assert_eq!((u.players[0].h_vel, u.players[0].d_vel), (-40_000, 40_000));
    u.stop(Go::Left);
    u.stop(Go::Back);
    assert_eq!((u.players[0].h_vel, u.players[0].d_vel), (0, 40_000));
    u.cast_grapple();
    assert!(u.players[0].grapple.is_some());
    u.pull_grapple();
    assert!(u.players[0].pulling);
    u.release_grapple();
    assert!(!u.players[0].pulling);
    u.cast_grapple();
    assert!(u.players[0].grapple.is_none());
    u.mouse_look(0, 10 * SCALE, 0);
    assert_eq!(u.players[0].theta(), 8_000);
    assert_eq!(u.players[1], Player::new(Vec3::zero()));
}

#[test]
fn level_errors_describe_themselves() {
    assert_eq!(
        LevelError::InvalidBlock(3).describe(),
        "a block has a negative extent or a corner out of range"
    );
    assert_eq!(
        LevelError::InvalidWinBlock.describe(),
        "the goal has a negative extent or a corner out of range"
    );
    assert_eq!(LevelError::StartOutOfRange.describe(), "the start is out of range");
}

#[test]
fn valid_world_stays_valid() {
    let mut u = world();
    assert!(u.is_valid());
    u.cast_grapple();
    u.pull_grapple();
    for _ in 0..100 {
        u.update(0, FRAME);
        assert!(u.is_valid());
    }
    u.players[0].velocity = Vec3::new(LIMIT + 1, 0, 0);
    assert!(!u.is_valid());
    u.restart();
    assert!(u.is_valid());
    u.blocks.push(Block::new(Vec3::zero(), Vec3::new(-1, 0, 0)));
    assert!(!u.is_valid());
}
