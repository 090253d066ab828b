use navigator::level::starting_level;
use navigator::playback::{replay, Playback, TICKS_PER_COMMAND};
use navigator::robot::{Direction, Robot, RobotCommand};
use navigator::screen::{
    texture_name, tile_to_screen_pos, tile_to_screen_pos_centered, CELL_SIZE, HALF_CELL,
};
use navigator::world::{Tile, World};

fn frames(playback: &mut Playback, count: usize) {
    for _ in 0..count {
        playback.update(false);
    }
}

#[test]
fn starting_level_layout() {
    let (world, robot) = starting_level();
    assert_eq!((world.width(), world.height()), (11, 11));
    assert_eq!(world.exit_position(), (10, 5));
    assert_eq!(robot, Robot::new(1, 5, Direction::Right));
    for y in 0..11u8 {
        for x in 0..11u8 {
            let expected = if (x, y) == (10, 5) {
                Tile::Exit
            } else if x == 0 || y == 0 || x == 10 || y == 10 {
                Tile::Wall
            } else {
                Tile::Ground
            };
            assert_eq!(world.get_tile((x, y)), expected);
        }
    }
}

#[test]
fn replay_of_an_empty_log_is_the_start() {
    let world = World::new((3, 3), (2, 2)).unwrap();
    let start = Robot::new(1, 1, Direction::Left);
    assert_eq!(replay(&world, start, &vec![]), start);
}

#[test]
fn replay_goes_on_after_a_blocked_move() {
    let world = World::new((3, 3), (2, 2)).unwrap();
    let log = vec![
        RobotCommand::Forward,
        RobotCommand::Forward,
        RobotCommand::Scan,
        RobotCommand::Left,
        RobotCommand::Forward,
        RobotCommand::End,
    ];
    assert_eq!(
        replay(&world, Robot::new(1, 1, Direction::Left), &log),
        Robot::new(0, 2, Direction::Down)
    );
}

#[test]
fn playback_starts_paused_and_waits() {
    let (world, robot) = starting_level();
    let mut playback = Playback::new(world, robot, vec![RobotCommand::Forward]);
    assert_eq!(playback.commands(), &vec![RobotCommand::Forward]);
    assert!(playback.is_paused());
    assert!(!playback.has_ended());
    frames(&mut playback, 100);
    assert_eq!(playback.command_index(), 0);
    assert_eq!(playback.robot(), robot);
}

#[test]
fn playback_shows_one_command_per_period() {
    assert_eq!(TICKS_PER_COMMAND, 30);
    let (world, robot) = starting_level();
    let log = vec![RobotCommand::Forward, RobotCommand::Left, RobotCommand::Forward];
    let mut playback = Playback::new(world, robot, log);
    playback.update(true);
    assert!(!playback.is_paused());
    assert_eq!(playback.command_index(), 0);
    frames(&mut playback, 28);
    assert_eq!(playback.command_index(), 0);
    frames(&mut playback, 1);
    assert_eq!(playback.command_index(), 1);
    assert_eq!(playback.robot(), Robot::new(2, 5, Direction::Right));
    frames(&mut playback, 30);
    assert_eq!(playback.command_index(), 2);
    assert_eq!(playback.robot().facing, Direction::Up);
    frames(&mut playback, 30);
    assert_eq!(playback.command_index(), 3);
    assert_eq!((playback.robot().x, playback.robot().y), (2, 4));
    assert!(!playback.has_ended());
    frames(&mut playback, 90);
    assert_eq!(playback.command_index(), 3);
}

#[test]
fn pausing_holds_the_clock() {
    let (world, robot) = starting_level();
    let mut playback = Playback::new(world, robot, vec![RobotCommand::Forward]);
    playback.update(true);
    frames(&mut playback, 20);
    playback.update(true);
    assert!(playback.is_paused());
    frames(&mut playback, 50);
    assert_eq!(playback.command_index(), 0);
    playback.update(true);
    frames(&mut playback, 7);
    assert_eq!(playback.command_index(), 0);
    frames(&mut playback, 1);
    assert_eq!(playback.command_index(), 1);
}

#[test]
fn scanning_is_shown_for_one_command() {
    let (world, robot) = starting_level();
    let log = vec![RobotCommand::Scan, RobotCommand::Left];
    let mut playback = Playback::new(world, robot, log);
    playback.advance();
    assert!(playback.robot().scanning);
    assert_eq!((playback.robot().x, playback.robot().y), (1, 5));
    playback.advance();
    assert!(!playback.robot().scanning);
}

#[test]
fn playback_ends_on_end() {
    let (world, robot) = starting_level();
    let log = vec![RobotCommand::End, RobotCommand::Forward];
    let mut playback = Playback::new(world, robot, log);
    playback.advance();
    assert!(playback.has_ended());
    assert_eq!(playback.command_index(), 1);
    playback.advance();
    assert_eq!(playback.command_index(), 1);
    assert_eq!(playback.robot(), robot);
}

#[test]
fn playback_ends_on_the_exit() {
    let (world, robot) = starting_level();
    let mut playback = Playback::new(world, robot, vec![RobotCommand::Forward; 12]);
    for _ in 0..12 {
        playback.advance();
    }
    assert!(playback.has_ended());
    assert_eq!(playback.command_index(), 9);
    assert_eq!((playback.robot().x, playback.robot().y), (10, 5));
    assert_eq!(playback.world().exit_position(), (10, 5));
}

#[test]
fn playback_goes_on_after_a_blocked_move() {
    let (world, robot) = starting_level();
    let log = vec![RobotCommand::Left, RobotCommand::Left, RobotCommand::Forward, RobotCommand::Right];
    let mut playback = Playback::new(world, robot, log);
    for _ in 0..4 {
        playback.advance();
    }
    assert!(!playback.has_ended());
    assert_eq!(playback.command_index(), 4);
    assert_eq!(playback.robot(), Robot::new(1, 5, Direction::Up));
}

#[test]
fn cells_are_thirty_two_pixels_apart() {
    assert_eq!(CELL_SIZE, 32);
    assert_eq!(tile_to_screen_pos(0, 0), (0, 0));
    assert_eq!(tile_to_screen_pos(3, 7), (96, 224));
    assert_eq!(tile_to_screen_pos(255, 255), (8160, 8160));
}

#[test]
fn cell_centre_is_sixteen_pixels_in() {
    assert_eq!(HALF_CELL, 16);
    assert_eq!(tile_to_screen_pos_centered(0, 0), (16, 16));
    assert_eq!(tile_to_screen_pos_centered(1, 5), (48, 176));
    assert_eq!(tile_to_screen_pos_centered(255, 0), (8176, 16));
}

#[test]
fn each_tile_has_its_texture() {
    assert_eq!(texture_name(Tile::Ground), "ground");
    assert_eq!(texture_name(Tile::Exit), "exit");
    assert_eq!(texture_name(Tile::Wall), "wall");
}

#[test]
fn caption_follows_the_state() {
    let (world, robot) = starting_level();
    let mut playback = Playback::new(world, robot, vec![RobotCommand::End]);
    assert_eq!(playback.caption(), "[Space] Paused");
    playback.update(true);
    assert_eq!(playback.caption(), "[Space] Playing");
    frames(&mut playback, 29);
    assert_eq!(playback.caption(), "[Escape] End");
    playback.update(true);
    assert_eq!(playback.caption(), "[Escape] End");
}
