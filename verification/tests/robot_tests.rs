use navigator::robot::{Direction, Robot, RobotError};
use navigator::world::{Tile, World};

fn facing_after(start: Direction, lefts: usize, rights: usize) -> Direction {
    let mut robot = Robot::new(0, 0, start);
    for _ in 0..lefts {
        robot.left();
    }
    for _ in 0..rights {
        robot.right();
    }
    robot.facing
}

#[test]
fn new_robot_is_not_scanning() {
    let robot = Robot::new(3, 7, Direction::Up);
    assert_eq!(robot.x, 3);
    assert_eq!(robot.y, 7);
    assert!(!robot.scanning);
    assert_eq!(robot.facing, Direction::Up);
}

#[test]
fn left_turns_follow_the_cycle() {
    assert_eq!(facing_after(Direction::Left, 1, 0), Direction::Down);
    assert_eq!(facing_after(Direction::Down, 1, 0), Direction::Right);
    assert_eq!(facing_after(Direction::Right, 1, 0), Direction::Up);
    assert_eq!(facing_after(Direction::Up, 1, 0), Direction::Left);
}

#[test]
fn right_turns_follow_the_cycle_backwards() {
    assert_eq!(facing_after(Direction::Left, 0, 1), Direction::Up);
    assert_eq!(facing_after(Direction::Up, 0, 1), Direction::Right);
    assert_eq!(facing_after(Direction::Right, 0, 1), Direction::Down);
    assert_eq!(facing_after(Direction::Down, 0, 1), Direction::Left);
}

#[test]
fn four_turns_restore_the_facing() {
    for start in [Direction::Left, Direction::Right, Direction::Up, Direction::Down] {
        assert_eq!(facing_after(start, 4, 0), start);
        assert_eq!(facing_after(start, 0, 4), start);
    }
}

#[test]
fn opposite_turns_cancel() {
    for start in [Direction::Left, Direction::Right, Direction::Up, Direction::Down] {
        assert_eq!(facing_after(start, 1, 1), start);
        let mut robot = Robot::new(2, 2, start);
        robot.right();
        robot.left();
        assert_eq!(robot, Robot::new(2, 2, start));
    }
}

#[test]
fn turning_keeps_the_position() {
    let mut robot = Robot::new(4, 6, Direction::Left);
    robot.left();
    assert_eq!((robot.x, robot.y), (4, 6));
    robot.right();
    robot.right();
    assert_eq!((robot.x, robot.y), (4, 6));
}

#[test]
fn forward_position_is_one_step_ahead() {
    assert_eq!(Robot::new(3, 4, Direction::Left).get_forward_position(), (2, 4));
    assert_eq!(Robot::new(3, 4, Direction::Right).get_forward_position(), (4, 4));
    assert_eq!(Robot::new(3, 4, Direction::Up).get_forward_position(), (3, 3));
    assert_eq!(Robot::new(3, 4, Direction::Down).get_forward_position(), (3, 5));
}

#[test]
fn forward_position_may_leave_the_coordinate_range() {
    assert_eq!(Robot::new(0, 0, Direction::Left).get_forward_position(), (-1, 0));
    assert_eq!(Robot::new(0, 0, Direction::Up).get_forward_position(), (0, -1));
    assert_eq!(Robot::new(255, 255, Direction::Right).get_forward_position(), (256, 255));
    assert_eq!(Robot::new(255, 255, Direction::Down).get_forward_position(), (255, 256));
}

#[test]
fn forward_into_open_ground_moves() {
    let world = World::new((5, 5), (4, 4)).unwrap();
    let mut robot = Robot::new(2, 2, Direction::Down);
    assert_eq!(robot.forward(&world), Ok(()));
    assert_eq!(robot, Robot::new(2, 3, Direction::Down));
    robot.left();
    assert_eq!(robot.forward(&world), Ok(()));
    assert_eq!(robot, Robot::new(3, 3, Direction::Right));
}

#[test]
fn forward_into_a_wall_leaves_the_robot_alone() {
    let mut world = World::new((5, 5), (4, 4)).unwrap();
    world.set_tile((2, 1), Tile::Wall);
    let mut robot = Robot::new(2, 2, Direction::Up);
    assert_eq!(robot.forward(&world), Err(RobotError::InvalidMove(2, 1)));
    assert_eq!(robot, Robot::new(2, 2, Direction::Up));
}

#[test]
fn forward_off_the_grid_leaves_the_robot_alone() {
    let world = World::new((3, 3), (1, 1)).unwrap();
    let mut robot = Robot::new(0, 2, Direction::Left);
    assert_eq!(robot.forward(&world), Err(RobotError::InvalidMove(-1, 2)));
    assert_eq!(robot, Robot::new(0, 2, Direction::Left));
    robot.left();
    assert_eq!(robot.forward(&world), Err(RobotError::InvalidMove(0, 3)));
    assert_eq!(robot, Robot::new(0, 2, Direction::Down));
    let mut corner = Robot::new(2, 0, Direction::Up);
    assert_eq!(corner.forward(&world), Err(RobotError::InvalidMove(2, -1)));
    corner.right();
    assert_eq!(corner.forward(&world), Err(RobotError::InvalidMove(3, 0)));
    assert_eq!((corner.x, corner.y), (2, 0));
}

#[test]
fn forward_onto_the_exit_moves() {
    let world = World::new((3, 3), (1, 1)).unwrap();
    let mut robot = Robot::new(0, 1, Direction::Right);
    assert!(!robot.is_on_end_tile(&world));
    assert_eq!(robot.forward(&world), Ok(()));
    assert!(robot.is_on_end_tile(&world));
}

#[test]
fn scan_sees_walls_and_edges_only() {
    let mut world = World::new((3, 3), (2, 2)).unwrap();
    world.set_tile((1, 0), Tile::Wall);
    let mut robot = Robot::new(1, 1, Direction::Up);
    assert!(robot.scan(&world));
    robot.left();
    assert!(!robot.scan(&world));
    robot.left();
    assert!(!robot.scan(&world));
    let mut at_edge = Robot::new(0, 1, Direction::Left);
    assert!(at_edge.scan(&world));
    let mut facing_exit = Robot::new(2, 1, Direction::Down);
    assert!(!facing_exit.scan(&world));
}

#[test]
fn scan_right_after_construction_changes_nothing() {
    let mut world = World::new((4, 4), (3, 3)).unwrap();
    world.set_tile((2, 1), Tile::Wall);
    let mut robot = Robot::new(1, 1, Direction::Right);
    assert!(robot.scan(&world));
    assert_eq!(robot, Robot::new(1, 1, Direction::Right));
}

#[test]
fn end_tile_is_the_exit_coordinate() {
    let mut world = World::new((4, 4), (3, 2)).unwrap();
    world.set_tile((1, 1), Tile::Exit);
    assert!(Robot::new(3, 2, Direction::Up).is_on_end_tile(&world));
    assert!(!Robot::new(1, 1, Direction::Up).is_on_end_tile(&world));
    assert!(!Robot::new(2, 3, Direction::Up).is_on_end_tile(&world));
}

#[test]
fn draw_rotation_in_degrees() {
    assert_eq!(Robot::new(0, 0, Direction::Right).get_draw_rotation(), 0);
    assert_eq!(Robot::new(0, 0, Direction::Down).get_draw_rotation(), 90);
    assert_eq!(Robot::new(0, 0, Direction::Left).get_draw_rotation(), 180);
    assert_eq!(Robot::new(0, 0, Direction::Up).get_draw_rotation(), 270);
}
