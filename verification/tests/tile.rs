use dialog::tile::{Direction, MovementBlock, TilePosExtension};

#[test]
fn positions_add_and_subtract_by_component() {
    assert_eq!((1, 2).add(&(10, -20)), (11, -18));
    assert_eq!((1, 2).sub(&(10, -20)), (-9, 22));
    assert_eq!((3, -4).scale(&32), (96, -128));
    assert_eq!((3, -4).add_s(&5), (8, 1));
    assert_eq!((3, -4).abs(), (3, 4));
}

#[test]
fn direction_points_along_the_longer_axis() {
    assert_eq!(Direction::from((0, -1)), Some(Direction::Up));
    assert_eq!(Direction::from((-1, 0)), Some(Direction::Left));
    assert_eq!(Direction::from((0, 1)), Some(Direction::Down));
    assert_eq!(Direction::from((1, 0)), Some(Direction::Right));
    assert_eq!(Direction::from((5, -3)), Some(Direction::Right));
    assert_eq!(Direction::from((2, -3)), Some(Direction::Up));
    assert_eq!(Direction::from((i32::MIN, 0)), Some(Direction::Left));
    assert_eq!(Direction::from((0, i32::MIN)), Some(Direction::Up));
}

#[test]
fn diagonal_and_zero_point_nowhere() {
    assert_eq!(Direction::from((0, 0)), None);
    assert_eq!(Direction::from((2, 2)), None);
    assert_eq!(Direction::from((-2, 2)), None);
    assert_eq!(Direction::from((i32::MIN, i32::MIN)), None);
}

#[test]
fn direction_and_its_step_agree() {
    for direction in [Direction::Up, Direction::Left, Direction::Down, Direction::Right] {
        assert_eq!(Direction::from(direction.to_dir()), Some(direction));
    }
    assert_eq!(Direction::Up.to_dir(), (0, -1));
    assert_eq!(Direction::Left.to_dir(), (-1, 0));
    assert_eq!(Direction::Down.to_dir(), (0, 1));
    assert_eq!(Direction::Right.to_dir(), (1, 0));
}

#[test]
fn entity_walks_the_longer_axis_first() {
    let mut block = MovementBlock::new(0, 0, Direction::Down);
    assert!(block.move_to(2, -1));
    assert!(block.is_moving());
    assert_eq!((block.last_pos(), block.tile_pos()), ((0, 0), (1, 0)));
    assert_eq!(block.last_direction(), Direction::Right);
    block.advance();
    assert_eq!((block.last_pos(), block.tile_pos()), ((1, 0), (2, 0)));
    assert!(block.is_moving());
    block.advance();
    assert_eq!((block.last_pos(), block.tile_pos()), ((2, 0), (2, -1)));
    assert_eq!(block.last_direction(), Direction::Right);
    block.advance();
    assert_eq!((block.last_pos(), block.tile_pos()), ((2, -1), (2, -1)));
    assert_eq!(block.last_direction(), Direction::Up);
    assert!(!block.is_moving());
    block.advance();
    assert_eq!((block.last_pos(), block.tile_pos()), ((2, -1), (2, -1)));
}

#[test]
fn entity_on_its_way_takes_no_new_target() {
    let mut block = MovementBlock::new(0, 0, Direction::Down);
    assert!(!block.move_to(0, 0));
    assert!(!block.is_moving());
    assert!(block.move_to(0, 3));
    assert!(!block.move_to(5, 5));
    assert_eq!(block.next_pos(), (0, 1));
    assert_eq!(block.direction((0, 1)), Some(Direction::Down));
}

#[test]
fn entity_at_rest_has_no_direction_of_travel() {
    let block = MovementBlock::new(4, 4, Direction::Left);
    assert_eq!(block.direction((5, 4)), None);
    assert_eq!(block.next_pos(), (4, 4));
    assert_eq!(block.last_direction(), Direction::Left);
}

#[test]
fn stop_and_teleport_bring_the_entity_to_rest() {
    let mut block = MovementBlock::new(0, 0, Direction::Down);
    block.move_to(-3, 0);
    block.stop();
    assert!(!block.is_moving());
    assert_eq!((block.last_pos(), block.tile_pos()), ((-1, 0), (-1, 0)));
    assert_eq!(block.last_direction(), Direction::Left);
    block.move_to(7, 7);
    block.teleport_to(9, 9);
    assert!(!block.is_moving());
    assert_eq!(block.tile_pos(), (9, 9));
    block.face(Direction::Up);
    assert_eq!(block.last_direction(), Direction::Up);
}

#[test]
fn entity_crosses_the_whole_grid() {
    let mut block = MovementBlock::new(i32::MIN, 0, Direction::Down);
    assert!(block.move_to(i32::MAX, 0));
    assert_eq!(block.tile_pos(), (i32::MIN + 1, 0));
    block.advance();
    assert_eq!(block.tile_pos(), (i32::MIN + 2, 0));
}
