use snail_yarn::cell::Cell;
use snail_yarn::geometry::{Direction, Position};
use snail_yarn::glyph::{find_yarn_char, resolve, DOWN_LEFT_CHAR, DOWN_RIGHT_CHAR,
    LEFT_RIGHT_CHAR, UP_DOWN_CHAR, UP_LEFT_CHAR, UP_RIGHT_CHAR};

#[test]
fn glyph_constants_are_box_drawing() {
    assert_eq!(UP_DOWN_CHAR, '\u{2502}');
    assert_eq!(LEFT_RIGHT_CHAR, '\u{2500}');
    assert_eq!(DOWN_RIGHT_CHAR, '\u{250C}');
    assert_eq!(DOWN_LEFT_CHAR, '\u{2510}');
    assert_eq!(UP_RIGHT_CHAR, '\u{2514}');
    assert_eq!(UP_LEFT_CHAR, '\u{2518}');
}

#[test]
fn cell_to_char_each_variant() {
    assert_eq!(Cell::Snail.to_char(), '@');
    assert_eq!(Cell::Unvisited.to_char(), '.');
    assert_eq!(Cell::Slimed.to_char(), '&');
    assert_eq!(Cell::Yarn(UP_DOWN_CHAR).to_char(), UP_DOWN_CHAR);
}

#[test]
fn cell_default_is_unvisited() {
    assert_eq!(Cell::default(), Cell::Unvisited);
}

#[test]
fn resolve_straight_runs() {
    assert_eq!(resolve(Direction::Down, Direction::Down), Ok(UP_DOWN_CHAR));
    assert_eq!(resolve(Direction::Up, Direction::Up), Ok(UP_DOWN_CHAR));
    assert_eq!(resolve(Direction::Left, Direction::Left), Ok(LEFT_RIGHT_CHAR));
    assert_eq!(resolve(Direction::Right, Direction::Right), Ok(LEFT_RIGHT_CHAR));
}

#[test]
fn resolve_corner_turns() {
    assert_eq!(resolve(Direction::Down, Direction::Right), Ok(UP_RIGHT_CHAR));
    assert_eq!(resolve(Direction::Down, Direction::Left), Ok(UP_LEFT_CHAR));
    assert_eq!(resolve(Direction::Up, Direction::Right), Ok(DOWN_RIGHT_CHAR));
    assert_eq!(resolve(Direction::Up, Direction::Left), Ok(DOWN_LEFT_CHAR));
    assert_eq!(resolve(Direction::Left, Direction::Up), Ok(UP_RIGHT_CHAR));
    assert_eq!(resolve(Direction::Left, Direction::Down), Ok(DOWN_RIGHT_CHAR));
    assert_eq!(resolve(Direction::Right, Direction::Up), Ok(UP_LEFT_CHAR));
    assert_eq!(resolve(Direction::Right, Direction::Down), Ok(DOWN_LEFT_CHAR));
}

#[test]
fn resolve_rejects_the_four_reversals() {
    assert!(resolve(Direction::Down, Direction::Up).is_err());
    assert!(resolve(Direction::Up, Direction::Down).is_err());
    assert!(resolve(Direction::Left, Direction::Right).is_err());
    assert!(resolve(Direction::Right, Direction::Left).is_err());
}

#[test]
fn resolve_is_deterministic() {
    for _ in 0..3 {
        assert_eq!(resolve(Direction::Right, Direction::Down), Ok(DOWN_LEFT_CHAR));
        assert_eq!(resolve(Direction::Down, Direction::Up), Err("going backward".to_string()));
    }
}

#[test]
fn find_yarn_char_turn_and_reversal() {
    let prev = Position { x: 0, y: 0 };
    let curr = Position { x: 1, y: 0 };
    let next = Position { x: 1, y: 1 };
    // arrived travelling right, leaving downward: the down-left corner
    assert_eq!(find_yarn_char(&prev, &curr, &next), Ok(DOWN_LEFT_CHAR));
    // doubling back onto the previous cell is an invariant violation
    assert!(find_yarn_char(&prev, &curr, &prev).is_err());
}
