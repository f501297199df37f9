use snail_yarn::geometry::{Direction, Position};

#[test]
fn direction_opposites() {
    assert_eq!(Direction::Left.opposite(), Direction::Right);
    assert_eq!(Direction::Right.opposite(), Direction::Left);
    assert_eq!(Direction::Up.opposite(), Direction::Down);
    assert_eq!(Direction::Down.opposite(), Direction::Up);
}

#[test]
fn position_steps() {
    let p = Position { x: 3, y: 5 };
    assert_eq!(p.left(), Position { x: 2, y: 5 });
    assert_eq!(p.up(), Position { x: 3, y: 4 });
    assert_eq!(p.right(), Position { x: 4, y: 5 });
    assert_eq!(p.down(), Position { x: 3, y: 6 });
}

#[test]
fn position_default_is_origin() {
    assert_eq!(Position::default(), Position { x: 0, y: 0 });
}

#[test]
fn relative_to_each_direction() {
    let p = Position { x: 2, y: 2 };
    assert_eq!(p.relative_to(&Position { x: 1, y: 2 }), Direction::Left);
    assert_eq!(p.relative_to(&Position { x: 3, y: 2 }), Direction::Right);
    assert_eq!(p.relative_to(&Position { x: 2, y: 1 }), Direction::Up);
    assert_eq!(p.relative_to(&Position { x: 2, y: 3 }), Direction::Down);
}

#[test]
fn to_the_each_direction() {
    let p = Position { x: 2, y: 2 };
    assert_eq!(p.to_the(Direction::Left), Position { x: 1, y: 2 });
    assert_eq!(p.to_the(Direction::Right), Position { x: 3, y: 2 });
    assert_eq!(p.to_the(Direction::Up), Position { x: 2, y: 1 });
    assert_eq!(p.to_the(Direction::Down), Position { x: 2, y: 3 });
}

#[test]
fn to_the_inverts_relative_to() {
    let p = Position { x: 4, y: 7 };
    for q in [
        Position { x: 3, y: 7 },
        Position { x: 5, y: 7 },
        Position { x: 4, y: 6 },
        Position { x: 4, y: 8 },
    ] {
        assert_eq!(p.to_the(p.relative_to(&q)), q);
    }
}
