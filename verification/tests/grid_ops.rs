use snail_yarn::cell::Cell;
use snail_yarn::geometry::Position;
use snail_yarn::glyph::LEFT_RIGHT_CHAR;
use snail_yarn::grid::Grid;

#[test]
fn new_grid_has_snail_at_start_and_unvisited_elsewhere() {
    let start = Position { x: 1, y: 0 };
    let g = Grid::new(3, 2, start);
    assert_eq!(g.width, 3);
    assert_eq!(g.height, 2);
    for x in 0..3 {
        for y in 0..2 {
            let p = Position { x, y };
            if p == start {
                assert_eq!(g.get(p), Cell::Snail);
            } else {
                assert_eq!(g.get(p), Cell::Unvisited);
            }
        }
    }
}

#[test]
fn set_overwrites_only_the_given_cell() {
    let start = Position { x: 0, y: 0 };
    let mut g = Grid::new(2, 2, start);
    g.set(Position { x: 1, y: 1 }, Cell::Slimed);
    assert_eq!(g.get(Position { x: 1, y: 1 }), Cell::Slimed);
    assert_eq!(g.get(Position { x: 0, y: 0 }), Cell::Snail);
    assert_eq!(g.get(Position { x: 1, y: 0 }), Cell::Unvisited);
    assert_eq!(g.get(Position { x: 0, y: 1 }), Cell::Unvisited);
}

#[test]
fn char_rows_render_row_major() {
    let start = Position { x: 0, y: 0 };
    let mut g = Grid::new(3, 2, start);
    g.set(Position { x: 1, y: 0 }, Cell::Yarn(LEFT_RIGHT_CHAR));
    g.set(Position { x: 2, y: 1 }, Cell::Slimed);
    let rows = g.to_char_rows();
    assert_eq!(rows.len(), 2);
    assert_eq!(rows[0], vec!['@', LEFT_RIGHT_CHAR, '.']);
    assert_eq!(rows[1], vec!['.', '.', '&']);
}

#[test]
fn smallest_grid_is_one_snail_cell() {
    let g = Grid::new(1, 1, Position { x: 0, y: 0 });
    assert_eq!(g.get(Position { x: 0, y: 0 }), Cell::Snail);
}
