use snail_yarn::cell::Cell;
use snail_yarn::geometry::Position;
use snail_yarn::glyph::{DOWN_LEFT_CHAR, LEFT_RIGHT_CHAR, UP_LEFT_CHAR};
use snail_yarn::grid::Grid;
use snail_yarn::neighbors::find_neighbors;
use snail_yarn::traversal::{move_back_along_yarn, move_forward, run, step};

fn pos(x: usize, y: usize) -> Position {
    Position { x, y }
}

/// Walks the 2 by 2 grid from (0,0), always taking the first candidate, and
/// checks every intermediate state: three advances around the square, three
/// retreats back to the start, then done.
#[test]
fn two_by_two_walk_from_origin() {
    let start = pos(0, 0);
    let mut grid = Grid::new(2, 2, start);
    let mut snail = start;
    let mut trail: Vec<(Position, char)> = vec![];

    // from (0,0): left and up are out of bounds; right then down qualify
    let n = find_neighbors(&grid, &snail);
    assert_eq!(n, vec![pos(1, 0), pos(0, 1)]);

    // first move goes right: the straight horizontal glyph (first-move rule)
    move_forward(&mut grid, &mut snail, &mut trail, pos(1, 0));
    assert_eq!(snail, pos(1, 0));
    assert_eq!(grid.get(pos(0, 0)), Cell::Yarn(LEFT_RIGHT_CHAR));
    assert_eq!(grid.get(pos(1, 0)), Cell::Snail);
    assert_eq!(trail, vec![(pos(0, 0), LEFT_RIGHT_CHAR)]);

    // from (1,0) only down remains; arrived right, leaving down: down-left corner
    let n = find_neighbors(&grid, &snail);
    assert_eq!(n, vec![pos(1, 1)]);
    move_forward(&mut grid, &mut snail, &mut trail, pos(1, 1));
    assert_eq!(snail, pos(1, 1));
    assert_eq!(grid.get(pos(1, 0)), Cell::Yarn(DOWN_LEFT_CHAR));
    assert_eq!(trail.len(), 2);

    // from (1,1) only left remains; arrived down, leaving left: up-left corner
    let n = find_neighbors(&grid, &snail);
    assert_eq!(n, vec![pos(0, 1)]);
    move_forward(&mut grid, &mut snail, &mut trail, pos(0, 1));
    assert_eq!(snail, pos(0, 1));
    assert_eq!(grid.get(pos(1, 1)), Cell::Yarn(UP_LEFT_CHAR));
    assert_eq!(trail.len(), 3);

    // dead end at (0,1): retreat three times, sliming each abandoned head
    assert_eq!(find_neighbors(&grid, &snail), vec![]);
    move_back_along_yarn(&mut grid, &mut snail, &mut trail);
    assert_eq!(snail, pos(1, 1));
    assert_eq!(grid.get(pos(0, 1)), Cell::Slimed);
    assert_eq!(trail.len(), 2);

    assert_eq!(find_neighbors(&grid, &snail), vec![]);
    move_back_along_yarn(&mut grid, &mut snail, &mut trail);
    assert_eq!(snail, pos(1, 0));
    assert_eq!(grid.get(pos(1, 1)), Cell::Slimed);
    assert_eq!(trail.len(), 1);

    assert_eq!(find_neighbors(&grid, &snail), vec![]);
    move_back_along_yarn(&mut grid, &mut snail, &mut trail);
    assert_eq!(snail, pos(0, 0));
    assert_eq!(grid.get(pos(1, 0)), Cell::Slimed);
    assert!(trail.is_empty());

    // no neighbors and an empty trail: the next step reports done unchanged
    assert_eq!(find_neighbors(&grid, &snail), vec![]);
    let done = step(&mut grid, &mut snail, &mut trail);
    assert!(done);
    assert_eq!(grid.get(pos(0, 0)), Cell::Snail);
    assert_eq!(grid.get(pos(1, 0)), Cell::Slimed);
    assert_eq!(grid.get(pos(0, 1)), Cell::Slimed);
    assert_eq!(grid.get(pos(1, 1)), Cell::Slimed);
}

/// The neighbor scan reports candidates in left, up, right, down order and
/// skips visited cells.
#[test]
fn neighbor_scan_order_and_filtering() {
    let mut grid = Grid::new(3, 3, pos(1, 1));
    let n = find_neighbors(&grid, &pos(1, 1));
    assert_eq!(n, vec![pos(0, 1), pos(1, 0), pos(2, 1), pos(1, 2)]);

    grid.set(pos(1, 0), Cell::Slimed);
    grid.set(pos(2, 1), Cell::Yarn(LEFT_RIGHT_CHAR));
    let n = find_neighbors(&grid, &pos(1, 1));
    assert_eq!(n, vec![pos(0, 1), pos(1, 2)]);
}

/// A full randomized run covers every cell of a connected grid, spends the
/// trail, parks the head back on the start, and stays within the step bound.
#[test]
fn run_covers_whole_grid() {
    let start = pos(2, 1);
    let mut grid = Grid::new(5, 4, start);
    let mut snail = start;
    let mut trail: Vec<(Position, char)> = vec![];

    let steps = run(&mut grid, &mut snail, &mut trail);

    assert!(trail.is_empty());
    assert!(steps <= 2 * (5 * 4 - 1));
    assert_eq!(snail, start);
    assert_eq!(grid.get(start), Cell::Snail);
    for x in 0..5 {
        for y in 0..4 {
            assert_ne!(grid.get(pos(x, y)), Cell::Unvisited);
        }
    }
}

/// On the one-cell grid the very first step is already the last.
#[test]
fn one_cell_grid_finishes_immediately() {
    let start = pos(0, 0);
    let mut grid = Grid::new(1, 1, start);
    let mut snail = start;
    let mut trail: Vec<(Position, char)> = vec![];

    let done = step(&mut grid, &mut snail, &mut trail);
    assert!(done);
    assert_eq!(snail, start);
    assert_eq!(grid.get(start), Cell::Snail);

    let steps = run(&mut grid, &mut snail, &mut trail);
    assert_eq!(steps, 0);
}

/// Retreating with an empty trail leaves the state untouched, as the
/// original early-return did.
#[test]
fn retreat_on_empty_trail_is_a_no_op() {
    let start = pos(0, 0);
    let mut grid = Grid::new(1, 1, start);
    let mut snail = start;
    let mut trail: Vec<(Position, char)> = vec![];

    move_back_along_yarn(&mut grid, &mut snail, &mut trail);
    assert_eq!(snail, start);
    assert!(trail.is_empty());
    assert_eq!(grid.get(start), Cell::Snail);
}

/// The trail never grows beyond one less than the cell count, and a step
/// never turns a visited cell unvisited again.
#[test]
fn stack_bound_and_single_pass_hold_along_a_run() {
    let start = pos(0, 0);
    let mut grid = Grid::new(4, 3, start);
    let mut snail = start;
    let mut trail: Vec<(Position, char)> = vec![];

    let mut visited: Vec<Position> = vec![start];
    loop {
        let done = step(&mut grid, &mut snail, &mut trail);
        assert!(trail.len() <= 4 * 3 - 1);
        for p in &visited {
            assert_ne!(grid.get(*p), Cell::Unvisited);
        }
        if !visited.contains(&snail) {
            visited.push(snail);
        }
        // positions on the trail are pairwise distinct
        for i in 0..trail.len() {
            for j in (i + 1)..trail.len() {
                assert_ne!(trail[i].0, trail[j].0);
            }
        }
        if done {
            break;
        }
    }
}
