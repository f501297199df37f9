use vstd::prelude::*;
use crate::geometry::{adjacent, dir_between, lemma_dir_symmetric, lemma_reversal_returns,
    opposite_of, Direction, Position};

verus! {

/// Vertical line segment.
pub const UP_DOWN_CHAR: char = '\u{2502}';

/// Horizontal line segment.
pub const LEFT_RIGHT_CHAR: char = '\u{2500}';

/// Corner open toward down and right.
pub const DOWN_RIGHT_CHAR: char = '\u{250C}';

/// Corner open toward down and left.
pub const DOWN_LEFT_CHAR: char = '\u{2510}';

/// Corner open toward up and right.
pub const UP_RIGHT_CHAR: char = '\u{2514}';

/// Corner open toward up and left.
pub const UP_LEFT_CHAR: char = '\u{2518}';

/// The glyph shown on a trail cell that was entered travelling `went` and
/// left travelling `going`. The four reversal pairs are illegal; `resolve`
/// rejects them and never exposes the placeholder they map to here.
pub open spec fn glyph_of(went: Direction, going: Direction) -> char {
    match (went, going) {
        (Direction::Down, Direction::Down) => UP_DOWN_CHAR,
        (Direction::Down, Direction::Right) => UP_RIGHT_CHAR,
        (Direction::Down, Direction::Left) => UP_LEFT_CHAR,
        (Direction::Down, Direction::Up) => ' ',
        (Direction::Up, Direction::Up) => UP_DOWN_CHAR,
        (Direction::Up, Direction::Right) => DOWN_RIGHT_CHAR,
        (Direction::Up, Direction::Left) => DOWN_LEFT_CHAR,
        (Direction::Up, Direction::Down) => ' ',
        (Direction::Left, Direction::Left) => LEFT_RIGHT_CHAR,
        (Direction::Left, Direction::Up) => UP_RIGHT_CHAR,
        (Direction::Left, Direction::Down) => DOWN_RIGHT_CHAR,
        (Direction::Left, Direction::Right) => ' ',
        (Direction::Right, Direction::Right) => LEFT_RIGHT_CHAR,
        (Direction::Right, Direction::Up) => UP_LEFT_CHAR,
        (Direction::Right, Direction::Down) => DOWN_LEFT_CHAR,
        (Direction::Right, Direction::Left) => ' ',
    }
}

/// The straight glyph matching the axis of a move in direction `d`: the
/// first move of a run has no arrival direction, so the departure axis alone
/// picks the glyph.
pub open spec fn axis_glyph_of(d: Direction) -> char {
    match d {
        Direction::Left => LEFT_RIGHT_CHAR,
        Direction::Right => LEFT_RIGHT_CHAR,
        Direction::Up => UP_DOWN_CHAR,
        Direction::Down => UP_DOWN_CHAR,
    }
}

/// Maps an (arrival, departure) direction pair to the glyph the cell must
/// display. Identical inputs always yield the identical glyph, and exactly
/// the four reversal pairs (departure opposite to arrival) are rejected.
pub fn resolve(went: Direction, going: Direction) -> (r: Result<char, String>)
    ensures
        r is Err <==> going == opposite_of(went),
        r is Ok ==> r->Ok_0 == glyph_of(went, going),
{
    match went {
        Direction::Down => match going {
            Direction::Down => Ok(UP_DOWN_CHAR),
            Direction::Right => Ok(UP_RIGHT_CHAR),
            Direction::Left => Ok(UP_LEFT_CHAR),
            Direction::Up => Err("going backward".to_string()),
        },
        Direction::Up => match going {
            Direction::Up => Ok(UP_DOWN_CHAR),
            Direction::Right => Ok(DOWN_RIGHT_CHAR),
            Direction::Left => Ok(DOWN_LEFT_CHAR),
            Direction::Down => Err("going backward".to_string()),
        },
        Direction::Left => match going {
            Direction::Left => Ok(LEFT_RIGHT_CHAR),
            Direction::Up => Ok(UP_RIGHT_CHAR),
            Direction::Down => Ok(DOWN_RIGHT_CHAR),
            Direction::Right => Err("going backward".to_string()),
        },
        Direction::Right => match going {
            Direction::Right => Ok(LEFT_RIGHT_CHAR),
            Direction::Up => Ok(UP_LEFT_CHAR),
            Direction::Down => Ok(DOWN_LEFT_CHAR),
            Direction::Left => Err("going backward".to_string()),
        },
    }
}

/// The glyph for the trail cell at `curr_pos`, entered from `prev_pos` and
/// left toward `next_pos`. Fails exactly when `next_pos` would return to
/// `prev_pos` — an illegal reversal, unreachable while the traversal only
/// advances into unvisited cells.
pub fn find_yarn_char(prev_pos: &Position, curr_pos: &Position, next_pos: &Position) -> (r:
    Result<char, String>)
    requires
        adjacent(*prev_pos, *curr_pos),
        adjacent(*curr_pos, *next_pos),
    ensures
        r is Err <==> *next_pos == *prev_pos,
        r is Ok ==> r->Ok_0 == glyph_of(
            dir_between(*prev_pos, *curr_pos),
            dir_between(*curr_pos, *next_pos),
        ),
{
    let went = prev_pos.relative_to(curr_pos);
    let going = curr_pos.relative_to(next_pos);
    proof {
        if going == opposite_of(went) {
            lemma_reversal_returns(*prev_pos, *curr_pos, *next_pos);
        }
        if *next_pos == *prev_pos {
            lemma_dir_symmetric(*prev_pos, *curr_pos);
        }
    }
    resolve(went, going)
}

} // verus!
