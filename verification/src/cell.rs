use vstd::prelude::*;

verus! {

/// The state of one grid square.
///
/// Exactly one cell of a well-formed traversal state is `Snail` (the current
/// head). `Yarn(g)` cells carry the glyph chosen when the head passed through;
/// `Slimed` cells are former yarn cells abandoned while backtracking.
#[derive(Copy, Clone, Debug, PartialEq, Eq, Structural)]
pub enum Cell {
    Snail,
    Unvisited,
    Slimed,
    Yarn(char),
}

impl Default for Cell {
    fn default() -> (c: Self)
        ensures
            c == Cell::Unvisited,
    {
        Cell::Unvisited
    }
}

/// The display character of a cell state.
pub open spec fn char_of(c: Cell) -> char {
    match c {
        Cell::Snail => '@',
        Cell::Unvisited => '.',
        Cell::Slimed => '&',
        Cell::Yarn(g) => g,
    }
}

impl Cell {
    pub fn to_char(&self) -> (r: char)
        ensures
            r == char_of(*self),
    {
        match self {
            Cell::Snail => '@',
            Cell::Unvisited => '.',
            Cell::Slimed => '&',
            Cell::Yarn(c) => *c,
        }
    }
}

} // verus!
