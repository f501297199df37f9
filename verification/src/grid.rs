use vstd::prelude::*;
use crate::cell::{char_of, Cell};
use crate::geometry::{in_bounds, Position};

verus! {

/// A `width` by `height` field of cells, stored column-major: `cells[x][y]`
/// is the cell at `Position { x, y }`. The grid is a pure data holder; only
/// the traversal engine mutates it.
pub struct Grid {
    pub width: usize,
    pub height: usize,
    pub cells: Vec<Vec<Cell>>,
}

impl View for Grid {
    type V = Seq<Seq<Cell>>;

    open spec fn view(&self) -> Seq<Seq<Cell>> {
        self.cells@.map_values(|col: Vec<Cell>| col@)
    }
}

/// The cell of `g` at position `p`.
pub open spec fn cell_at(g: Grid, p: Position) -> Cell {
    g@[p.x as int][p.y as int]
}

/// 1 when `c` is unvisited, 0 otherwise.
pub open spec fn is_unvisited(c: Cell) -> int {
    if c is Unvisited {
        1
    } else {
        0
    }
}

/// How many cells of one column are unvisited.
pub open spec fn col_unvisited(col: Seq<Cell>) -> int
    decreases col.len(),
{
    if col.len() <= 0 {
        0
    } else {
        col_unvisited(col.drop_last()) + is_unvisited(col.last())
    }
}

/// How many cells of the whole grid are unvisited.
pub open spec fn grid_unvisited(g: Seq<Seq<Cell>>) -> int
    decreases g.len(),
{
    if g.len() <= 0 {
        0
    } else {
        grid_unvisited(g.drop_last()) + col_unvisited(g.last())
    }
}

/// A column's unvisited count lies between 0 and its length.
pub proof fn lemma_col_unvisited_bounds(col: Seq<Cell>)
    ensures
        0 <= col_unvisited(col) <= col.len(),
    decreases col.len(),
{
    if col.len() > 0 {
        lemma_col_unvisited_bounds(col.drop_last());
    }
}

/// The grid's unvisited count is non-negative.
pub proof fn lemma_grid_unvisited_nonneg(g: Seq<Seq<Cell>>)
    ensures
        0 <= grid_unvisited(g),
    decreases g.len(),
{
    if g.len() > 0 {
        lemma_grid_unvisited_nonneg(g.drop_last());
        lemma_col_unvisited_bounds(g.last());
    }
}

/// Overwriting one cell of a column shifts its unvisited count by the
/// difference between the new and the old cell.
pub proof fn lemma_col_unvisited_update(col: Seq<Cell>, j: int, c: Cell)
    requires
        0 <= j < col.len(),
    ensures
        col_unvisited(col.update(j, c)) == col_unvisited(col) - is_unvisited(col[j])
            + is_unvisited(c),
    decreases col.len(),
{
    let updated = col.update(j, c);
    if j == col.len() - 1 {
        assert(updated.drop_last() =~= col.drop_last());
    } else {
        assert(updated.drop_last() =~= col.drop_last().update(j, c));
        lemma_col_unvisited_update(col.drop_last(), j, c);
    }
}

/// Overwriting one in-bounds cell of the grid shifts its unvisited count by
/// the difference between the new and the old cell.
pub proof fn lemma_grid_unvisited_update(g: Seq<Seq<Cell>>, x: int, y: int, c: Cell)
    requires
        0 <= x < g.len(),
        0 <= y < g[x].len(),
    ensures
        grid_unvisited(g.update(x, g[x].update(y, c))) == grid_unvisited(g) - is_unvisited(
            g[x][y],
        ) + is_unvisited(c),
    decreases g.len(),
{
    let updated = g.update(x, g[x].update(y, c));
    if x == g.len() - 1 {
        assert(updated.drop_last() =~= g.drop_last());
        lemma_col_unvisited_update(g[x], y, c);
    } else {
        assert(updated.drop_last() =~= g.drop_last().update(x, g[x].update(y, c)));
        lemma_grid_unvisited_update(g.drop_last(), x, y, c);
    }
}

/// A column holding only unvisited cells counts its full length.
pub proof fn lemma_col_all_unvisited(col: Seq<Cell>)
    requires
        forall|j: int| 0 <= j < col.len() ==> col[j] is Unvisited,
    ensures
        col_unvisited(col) == col.len(),
    decreases col.len(),
{
    if col.len() > 0 {
        lemma_col_all_unvisited(col.drop_last());
    }
}

/// A grid holding only unvisited cells, in columns of equal height, counts
/// every cell.
pub proof fn lemma_grid_all_unvisited(g: Seq<Seq<Cell>>, height: int)
    requires
        forall|i: int| 0 <= i < g.len() ==> (#[trigger] g[i]).len() == height,
        forall|i: int, j: int| 0 <= i < g.len() && 0 <= j < height ==> (#[trigger] g[i][j])
            is Unvisited,
    ensures
        grid_unvisited(g) == g.len() * height,
    decreases g.len(),
{
    if g.len() > 0 {
        lemma_grid_all_unvisited(g.drop_last(), height);
        lemma_col_all_unvisited(g.last());
        assert((g.len() - 1) * height + height == g.len() * height) by (nonlinear_arith);
    }
}

impl Grid {
    /// Dimensions are positive, every column has the grid's height, and the
    /// cell count is small enough that a step counter cannot overflow.
    pub open spec fn wf(&self) -> bool {
        &&& 1 <= self.width
        &&& 1 <= self.height
        &&& self.width * self.height <= usize::MAX / 2
        &&& self@.len() == self.width
        &&& forall|i: int| 0 <= i < self.width ==> (#[trigger] self@[i]).len() == self.height
    }

    /// A fresh grid: every cell unvisited except `start`, which holds the
    /// snail (the head of the walk).
    pub fn new(width: usize, height: usize, start: Position) -> (g: Grid)
        requires
            1 <= width,
            1 <= height,
            width * height <= usize::MAX / 2,
            in_bounds(start, width as int, height as int),
        ensures
            g.wf(),
            g.width == width,
            g.height == height,
            cell_at(g, start) == Cell::Snail,
            forall|p: Position|
                in_bounds(p, width as int, height as int) && p != start ==> (#[trigger] cell_at(
                    g,
                    p,
                )) is Unvisited,
            grid_unvisited(g@) == width * height - 1,
    {
        let mut cells: Vec<Vec<Cell>> = Vec::new();
        for i in 0..width
            invariant
                cells@.len() == i,
                forall|k: int| 0 <= k < i ==> (#[trigger] cells@[k])@.len() == height,
                forall|k: int, j: int|
                    0 <= k < i && 0 <= j < height ==> (#[trigger] cells@[k]@[j]) is Unvisited,
        {
            let mut col: Vec<Cell> = Vec::new();
            for j in 0..height
                invariant
                    col@.len() == j,
                    forall|m: int| 0 <= m < j ==> (#[trigger] col@[m]) is Unvisited,
            {
                col.push(Cell::Unvisited);
            }
            cells.push(col);
        }
        let mut g = Grid { width, height, cells };
        proof {
            lemma_grid_all_unvisited(g@, height as int);
            lemma_grid_unvisited_update(g@, start.x as int, start.y as int, Cell::Snail);
        }
        g.set(start, Cell::Snail);
        g
    }

    /// Reads the cell at an in-bounds position.
    pub fn get(&self, p: Position) -> (c: Cell)
        requires
            self.wf(),
            in_bounds(p, self.width as int, self.height as int),
        ensures
            c == cell_at(*self, p),
    {
        self.cells[p.x][p.y]
    }

    /// Overwrites the cell at an in-bounds position, leaving everything else
    /// unchanged.
    pub fn set(&mut self, p: Position, c: Cell)
        requires
            old(self).wf(),
            in_bounds(p, old(self).width as int, old(self).height as int),
        ensures
            final(self).wf(),
            final(self).width == old(self).width,
            final(self).height == old(self).height,
            final(self)@ == old(self)@.update(
                p.x as int,
                old(self)@[p.x as int].update(p.y as int, c),
            ),
    {
        let ghost before = self@;
        proof {
            assert(self.cells@.len() == before.len());
            assert(self.cells@[p.x as int]@ == before[p.x as int]);
        }
        self.cells[p.x][p.y] = c;
        proof {
            assert(self@ =~~= before.update(p.x as int, before[p.x as int].update(p.y as int, c)));
        }
    }

    /// The rows of display characters that a renderer paints, top row first.
    pub fn to_char_rows(&self) -> (rows: Vec<Vec<char>>)
        requires
            self.wf(),
        ensures
            rows@.len() == self.height,
            forall|y: int, x: int|
                0 <= y < self.height && 0 <= x < self.width ==> (#[trigger] rows@[y]@[x])
                    == char_of(self@[x][y]),
            forall|y: int| 0 <= y < self.height ==> (#[trigger] rows@[y])@.len() == self.width,
    {
        let mut rows: Vec<Vec<char>> = Vec::new();
        for y in 0..self.height
            invariant
                self.wf(),
                rows@.len() == y,
                forall|b: int, a: int|
                    0 <= b < y && 0 <= a < self.width ==> (#[trigger] rows@[b]@[a]) == char_of(
                        self@[a][b],
                    ),
                forall|b: int| 0 <= b < y ==> (#[trigger] rows@[b])@.len() == self.width,
        {
            let mut row: Vec<char> = Vec::new();
            for x in 0..self.width
                invariant
                    self.wf(),
                    0 <= y < self.height,
                    row@.len() == x,
                    forall|a: int|
                        0 <= a < x ==> (#[trigger] row@[a]) == char_of(self@[a][y as int]),
            {
                let c = self.get(Position { x, y });
                row.push(c.to_char());
            }
            rows.push(row);
        }
        rows
    }
}

} // verus!
