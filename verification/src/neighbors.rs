use vstd::prelude::*;
use crate::cell::Cell;
use crate::geometry::{adjacent, in_bounds, Position};
use crate::grid::{cell_at, Grid};

verus! {

/// The in-bounds, unvisited orthogonal neighbors of `p`, scanned in the fixed
/// order left, up, right, down.
pub open spec fn neighbors_of(g: Grid, p: Position) -> Seq<Position> {
    let l = Position { x: (p.x - 1) as usize, y: p.y };
    let u = Position { x: p.x, y: (p.y - 1) as usize };
    let r = Position { x: (p.x + 1) as usize, y: p.y };
    let d = Position { x: p.x, y: (p.y + 1) as usize };
    (if p.x > 0 && cell_at(g, l) is Unvisited {
        seq![l]
    } else {
        Seq::empty()
    }) + (if p.y > 0 && cell_at(g, u) is Unvisited {
        seq![u]
    } else {
        Seq::empty()
    }) + (if p.x + 1 < g.width && cell_at(g, r) is Unvisited {
        seq![r]
    } else {
        Seq::empty()
    }) + (if p.y + 1 < g.height && cell_at(g, d) is Unvisited {
        seq![d]
    } else {
        Seq::empty()
    })
}

/// Bounds safety: every candidate the neighbor scan yields lies inside the
/// grid, holds an unvisited cell, and is orthogonally adjacent to the scanned
/// position.
pub proof fn lemma_neighbors_ok(g: Grid, p: Position)
    requires
        g.wf(),
        in_bounds(p, g.width as int, g.height as int),
    ensures
        forall|i: int|
            0 <= i < neighbors_of(g, p).len() ==> {
                let q = #[trigger] neighbors_of(g, p)[i];
                &&& in_bounds(q, g.width as int, g.height as int)
                &&& cell_at(g, q) is Unvisited
                &&& adjacent(p, q)
            },
{
}

/// An empty neighbor scan means every in-bounds cell adjacent to `p` has
/// already been visited.
pub proof fn lemma_no_neighbors(g: Grid, p: Position)
    requires
        g.wf(),
        in_bounds(p, g.width as int, g.height as int),
        neighbors_of(g, p).len() == 0,
    ensures
        forall|q: Position|
            in_bounds(q, g.width as int, g.height as int) && #[trigger] adjacent(p, q) ==> cell_at(
                g,
                q,
            ) !is Unvisited,
{
    assert forall|q: Position|
        in_bounds(q, g.width as int, g.height as int) && #[trigger] adjacent(p, q) implies cell_at(
        g,
        q,
    ) !is Unvisited by {
        if q.x == p.x && q.y + 1 == p.y {
            assert(q == (Position { x: p.x, y: (p.y - 1) as usize }));
        } else if q.x == p.x && p.y + 1 == q.y {
            assert(q == (Position { x: p.x, y: (p.y + 1) as usize }));
        } else if q.y == p.y && q.x + 1 == p.x {
            assert(q == (Position { x: (p.x - 1) as usize, y: p.y }));
        } else {
            assert(q == (Position { x: (p.x + 1) as usize, y: p.y }));
        }
    }
}

/// Lists the unvisited orthogonal neighbors of `coords`, scanning left, up,
/// right, down; the result is empty when none qualify.
pub fn find_neighbors(grid: &Grid, coords: &Position) -> (r: Vec<Position>)
    requires
        grid.wf(),
        in_bounds(*coords, grid.width as int, grid.height as int),
    ensures
        r@ == neighbors_of(*grid, *coords),
        forall|i: int|
            0 <= i < r@.len() ==> {
                let q = #[trigger] r@[i];
                &&& in_bounds(q, grid.width as int, grid.height as int)
                &&& cell_at(*grid, q) is Unvisited
                &&& adjacent(*coords, q)
            },
{
    let mut unvisited_neighbors: Vec<Position> = Vec::new();

    let x = coords.x;
    let y = coords.y;

    // check left
    if x > 0 {
        let candidate = Position { x: x - 1, y };
        if grid.get(candidate) == Cell::Unvisited {
            unvisited_neighbors.push(candidate);
        }
    }

    // check up
    if y > 0 {
        let candidate = Position { x, y: y - 1 };
        if grid.get(candidate) == Cell::Unvisited {
            unvisited_neighbors.push(candidate);
        }
    }

    // check right
    if x < grid.width - 1 {
        let candidate = Position { x: x + 1, y };
        if grid.get(candidate) == Cell::Unvisited {
            unvisited_neighbors.push(candidate);
        }
    }

    // check down
    if y < grid.height - 1 {
        let candidate = Position { x, y: y + 1 };
        if grid.get(candidate) == Cell::Unvisited {
            unvisited_neighbors.push(candidate);
        }
    }

    proof {
        assert(unvisited_neighbors@ =~= neighbors_of(*grid, *coords));
        lemma_neighbors_ok(*grid, *coords);
    }
    unvisited_neighbors
}

} // verus!
