use vstd::prelude::*;
use vstd::pervasive::unreached;
use crate::cell::Cell;
use crate::geometry::{adjacent, dir_between, in_bounds, Direction, Position};
use crate::glyph::{axis_glyph_of, find_yarn_char, glyph_of, LEFT_RIGHT_CHAR, UP_DOWN_CHAR};
use crate::grid::{cell_at, grid_unvisited, lemma_grid_unvisited_nonneg, lemma_grid_unvisited_update,
    Grid};
use crate::neighbors::{find_neighbors, lemma_no_neighbors, neighbors_of};
use rand::prelude::SliceRandom;

verus! {

/// Every in-bounds cell orthogonally adjacent to `q` has been visited.
pub open spec fn no_unvisited_neighbor(g: Grid, q: Position) -> bool {
    forall|r: Position|
        in_bounds(r, g.width as int, g.height as int) && #[trigger] adjacent(q, r) ==> cell_at(
            g,
            r,
        ) !is Unvisited
}

/// The traversal engine's invariant, tying the grid, the head position and
/// the trail stack together:
/// - the head is the one snail cell, inside the grid;
/// - the trail records, oldest first, the yarn cells of a simple path of
///   adjacent positions ending next to the head, no position twice;
/// - a slimed (backtracked) cell never has an unvisited neighbor, so retreat
///   abandons a cell only once nothing is left to explore from it;
/// - the trail length plus the unvisited count never exceeds the cell count
///   minus one, which bounds both the stack and the number of steps left.
pub open spec fn wf_state(g: Grid, pos: Position, trail: Seq<(Position, char)>) -> bool {
    &&& g.wf()
    &&& in_bounds(pos, g.width as int, g.height as int)
    &&& cell_at(g, pos) == Cell::Snail
    &&& forall|i: int|
        0 <= i < trail.len() ==> in_bounds(
            (#[trigger] trail[i]).0,
            g.width as int,
            g.height as int,
        )
    &&& forall|i: int|
        0 <= i < trail.len() ==> cell_at(g, (#[trigger] trail[i]).0) == Cell::Yarn(trail[i].1)
    &&& forall|i: int, j: int|
        0 <= i < j < trail.len() ==> (#[trigger] trail[i]).0 != (#[trigger] trail[j]).0
    &&& forall|i: int| 0 <= i < trail.len() ==> (#[trigger] trail[i]).0 != pos
    &&& forall|i: int|
        0 <= i < trail.len() - 1 ==> adjacent((#[trigger] trail[i]).0, trail[i + 1].0)
    &&& trail.len() > 0 ==> adjacent(trail[trail.len() - 1].0, pos)
    &&& forall|q: Position|
        in_bounds(q, g.width as int, g.height as int) && #[trigger] cell_at(g, q) == Cell::Slimed
            ==> no_unvisited_neighbor(g, q)
    &&& forall|q: Position|
        in_bounds(q, g.width as int, g.height as int) && #[trigger] cell_at(g, q) == Cell::Snail
            ==> q == pos
    &&& forall|q: Position|
        in_bounds(q, g.width as int, g.height as int) && (#[trigger] cell_at(g, q)) is Yarn
            ==> exists|i: int| 0 <= i < trail.len() && (#[trigger] trail[i]).0 == q
    &&& trail.len() + grid_unvisited(g@) <= g.width * g.height - 1
}

/// The glyph laid on the cell the head leaves: on the first move (empty
/// trail) the straight glyph of the move's axis, afterwards the resolver's
/// choice for the arrival and departure directions.
pub open spec fn forward_glyph(trail: Seq<(Position, char)>, pos: Position, next: Position) -> char {
    if trail.len() == 0 {
        axis_glyph_of(dir_between(pos, next))
    } else {
        glyph_of(dir_between(trail.last().0, pos), dir_between(pos, next))
    }
}

/// The state change of one advance from head `pos0` into `next`: the old
/// head cell keeps the resolved glyph, `next` becomes the snail cell, the
/// old head is pushed onto the trail, and no other cell changes.
pub open spec fn advance_transition(
    g0: Grid,
    pos0: Position,
    t0: Seq<(Position, char)>,
    g1: Grid,
    pos1: Position,
    t1: Seq<(Position, char)>,
    next: Position,
) -> bool {
    &&& g1.width == g0.width
    &&& g1.height == g0.height
    &&& pos1 == next
    &&& t1 == t0.push((pos0, forward_glyph(t0, pos0, next)))
    &&& cell_at(g1, pos0) == Cell::Yarn(forward_glyph(t0, pos0, next))
    &&& cell_at(g1, next) == Cell::Snail
    &&& forall|q: Position|
        in_bounds(q, g0.width as int, g0.height as int) && q != pos0 && q != next
            ==> #[trigger] cell_at(g1, q) == cell_at(g0, q)
}

/// The state change of one retreat from head `pos0`: the old head cell is
/// slimed, the trail's top entry is popped and becomes the snail cell again,
/// and no other cell changes.
pub open spec fn retreat_transition(
    g0: Grid,
    pos0: Position,
    t0: Seq<(Position, char)>,
    g1: Grid,
    pos1: Position,
    t1: Seq<(Position, char)>,
) -> bool {
    &&& g1.width == g0.width
    &&& g1.height == g0.height
    &&& t0.len() > 0
    &&& t1 == t0.drop_last()
    &&& pos1 == t0.last().0
    &&& cell_at(g1, pos0) == Cell::Slimed
    &&& cell_at(g1, pos1) == Cell::Snail
    &&& forall|q: Position|
        in_bounds(q, g0.width as int, g0.height as int) && q != pos0 && q != t0.last().0
            ==> #[trigger] cell_at(g1, q) == cell_at(g0, q)
}

/// Relies on rand's `SliceRandom::choose`: picks an element of the slice
/// uniformly at random, or `None` exactly when the slice is empty.
#[verifier::external_body]
fn choose_uniform(candidates: &Vec<Position>) -> (r: Option<Position>)
    ensures
        r is None <==> candidates@.len() == 0,
        r matches Some(p) ==> exists|i: int| 0 <= i < candidates@.len() && candidates@[i] == p,
{
    let mut rng = rand::thread_rng();
    candidates.choose(&mut rng).copied()
}

/// Advance: lay the resolved glyph on the current head cell, push it onto the
/// trail, and move the head into `next_step`, which becomes the snail cell.
pub fn move_forward(
    grid: &mut Grid,
    snail_position: &mut Position,
    yarn_trail: &mut Vec<(Position, char)>,
    next_step: Position,
)
    requires
        wf_state(*old(grid), *old(snail_position), old(yarn_trail)@),
        in_bounds(next_step, old(grid).width as int, old(grid).height as int),
        adjacent(*old(snail_position), next_step),
        cell_at(*old(grid), next_step) is Unvisited,
    ensures
        wf_state(*final(grid), *final(snail_position), final(yarn_trail)@),
        advance_transition(
            *old(grid),
            *old(snail_position),
            old(yarn_trail)@,
            *final(grid),
            *final(snail_position),
            final(yarn_trail)@,
            next_step,
        ),
        grid_unvisited(final(grid)@) == grid_unvisited(old(grid)@) - 1,
        forall|q: Position|
            in_bounds(q, old(grid).width as int, old(grid).height as int) && #[trigger] cell_at(
                *old(grid),
                q,
            ) !is Unvisited ==> cell_at(*final(grid), q) !is Unvisited,
{
    let ghost g0 = *grid;
    let ghost t0 = yarn_trail@;
    let ghost p0 = *snail_position;

    let c: char = if yarn_trail.len() > 0 {
        let back_step = yarn_trail[yarn_trail.len() - 1].0;
        match find_yarn_char(&back_step, snail_position, &next_step) {
            Ok(ch) => ch,
            Err(_) => {
                // The trail's top cell holds yarn while `next_step` is
                // unvisited, so the move can never double back onto it.
                proof {
                    assert(cell_at(g0, back_step) == Cell::Yarn(t0[t0.len() - 1].1));
                    assert(false);
                }
                unreached()
            },
        }
    } else {
        let d = snail_position.relative_to(&next_step);
        match d {
            Direction::Left => LEFT_RIGHT_CHAR,
            Direction::Right => LEFT_RIGHT_CHAR,
            Direction::Up => UP_DOWN_CHAR,
            Direction::Down => UP_DOWN_CHAR,
        }
    };
    assert(c == forward_glyph(t0, p0, next_step));

    // yarn on current position
    yarn_trail.push((*snail_position, c));
    grid.set(*snail_position, Cell::Yarn(c));
    let ghost g1 = *grid;
    // move snail to next position
    *snail_position = next_step;
    grid.set(next_step, Cell::Snail);

    proof {
        lemma_advance_preserves(g0, p0, t0, next_step, c, g1, *grid);
    }
}

/// The whole invariant-preservation argument for one advance, from the two
/// single-cell grid updates it performs.
proof fn lemma_advance_preserves(
    g0: Grid,
    p0: Position,
    t0: Seq<(Position, char)>,
    next: Position,
    c: char,
    g1: Grid,
    g2: Grid,
)
    requires
        wf_state(g0, p0, t0),
        in_bounds(next, g0.width as int, g0.height as int),
        adjacent(p0, next),
        cell_at(g0, next) is Unvisited,
        c == forward_glyph(t0, p0, next),
        g1.width == g0.width,
        g1.height == g0.height,
        g1@ == g0@.update(p0.x as int, g0@[p0.x as int].update(p0.y as int, Cell::Yarn(c))),
        g2.width == g1.width,
        g2.height == g1.height,
        g2.wf(),
        g2@ == g1@.update(next.x as int, g1@[next.x as int].update(next.y as int, Cell::Snail)),
    ensures
        wf_state(g2, next, t0.push((p0, c))),
        cell_at(g2, p0) == Cell::Yarn(c),
        cell_at(g2, next) == Cell::Snail,
        forall|q: Position|
            in_bounds(q, g0.width as int, g0.height as int) && q != p0 && q != next
                ==> #[trigger] cell_at(g2, q) == cell_at(g0, q),
        grid_unvisited(g2@) == grid_unvisited(g0@) - 1,
        forall|q: Position|
            in_bounds(q, g0.width as int, g0.height as int) && #[trigger] cell_at(g0, q)
                !is Unvisited ==> cell_at(g2, q) !is Unvisited,
{
    let t1 = t0.push((p0, c));
    let w = g0.width as int;
    let h = g0.height as int;

    lemma_grid_unvisited_update(g0@, p0.x as int, p0.y as int, Cell::Yarn(c));
    lemma_grid_unvisited_update(g1@, next.x as int, next.y as int, Cell::Snail);
    assert(g1@[next.x as int][next.y as int] == cell_at(g0, next));
    assert(grid_unvisited(g2@) == grid_unvisited(g0@) - 1);

    assert(cell_at(g2, p0) == Cell::Yarn(c));
    assert(cell_at(g2, next) == Cell::Snail);
    assert forall|q: Position| in_bounds(q, w, h) && q != p0 && q != next implies #[trigger] cell_at(
        g2,
        q,
    ) == cell_at(g0, q) by {
        assert(q.x != p0.x || q.y != p0.y);
        assert(q.x != next.x || q.y != next.y);
    }

    // trail entries keep their yarn cells and stay distinct from the head
    assert forall|i: int| 0 <= i < t1.len() implies cell_at(g2, (#[trigger] t1[i]).0)
        == Cell::Yarn(t1[i].1) && t1[i].0 != next by {
        if i < t0.len() {
            assert(cell_at(g0, t0[i].0) == Cell::Yarn(t0[i].1));
            assert(t0[i].0 != p0);
            assert(t0[i].0 != next);
        }
    }

    // slimed cells are untouched and nothing became unvisited
    assert forall|q: Position|
        in_bounds(q, w, h) && #[trigger] cell_at(g2, q) == Cell::Slimed implies
        no_unvisited_neighbor(g2, q) by {
        assert(q != p0 && q != next);
        assert(cell_at(g0, q) == Cell::Slimed);
        assert forall|r: Position| in_bounds(r, w, h) && #[trigger] adjacent(q, r) implies cell_at(
            g2,
            r,
        ) !is Unvisited by {
            assert(cell_at(g0, r) !is Unvisited);
            if r != p0 && r != next {
                assert(cell_at(g2, r) == cell_at(g0, r));
            }
        }
    }

    // the new head is the only snail cell
    assert forall|q: Position|
        in_bounds(q, w, h) && #[trigger] cell_at(g2, q) == Cell::Snail implies q == next by {
        if q != next && q != p0 {
            assert(cell_at(g0, q) == Cell::Snail);
        }
    }

    // every yarn cell is recorded on the trail
    assert forall|q: Position|
        in_bounds(q, w, h) && (#[trigger] cell_at(g2, q)) is Yarn implies exists|i: int|
        0 <= i < t1.len() && (#[trigger] t1[i]).0 == q by {
        if q == p0 {
            assert(t1[t1.len() - 1].0 == q);
        } else {
            assert(q != next);
            assert(cell_at(g0, q) == cell_at(g2, q));
            let i = choose|i: int| 0 <= i < t0.len() && (#[trigger] t0[i]).0 == q;
            assert(t1[i].0 == q);
        }
    }

    assert forall|q: Position|
        in_bounds(q, w, h) && #[trigger] cell_at(g0, q) !is Unvisited implies cell_at(g2, q)
        !is Unvisited by {
        if q != p0 && q != next {
            assert(cell_at(g2, q) == cell_at(g0, q));
        }
    }

    assert(wf_state(g2, next, t1));
}

/// Retreat: mark the current head cell slimed, pop the trail, and make the
/// popped position the head again. Does nothing when the trail is empty.
pub fn move_back_along_yarn(
    grid: &mut Grid,
    snail_position: &mut Position,
    yarn_trail: &mut Vec<(Position, char)>,
)
    requires
        wf_state(*old(grid), *old(snail_position), old(yarn_trail)@),
        neighbors_of(*old(grid), *old(snail_position)).len() == 0,
    ensures
        wf_state(*final(grid), *final(snail_position), final(yarn_trail)@),
        final(grid).width == old(grid).width,
        final(grid).height == old(grid).height,
        old(yarn_trail)@.len() == 0 ==> *final(grid) == *old(grid) && *final(snail_position)
            == *old(snail_position) && final(yarn_trail)@ == old(yarn_trail)@,
        old(yarn_trail)@.len() > 0 ==> retreat_transition(
            *old(grid),
            *old(snail_position),
            old(yarn_trail)@,
            *final(grid),
            *final(snail_position),
            final(yarn_trail)@,
        ),
        old(yarn_trail)@.len() > 0 ==> grid_unvisited(final(grid)@) == grid_unvisited(old(grid)@),
        forall|q: Position|
            in_bounds(q, old(grid).width as int, old(grid).height as int) && #[trigger] cell_at(
                *old(grid),
                q,
            ) !is Unvisited ==> cell_at(*final(grid), q) !is Unvisited,
{
    if yarn_trail.len() == 0 {
        return ;
    }
    let ghost g0 = *grid;
    let ghost t0 = yarn_trail@;
    let ghost p0 = *snail_position;

    let popped = yarn_trail.pop().unwrap();
    let next_pos = popped.0;
    grid.set(*snail_position, Cell::Slimed);
    let ghost g1 = *grid;
    *snail_position = next_pos;
    grid.set(next_pos, Cell::Snail);

    proof {
        lemma_retreat_preserves(g0, p0, t0, g1, *grid);
    }
}

/// The invariant-preservation argument for one retreat, from the two
/// single-cell grid updates it performs.
proof fn lemma_retreat_preserves(
    g0: Grid,
    p0: Position,
    t0: Seq<(Position, char)>,
    g1: Grid,
    g2: Grid,
)
    requires
        wf_state(g0, p0, t0),
        neighbors_of(g0, p0).len() == 0,
        t0.len() > 0,
        g1.width == g0.width,
        g1.height == g0.height,
        g1@ == g0@.update(p0.x as int, g0@[p0.x as int].update(p0.y as int, Cell::Slimed)),
        g2.width == g1.width,
        g2.height == g1.height,
        g2.wf(),
        g2@ == g1@.update(
            t0.last().0.x as int,
            g1@[t0.last().0.x as int].update(t0.last().0.y as int, Cell::Snail),
        ),
    ensures
        wf_state(g2, t0.last().0, t0.drop_last()),
        cell_at(g2, p0) == Cell::Slimed,
        cell_at(g2, t0.last().0) == Cell::Snail,
        forall|q: Position|
            in_bounds(q, g0.width as int, g0.height as int) && q != p0 && q != t0.last().0
                ==> #[trigger] cell_at(g2, q) == cell_at(g0, q),
        grid_unvisited(g2@) == grid_unvisited(g0@),
        forall|q: Position|
            in_bounds(q, g0.width as int, g0.height as int) && #[trigger] cell_at(g0, q)
                !is Unvisited ==> cell_at(g2, q) !is Unvisited,
{
    let t1 = t0.drop_last();
    let q1 = t0.last().0;
    let w = g0.width as int;
    let h = g0.height as int;

    assert(cell_at(g0, q1) == Cell::Yarn(t0.last().1));
    assert(q1 != p0);

    lemma_grid_unvisited_update(g0@, p0.x as int, p0.y as int, Cell::Slimed);
    lemma_grid_unvisited_update(g1@, q1.x as int, q1.y as int, Cell::Snail);
    assert(g1@[q1.x as int][q1.y as int] == cell_at(g0, q1));
    assert(grid_unvisited(g2@) == grid_unvisited(g0@));

    assert(cell_at(g2, p0) == Cell::Slimed);
    assert(cell_at(g2, q1) == Cell::Snail);
    assert forall|q: Position| in_bounds(q, w, h) && q != p0 && q != q1 implies #[trigger] cell_at(
        g2,
        q,
    ) == cell_at(g0, q) by {
        assert(q.x != p0.x || q.y != p0.y);
        assert(q.x != q1.x || q.y != q1.y);
    }

    // nothing became unvisited
    assert forall|q: Position|
        in_bounds(q, w, h) && #[trigger] cell_at(g0, q) !is Unvisited implies cell_at(g2, q)
        !is Unvisited by {
        if q != p0 && q != q1 {
            assert(cell_at(g2, q) == cell_at(g0, q));
        }
    }

    // remaining trail entries keep their yarn cells, distinct from the head
    assert forall|i: int| 0 <= i < t1.len() implies cell_at(g2, (#[trigger] t1[i]).0)
        == Cell::Yarn(t1[i].1) && t1[i].0 != q1 by {
        assert(t1[i] == t0[i]);
        assert(t0[i].0 != t0[t0.len() - 1].0);
        assert(t0[i].0 != p0);
        assert(cell_at(g0, t0[i].0) == Cell::Yarn(t0[i].1));
    }

    // the chain still ends next to the new head
    assert(t1.len() > 0 ==> adjacent(t1[t1.len() - 1].0, q1));

    // slimed cells: the abandoned head has no unvisited neighbor left, and
    // older slimed cells are untouched
    lemma_no_neighbors(g0, p0);
    assert forall|q: Position|
        in_bounds(q, w, h) && #[trigger] cell_at(g2, q) == Cell::Slimed implies
        no_unvisited_neighbor(g2, q) by {
        assert forall|r: Position| in_bounds(r, w, h) && #[trigger] adjacent(q, r) implies cell_at(
            g2,
            r,
        ) !is Unvisited by {
            if q == p0 {
                assert(cell_at(g0, r) !is Unvisited);
            } else {
                assert(q != q1);
                assert(cell_at(g0, q) == Cell::Slimed);
                assert(cell_at(g0, r) !is Unvisited);
            }
            if r != p0 && r != q1 {
                assert(cell_at(g2, r) == cell_at(g0, r));
            }
        }
    }

    // the popped position is the only snail cell
    assert forall|q: Position|
        in_bounds(q, w, h) && #[trigger] cell_at(g2, q) == Cell::Snail implies q == q1 by {
        if q != q1 && q != p0 {
            assert(cell_at(g0, q) == Cell::Snail);
        }
    }

    // every yarn cell is still recorded on the shortened trail
    assert forall|q: Position|
        in_bounds(q, w, h) && (#[trigger] cell_at(g2, q)) is Yarn implies exists|i: int|
        0 <= i < t1.len() && (#[trigger] t1[i]).0 == q by {
        assert(q != p0 && q != q1);
        assert(cell_at(g0, q) == cell_at(g2, q));
        let i = choose|i: int| 0 <= i < t0.len() && (#[trigger] t0[i]).0 == q;
        assert(i != t0.len() - 1);
        assert(t1[i].0 == q);
    }

    assert(wf_state(g2, q1, t1));
}

/// Single-pass: a well-formed trail never records the same position twice,
/// so no cell sits on the stack more than once at a time.
pub proof fn lemma_trail_distinct(
    g: Grid,
    pos: Position,
    trail: Seq<(Position, char)>,
    i: int,
    j: int,
)
    requires
        wf_state(g, pos, trail),
        0 <= i < j < trail.len(),
    ensures
        trail[i].0 != trail[j].0,
{
}

/// Stack bound: a well-formed trail holds at most `width * height - 1`
/// entries, one fewer than the grid has cells.
pub proof fn lemma_stack_bound(g: Grid, pos: Position, trail: Seq<(Position, char)>)
    requires
        wf_state(g, pos, trail),
    ensures
        trail.len() <= g.width * g.height - 1,
{
    lemma_grid_unvisited_nonneg(g@);
}

/// One reactive step of the traversal engine: advance into a randomly chosen
/// unvisited neighbor when one exists, retreat along the trail when none does,
/// and report `true` (done) exactly when the trail is empty as well. A step
/// never makes a visited cell unvisited again, and every non-final step
/// lowers the measure `2 * unvisited + trail length` by one.
pub fn step(grid: &mut Grid, snail_pos: &mut Position, yarn_trail: &mut Vec<(Position, char)>) -> (done:
    bool)
    requires
        wf_state(*old(grid), *old(snail_pos), old(yarn_trail)@),
    ensures
        wf_state(*final(grid), *final(snail_pos), final(yarn_trail)@),
        final(grid).width == old(grid).width,
        final(grid).height == old(grid).height,
        done <==> neighbors_of(*old(grid), *old(snail_pos)).len() == 0 && old(yarn_trail)@.len()
            == 0,
        done ==> *final(grid) == *old(grid) && *final(snail_pos) == *old(snail_pos)
            && final(yarn_trail)@ == old(yarn_trail)@,
        !done ==> 2 * grid_unvisited(final(grid)@) + final(yarn_trail)@.len()
            == 2 * grid_unvisited(old(grid)@) + old(yarn_trail)@.len() - 1,
        neighbors_of(*old(grid), *old(snail_pos)).len() > 0 ==> exists|next: Position|
            #[trigger] neighbors_of(*old(grid), *old(snail_pos)).contains(next)
                && advance_transition(
                *old(grid),
                *old(snail_pos),
                old(yarn_trail)@,
                *final(grid),
                *final(snail_pos),
                final(yarn_trail)@,
                next,
            ),
        neighbors_of(*old(grid), *old(snail_pos)).len() == 0 && old(yarn_trail)@.len() > 0
            ==> retreat_transition(
            *old(grid),
            *old(snail_pos),
            old(yarn_trail)@,
            *final(grid),
            *final(snail_pos),
            final(yarn_trail)@,
        ),
        forall|q: Position|
            in_bounds(q, old(grid).width as int, old(grid).height as int) && #[trigger] cell_at(
                *old(grid),
                q,
            ) !is Unvisited ==> cell_at(*final(grid), q) !is Unvisited,
{
    let neighbors = find_neighbors(grid, snail_pos);
    match choose_uniform(&neighbors) {
        Some(next_step) => {
            proof {
                let i = choose|i: int|
                    0 <= i < neighbors@.len() && neighbors@[i] == next_step;
                assert(in_bounds(next_step, grid.width as int, grid.height as int));
                assert(neighbors_of(*grid, *snail_pos).contains(next_step));
            }
            move_forward(grid, snail_pos, yarn_trail, next_step);
            false
        },
        None => {
            if yarn_trail.len() > 0 {
                move_back_along_yarn(grid, snail_pos, yarn_trail);
                false
            } else {
                true
            }
        },
    }
}

/// Drives the engine until it reports done, with no pacing or rendering in
/// between. Termination: every step lowers `2 * unvisited + trail length`,
/// so the run takes at most `2 * (width * height - 1)` steps. On exit the
/// trail is spent, no cell of the grid is left unvisited (full coverage:
/// on the all-connected grid every cell is reachable from the start), and
/// the head has retreated to the walk's starting cell, the bottom of the
/// trail.
pub fn run(grid: &mut Grid, snail_pos: &mut Position, yarn_trail: &mut Vec<(Position, char)>) -> (steps:
    usize)
    requires
        wf_state(*old(grid), *old(snail_pos), old(yarn_trail)@),
    ensures
        wf_state(*final(grid), *final(snail_pos), final(yarn_trail)@),
        final(yarn_trail)@.len() == 0,
        neighbors_of(*final(grid), *final(snail_pos)).len() == 0,
        forall|q: Position|
            in_bounds(q, old(grid).width as int, old(grid).height as int) ==> #[trigger] cell_at(
                *final(grid),
                q,
            ) !is Unvisited,
        steps <= 2 * (old(grid).width * old(grid).height - 1),
        *final(snail_pos) == (if old(yarn_trail)@.len() == 0 {
            *old(snail_pos)
        } else {
            old(yarn_trail)@[0].0
        }),
{
    let ghost m0: int = 2 * grid_unvisited(grid@) + yarn_trail@.len();
    let ghost root: Position = if yarn_trail@.len() == 0 {
        *snail_pos
    } else {
        yarn_trail@[0].0
    };
    proof {
        lemma_grid_unvisited_nonneg(grid@);
    }
    let mut steps: usize = 0;
    let mut done = false;
    while !done
        invariant
            wf_state(*grid, *snail_pos, yarn_trail@),
            grid.width == old(grid).width,
            grid.height == old(grid).height,
            steps + 2 * grid_unvisited(grid@) + yarn_trail@.len() == m0,
            m0 <= 2 * (grid.width * grid.height - 1),
            if yarn_trail@.len() == 0 {
                *snail_pos == root
            } else {
                yarn_trail@[0].0 == root
            },
            done ==> neighbors_of(*grid, *snail_pos).len() == 0 && yarn_trail@.len() == 0,
        decreases 2 * grid_unvisited(grid@) + yarn_trail@.len() + (if done {
            0int
        } else {
            1int
        }),
    {
        proof {
            lemma_grid_unvisited_nonneg(grid@);
        }
        done = step(grid, snail_pos, yarn_trail);
        if !done {
            steps = steps + 1;
        }
    }
    proof {
        lemma_grid_unvisited_nonneg(grid@);
        lemma_terminal_coverage(*grid, *snail_pos, yarn_trail@);
    }
    steps
}

/// Full coverage: once the trail is spent and the head has no unvisited
/// neighbor, no cell of the grid is unvisited. Every visited cell's
/// neighborhood is closed (the head by the empty scan, slimed cells by the
/// invariant, and no yarn cells remain), and the visited region spreads from
/// the head across the whole connected grid.
pub proof fn lemma_terminal_coverage(g: Grid, pos: Position, trail: Seq<(Position, char)>)
    requires
        wf_state(g, pos, trail),
        trail.len() == 0,
        neighbors_of(g, pos).len() == 0,
    ensures
        forall|q: Position|
            in_bounds(q, g.width as int, g.height as int) ==> #[trigger] cell_at(g, q)
                !is Unvisited,
{
    let w = g.width as int;
    let h = g.height as int;
    lemma_no_neighbors(g, pos);

    // every visited cell is the head or slimed, so its neighborhood is closed
    assert forall|q: Position|
        in_bounds(q, w, h) && #[trigger] cell_at(g, q) !is Unvisited implies
        no_unvisited_neighbor(g, q) by {
        if cell_at(g, q) == Cell::Snail {
            assert(q == pos);
        } else if cell_at(g, q) is Yarn {
            assert(false);
        }
    }

    assert forall|q: Position| in_bounds(q, w, h) implies #[trigger] cell_at(g, q)
        !is Unvisited by {
        lemma_spread_x(g, pos, q.x);
        lemma_spread_y(g, Position { x: q.x, y: pos.y }, q.y);
        assert(q == (Position { x: q.x, y: q.y }));
    }
}

/// When every visited cell's neighborhood is closed, visitedness spreads
/// along a row: from `p` to the cell in `p`'s row at column `x`.
proof fn lemma_spread_x(g: Grid, p: Position, x: usize)
    requires
        g.wf(),
        in_bounds(p, g.width as int, g.height as int),
        cell_at(g, p) !is Unvisited,
        x < g.width,
        forall|q: Position|
            in_bounds(q, g.width as int, g.height as int) && #[trigger] cell_at(g, q)
                !is Unvisited ==> no_unvisited_neighbor(g, q),
    ensures
        cell_at(g, Position { x, y: p.y }) !is Unvisited,
    decreases
            (if x <= p.x {
                p.x - x
            } else {
                x - p.x
            }) as int,
{
    if x < p.x {
        let q = Position { x: (x + 1) as usize, y: p.y };
        lemma_spread_x(g, p, (x + 1) as usize);
        assert(adjacent(q, Position { x, y: p.y }));
    } else if x > p.x {
        let q = Position { x: (x - 1) as usize, y: p.y };
        lemma_spread_x(g, p, (x - 1) as usize);
        assert(adjacent(q, Position { x, y: p.y }));
    } else {
        assert(p == (Position { x, y: p.y }));
    }
}

/// When every visited cell's neighborhood is closed, visitedness spreads
/// along a column: from `p` to the cell in `p`'s column at row `y`.
proof fn lemma_spread_y(g: Grid, p: Position, y: usize)
    requires
        g.wf(),
        in_bounds(p, g.width as int, g.height as int),
        cell_at(g, p) !is Unvisited,
        y < g.height,
        forall|q: Position|
            in_bounds(q, g.width as int, g.height as int) && #[trigger] cell_at(g, q)
                !is Unvisited ==> no_unvisited_neighbor(g, q),
    ensures
        cell_at(g, Position { x: p.x, y }) !is Unvisited,
    decreases
            (if y <= p.y {
                p.y - y
            } else {
                y - p.y
            }) as int,
{
    if y < p.y {
        let q = Position { x: p.x, y: (y + 1) as usize };
        lemma_spread_y(g, p, (y + 1) as usize);
        assert(adjacent(q, Position { x: p.x, y }));
    } else if y > p.y {
        let q = Position { x: p.x, y: (y - 1) as usize };
        lemma_spread_y(g, p, (y - 1) as usize);
        assert(adjacent(q, Position { x: p.x, y }));
    } else {
        assert(p == (Position { x: p.x, y }));
    }
}

} // verus!
