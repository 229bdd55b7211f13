//! What a click uncovers: the cascade through covered cells with no
//! neighboring mine, stated over the cells of a board.

use vstd::prelude::*;
use crate::board::{count_below, lemma_count_below_ext};
use crate::cell::{Cell, DisplayState};
use crate::geometry::adjacent;

verus! {

/// A click would uncover the cell: it is neither uncovered nor flagged.
pub open spec fn openable(c: Cell) -> bool {
    !(c.display is Shown) && !c.flagged()
}

/// A chain of cells from `start` in which each cell is a neighbor of the one
/// before, and every cell but the last is a covered, unflagged cell with no
/// neighboring mine.
pub open spec fn is_cascade_path(cells: Seq<Cell>, width: int, height: int, start: int, p: Seq<int>) -> bool {
    &&& p.len() > 0
    &&& p[0] == start
    &&& forall|j: int|
        0 <= j < p.len() - 1 ==> {
            &&& adjacent(width, height, #[trigger] p[j], p[j + 1])
            &&& openable(cells[p[j]])
            &&& cells[p[j]].zero()
        }
}

/// The cascade from `start` can spread to `c`.
pub open spec fn reaches(cells: Seq<Cell>, width: int, height: int, start: int, c: int) -> bool {
    exists|p: Seq<int>| #[trigger] is_cascade_path(cells, width, height, start, p) && p.last() == c
}

/// A click on `start` uncovers `c`: the cascade reaches it, and it is a
/// covered, unflagged safe cell.
pub open spec fn in_cascade(cells: Seq<Cell>, width: int, height: int, start: int, c: int) -> bool {
    &&& 0 <= c < cells.len()
    &&& reaches(cells, width, height, start, c)
    &&& openable(cells[c])
    &&& !cells[c].mine()
}

/// The cells after a click on the safe cell `start`.
pub open spec fn cascade(cells: Seq<Cell>, width: int, height: int, start: int) -> Seq<Cell> {
    Seq::new(
        cells.len(),
        |c: int|
            if in_cascade(cells, width, height, start, c) {
                cells[c].revealed()
            } else {
                cells[c]
            },
    )
}

/// Number of uncovered safe cells.
pub open spec fn count_open(cells: Seq<Cell>) -> nat {
    count_below(cells.len(), |k: int| cells[k].shown() && !cells[k].mine())
}

/// Every mine that is not flagged is uncovered.
pub open spec fn with_mines_shown(cells: Seq<Cell>) -> Seq<Cell> {
    Seq::new(cells.len(), |k: int| if cells[k].mine() { cells[k].revealed() } else { cells[k] })
}

/// Every mine is flagged.
pub open spec fn with_mines_flagged(cells: Seq<Cell>) -> Seq<Cell> {
    Seq::new(
        cells.len(),
        |k: int|
            if cells[k].mine() {
                Cell { value: cells[k].value, display: DisplayState::Flagged }
            } else {
                cells[k]
            },
    )
}

/// Which cells are flagged.
pub open spec fn flags_of(cells: Seq<Cell>) -> Seq<bool> {
    Seq::new(cells.len(), |k: int| cells[k].flagged())
}

/// The cascade starts at its own cell.
pub proof fn lemma_reaches_start(cells: Seq<Cell>, width: int, height: int, start: int)
    ensures
        reaches(cells, width, height, start, start),
{
    let p = seq![start];
    assert(is_cascade_path(cells, width, height, start, p));
}

/// The cascade spreads from a covered, unflagged zero cell to its neighbors.
pub proof fn lemma_reaches_step(cells: Seq<Cell>, width: int, height: int, start: int, v: int, u: int)
    requires
        reaches(cells, width, height, start, v),
        openable(cells[v]),
        cells[v].zero(),
        adjacent(width, height, v, u),
    ensures
        reaches(cells, width, height, start, u),
{
    let p = choose|p: Seq<int>| #[trigger] is_cascade_path(cells, width, height, start, p) && p.last() == v;
    let q = p.push(u);
    assert forall|j: int| 0 <= j < q.len() - 1 implies {
        &&& adjacent(width, height, #[trigger] q[j], q[j + 1])
        &&& openable(cells[q[j]])
        &&& cells[q[j]].zero()
    } by {
        if j < p.len() - 1 {
            assert(q[j] == p[j] && q[j + 1] == p[j + 1]);
        } else {
            assert(q[j] == v && q[j + 1] == u);
        }
    }
    assert(is_cascade_path(cells, width, height, start, q));
    assert(q.last() == u);
}

/// Where cells only ever went from openable to uncovered, the start was
/// uncovered if it could be, and no uncovered zero cell has an openable safe
/// neighbor, every cell along a cascade path that could be uncovered was.
pub proof fn lemma_cascade_closed(
    init: Seq<Cell>,
    cur: Seq<Cell>,
    width: int,
    height: int,
    start: int,
    p: Seq<int>,
    j: int,
)
    requires
        cur.len() == init.len(),
        is_cascade_path(init, width, height, start, p),
        0 <= j < p.len(),
        forall|k: int| 0 <= k < p.len() ==> 0 <= #[trigger] p[k] < init.len(),
        forall|k: int|
            0 <= k < init.len() ==> #[trigger] cur[k] == init[k] || (openable(init[k])
                && cur[k] == init[k].revealed()),
        openable(init[start]) && !init[start].mine() ==> cur[start] != init[start],
        forall|v: int, u: int|
            0 <= v < init.len() && #[trigger] cur[v] != init[v] && init[v].zero() && #[trigger] adjacent(
                width,
                height,
                v,
                u,
            ) ==> !openable(cur[u]) || cur[u].mine(),
    ensures
        openable(init[p[j]]) && !init[p[j]].mine() ==> cur[p[j]] != init[p[j]],
    decreases j,
{
    if j > 0 {
        lemma_cascade_closed(init, cur, width, height, start, p, j - 1);
        let v = p[j - 1];
        let u = p[j];
        assert(adjacent(width, height, v, u));
        assert(openable(init[v]) && init[v].zero());
        assert(cur[v] != init[v]);
        if openable(init[u]) && !init[u].mine() && cur[u] == init[u] {
            assert(!openable(cur[u]) || cur[u].mine());
        }
    }
}

/// Uncovering the mines uncovers no safe cell.
pub proof fn lemma_count_open_mines_shown(cells: Seq<Cell>)
    ensures
        count_open(with_mines_shown(cells)) == count_open(cells),
{
    let out = with_mines_shown(cells);
    lemma_count_below_ext(
        cells.len(),
        |k: int| out[k].shown() && !out[k].mine(),
        |k: int| cells[k].shown() && !cells[k].mine(),
    );
}

/// Flagging the mines changes no safe cell.
pub proof fn lemma_count_open_mines_flagged(cells: Seq<Cell>)
    ensures
        count_open(with_mines_flagged(cells)) == count_open(cells),
{
    let out = with_mines_flagged(cells);
    lemma_count_below_ext(
        cells.len(),
        |k: int| out[k].shown() && !out[k].mine(),
        |k: int| cells[k].shown() && !cells[k].mine(),
    );
}

/// The cascade from a click on `start` uncovers exactly the connected region
/// around it: only covered, unflagged safe cells change, and they become
/// uncovered; each of them but `start` touches an uncovered cell of the
/// region with no neighboring mine; and every openable safe neighbor of such
/// a cell is uncovered too, as is `start` itself when it can be.
pub proof fn lemma_cascade_region(cells: Seq<Cell>, width: int, height: int, start: int)
    requires
        cells.len() == width * height,
        0 <= start < cells.len(),
    ensures
        cascade(cells, width, height, start).len() == cells.len(),
        forall|k: int|
            0 <= k < cells.len() && #[trigger] cascade(cells, width, height, start)[k] != cells[k] ==> {
                &&& openable(cells[k])
                &&& !cells[k].mine()
                &&& cascade(cells, width, height, start)[k].shown()
            },
        forall|k: int|
            0 <= k < cells.len() && k != start && #[trigger] cascade(cells, width, height, start)[k]
                != cells[k] ==> exists|v: int|
                0 <= v < cells.len() && adjacent(width, height, v, k) && cells[v].zero()
                    && #[trigger] cascade(cells, width, height, start)[v] != cells[v],
        forall|v: int, u: int|
            0 <= v < cells.len() && 0 <= u < cells.len() && #[trigger] cascade(
                cells,
                width,
                height,
                start,
            )[v] != cells[v] && cells[v].zero() && #[trigger] adjacent(width, height, v, u) && openable(
                cells[u],
            ) && !cells[u].mine() ==> cascade(cells, width, height, start)[u] != cells[u],
        openable(cells[start]) && !cells[start].mine() ==> cascade(cells, width, height, start)[start]
            != cells[start],
{
    let out = cascade(cells, width, height, start);
    assert forall|k: int|
        0 <= k < cells.len() && k != start && #[trigger] out[k] != cells[k] implies exists|v: int|
        0 <= v < cells.len() && adjacent(width, height, v, k) && cells[v].zero() && #[trigger] out[v]
            != cells[v] by {
        let p = choose|p: Seq<int>| #[trigger] is_cascade_path(cells, width, height, start, p) && p.last() == k;
        let v = p[p.len() - 2];
        let q = p.take(p.len() - 1);
        assert forall|j: int| 0 <= j < q.len() - 1 implies {
            &&& adjacent(width, height, #[trigger] q[j], q[j + 1])
            &&& openable(cells[q[j]])
            &&& cells[q[j]].zero()
        } by {
            assert(q[j] == p[j] && q[j + 1] == p[j + 1]);
        }
        assert(p.len() >= 2);
        assert(is_cascade_path(cells, width, height, start, q));
        assert(q.last() == v);
        assert(adjacent(width, height, p[p.len() - 2], p[p.len() - 1]));
        assert(openable(cells[v]) && cells[v].zero());
        assert(reaches(cells, width, height, start, v));
        assert(in_cascade(cells, width, height, start, v));
        assert(out[v] == cells[v].revealed());
        assert(out[v] != cells[v]);
        assert(adjacent(width, height, v, k));
    }
    assert forall|v: int, u: int|
        0 <= v < cells.len() && 0 <= u < cells.len() && #[trigger] out[v] != cells[v] && cells[v].zero()
            && #[trigger] adjacent(width, height, v, u) && openable(cells[u]) && !cells[u].mine() implies out[u]
        != cells[u] by {
        lemma_reaches_step(cells, width, height, start, v, u);
    }
    if openable(cells[start]) && !cells[start].mine() {
        lemma_reaches_start(cells, width, height, start);
    }
}

} // verus!
