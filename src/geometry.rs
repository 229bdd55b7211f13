//! Row-major layout of the board and the neighbors of each cell.

use vstd::prelude::*;
use vstd::arithmetic::div_mod::{lemma_fundamental_div_mod, lemma_fundamental_div_mod_converse};
use crate::settings::{MAX_HEIGHT, MAX_WIDTH};

verus! {

/// Board sizes that the geometry is defined for.
pub open spec fn valid_size(width: int, height: int) -> bool {
    0 < width <= MAX_WIDTH && 0 < height <= MAX_HEIGHT
}

/// A board of a valid size has at most 1024 cells.
pub proof fn lemma_size_bound(width: int, height: int)
    requires
        valid_size(width, height),
    ensures
        0 < width * height <= 1024,
{
    assert(0 < width * height <= 1024) by (nonlinear_arith)
        requires
            valid_size(width, height),
    ;
}

/// The index of the cell at a row and column, if they lie on the board.
pub open spec fn index_at(width: int, height: int, row: int, col: int) -> Option<int> {
    if 0 <= row < height && 0 <= col < width {
        Some(row * width + col)
    } else {
        None
    }
}

/// Two distinct cells of the board that touch by a side or a corner.
pub open spec fn adjacent(width: int, height: int, a: int, b: int) -> bool {
    &&& 0 <= a < width * height
    &&& 0 <= b < width * height
    &&& a != b
    &&& -1 <= a / width - b / width <= 1
    &&& -1 <= a % width - b % width <= 1
}

pub open spec fn push_some(s: Seq<usize>, o: Option<int>) -> Seq<usize> {
    match o {
        Some(n) => s.push(n as usize),
        None => s,
    }
}

/// The values held by the `Some` entries, in order.
pub open spec fn somes(s: Seq<Option<int>>) -> Seq<usize>
    decreases s.len(),
{
    if s.len() == 0 {
        Seq::empty()
    } else {
        push_some(somes(s.drop_last()), s.last())
    }
}

/// The eight row and column offsets of the cells around a cell, row by row.
pub open spec fn directions() -> Seq<(int, int)> {
    seq![(-1, -1), (-1, 0), (-1, 1), (0, -1), (0, 1), (1, -1), (1, 0), (1, 1)]
}

/// The cells around cell `i`, `None` where the board ends.
pub open spec fn candidates(width: int, height: int, i: int) -> Seq<Option<int>> {
    Seq::new(
        8,
        |k: int| index_at(width, height, i / width + directions()[k].0, i % width + directions()[k].1),
    )
}

/// The neighbors of a cell, row by row from the top left.
pub open spec fn neighbor_seq(width: int, height: int, i: int) -> Seq<usize> {
    somes(candidates(width, height, i))
}

/// A cell on the board found from a row and a column lies at that row and column.
proof fn lemma_index_at(width: int, height: int, row: int, col: int)
    requires
        valid_size(width, height),
    ensures
        index_at(width, height, row, col) matches Some(n) ==> {
            &&& 0 <= n < width * height
            &&& n / width == row
            &&& n % width == col
        },
{
    if 0 <= row < height && 0 <= col < width {
        let n = row * width + col;
        lemma_fundamental_div_mod_converse(n, width, row, col);
        assert(0 <= row * width + col < width * height) by (nonlinear_arith)
            requires
                0 <= row < height,
                0 <= col < width,
        ;
    }
}

proof fn lemma_somes(s: Seq<Option<int>>)
    requires
        forall|k: int| 0 <= k < s.len() ==> (#[trigger] s[k] matches Some(n) ==> 0 <= n < 1024),
    ensures
        somes(s).len() <= s.len(),
        forall|x: usize|
            #[trigger] somes(s).contains(x) <==> exists|k: int|
                0 <= k < s.len() && #[trigger] s[k] == Some(x as int),
        forall|k: int| 0 <= k < somes(s).len() ==> #[trigger] somes(s)[k] < 1024,
        (forall|j: int, k: int|
            0 <= j < k < s.len() && (#[trigger] s[j]) is Some ==> s[j] != #[trigger] s[k])
            ==> somes(s).no_duplicates(),
    decreases s.len(),
{
    if s.len() > 0 {
        let t = s.drop_last();
        lemma_somes(t);
        assert forall|x: usize| (#[trigger] somes(s).contains(x) <==> exists|k: int|
            0 <= k < s.len() && #[trigger] s[k] == Some(x as int)) by {
            if somes(s).contains(x) {
                if somes(t).contains(x) {
                    let k = choose|k: int| 0 <= k < t.len() && #[trigger] t[k] == Some(x as int);
                    assert(s[k] == Some(x as int));
                } else {
                    assert(s[s.len() - 1] == Some(x as int));
                }
            }
            if exists|k: int| 0 <= k < s.len() && #[trigger] s[k] == Some(x as int) {
                let k = choose|k: int| 0 <= k < s.len() && #[trigger] s[k] == Some(x as int);
                if k < s.len() - 1 {
                    assert(t[k] == Some(x as int));
                    assert(somes(t).contains(x));
                    let j = choose|j: int| 0 <= j < somes(t).len() && somes(t)[j] == x;
                    assert(somes(s)[j] == x);
                } else {
                    assert(somes(s)[somes(s).len() - 1] == x);
                }
            }
        }
        if forall|j: int, k: int|
            0 <= j < k < s.len() && (#[trigger] s[j]) is Some ==> s[j] != #[trigger] s[k] {
            assert forall|j: int, k: int|
                0 <= j < k < t.len() && (#[trigger] t[j]) is Some implies t[j] != #[trigger] t[k] by {
                assert(s[j] == t[j] && s[k] == t[k]);
            }
            if let Some(n) = s.last() {
                assert(!somes(t).contains(n as usize)) by {
                    if somes(t).contains(n as usize) {
                        let k = choose|k: int| 0 <= k < t.len() && #[trigger] t[k] == Some((n as usize) as int);
                        assert(s[k] == t[k]);
                        assert(s[k] != s[s.len() - 1]);
                    }
                }
            }
        }
    }
}

/// The neighbor list of a cell holds exactly the cells adjacent to it, once each.
pub proof fn lemma_neighbor_seq(width: int, height: int, i: int)
    requires
        valid_size(width, height),
        0 <= i < width * height,
    ensures
        neighbor_seq(width, height, i).len() <= 8,
        neighbor_seq(width, height, i).no_duplicates(),
        forall|b: usize|
            #[trigger] neighbor_seq(width, height, i).contains(b) <==> adjacent(width, height, i, b as int),
        forall|k: int|
            0 <= k < neighbor_seq(width, height, i).len() ==> adjacent(
                width,
                height,
                i,
                #[trigger] neighbor_seq(width, height, i)[k] as int,
            ),
{
    let r = i / width;
    let c = i % width;
    lemma_fundamental_div_mod(i, width);
    assert(0 <= r < height) by (nonlinear_arith)
        requires
            i == width * r + c,
            0 <= c < width,
            0 <= i < width * height,
            0 < width,
    ;
    assert(i == r * width + c) by (nonlinear_arith)
        requires
            i == width * r + c,
    ;
    assert(width * height <= 1024) by (nonlinear_arith)
        requires
            valid_size(width, height),
    ;
    let d = directions();
    let s = candidates(width, height, i);
    assert forall|k: int| 0 <= k < 8 implies (#[trigger] s[k] matches Some(n) ==> (n / width == r
        + d[k].0 && n % width == c + d[k].1 && 0 <= n < width * height)) by {
        lemma_index_at(width, height, r + d[k].0, c + d[k].1);
    }
    assert forall|j: int, k: int| 0 <= j < k < s.len() && (#[trigger] s[j]) is Some implies s[j]
        != #[trigger] s[k] by {
        assert(d[j] != d[k]);
    }
    lemma_somes(s);
    let ns = neighbor_seq(width, height, i);
    assert forall|b: usize| #[trigger] ns.contains(b) implies adjacent(
        width,
        height,
        i,
        b as int,
    ) by {
        let k = choose|k: int| 0 <= k < s.len() && #[trigger] s[k] == Some(b as int);
        assert(d[k] != (0int, 0int));
    }
    assert forall|b0: usize| adjacent(width, height, i, b0 as int) implies #[trigger] ns.contains(b0) by {
        let b = b0 as int;
        let br = b / width;
        let bc = b % width;
        lemma_fundamental_div_mod(b, width);
        assert(0 <= br < height) by (nonlinear_arith)
            requires
                b == width * br + bc,
                0 <= bc < width,
                0 <= b < width * height,
                0 < width,
        ;
        assert(b == br * width + bc) by (nonlinear_arith)
            requires
                b == width * br + bc,
        ;
        let dr = br - r;
        let dc = bc - c;
        let k: int = if dr == -1 && dc == -1 {
            0
        } else if dr == -1 && dc == 0 {
            1
        } else if dr == -1 && dc == 1 {
            2
        } else if dr == 0 && dc == -1 {
            3
        } else if dr == 0 && dc == 1 {
            4
        } else if dr == 1 && dc == -1 {
            5
        } else if dr == 1 && dc == 0 {
            6
        } else {
            7
        };
        assert(d[k] == (dr, dc));
        assert(s[k] == Some(b));
        assert(s[k] == Some(b0 as int));
    }
    assert forall|k: int| 0 <= k < ns.len() implies adjacent(width, height, i, #[trigger] ns[k] as int) by {
        assert(ns.contains(ns[k]));
    }
}

/// The index of the cell at a row and column, if they lie on the board.
pub fn get_index_from_row_col(width: usize, height: usize, row: isize, col: isize) -> (r: Option<usize>)
    requires
        valid_size(width as int, height as int),
    ensures
        r matches Some(n) ==> index_at(width as int, height as int, row as int, col as int) == Some(n as int),
        r is None ==> index_at(width as int, height as int, row as int, col as int) is None,
{
    if row >= 0 && (row as usize) < height && col >= 0 && (col as usize) < width {
        proof {
            assert((row as usize) * width + (col as usize) < width * height) by (nonlinear_arith)
                requires
                    (row as usize) < height,
                    (col as usize) < width,
            ;
            assert(width * height <= 1024) by (nonlinear_arith)
                requires
                    valid_size(width as int, height as int),
            ;
        }
        Some((row as usize) * width + col as usize)
    } else {
        None
    }
}

/// The row and the column of a cell.
pub fn get_row_col_from_index(width: usize, index: usize) -> (r: (usize, usize))
    requires
        0 < width,
    ensures
        r.0 == index / width,
        r.1 == index % width,
{
    (index / width, index % width)
}

fn direction(k: usize) -> (r: (isize, isize))
    requires
        k < 8,
    ensures
        r.0 as int == directions()[k as int].0,
        r.1 as int == directions()[k as int].1,
{
    if k == 0 {
        (-1, -1)
    } else if k == 1 {
        (-1, 0)
    } else if k == 2 {
        (-1, 1)
    } else if k == 3 {
        (0, -1)
    } else if k == 4 {
        (0, 1)
    } else if k == 5 {
        (1, -1)
    } else if k == 6 {
        (1, 0)
    } else {
        (1, 1)
    }
}

/// The neighbors of a cell, row by row from the top left.
pub fn calculate_neighbors(width: usize, height: usize, index: usize) -> (r: Vec<usize>)
    requires
        valid_size(width as int, height as int),
        index < width * height,
    ensures
        r@ == neighbor_seq(width as int, height as int, index as int),
{
    let (row, col) = get_row_col_from_index(width, index);
    let r = row as isize;
    let c = col as isize;
    proof {
        assert(row < height) by (nonlinear_arith)
            requires
                row == index / width,
                index < width * height,
                0 < width,
        ;
    }
    let ghost cands = candidates(width as int, height as int, index as int);
    let mut neighbors: Vec<usize> = Vec::new();
    let mut k: usize = 0;
    assert(cands.take(0) =~= Seq::<Option<int>>::empty());
    while k < 8
        invariant
            valid_size(width as int, height as int),
            k <= 8,
            r as int == index as int / width as int,
            c as int == index as int % width as int,
            0 <= r < height,
            0 <= c < width,
            cands == candidates(width as int, height as int, index as int),
            neighbors@ == somes(cands.take(k as int)),
        decreases 8 - k,
    {
        let (dr, dc) = direction(k);
        let found = get_index_from_row_col(width, height, r + dr, c + dc);
        assert(cands.take(k as int + 1).drop_last() =~= cands.take(k as int));
        if let Some(n) = found {
            neighbors.push(n);
        }
        k = k + 1;
    }
    assert(cands.take(8) =~= cands);
    neighbors
}

} // verus!
