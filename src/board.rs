//! The board: its cells, the neighbors of each cell, where the mines lie,
//! and the placement of mines around the first click.

use vstd::prelude::*;
use rand::rngs::StdRng;
use rand::{Rng, SeedableRng};
use crate::cell::{value_of_count, Cell, DisplayState, Value};
use crate::geometry::{
    adjacent, calculate_neighbors, lemma_neighbor_seq, lemma_size_bound, neighbor_seq, valid_size,
};
use crate::settings::FirstClickSetting;
use crate::cascade::{
    cascade, count_open, flags_of, in_cascade, with_mines_flagged, with_mines_shown, lemma_cascade_closed, lemma_reaches_start, lemma_reaches_step,
    openable, reaches, is_cascade_path,
};

verus! {

/// rand's seedable generator, carried through as an opaque value.
#[verifier::external_type_specification]
#[verifier::external_body]
pub struct ExStdRng(StdRng);

/// Relies on rand_core's `SeedableRng::seed_from_u64`: a generator whose
/// output depends on the seed alone.
#[verifier::external_body]
pub(crate) fn seeded_rng(seed: u64) -> StdRng {
    StdRng::seed_from_u64(seed)
}

/// Relies on rand's `Rng::gen_range`: a value drawn from `0..n`, which
/// panics only on an empty range.
#[verifier::external_body]
fn random_below(rng: &mut StdRng, n: usize) -> (r: usize)
    requires
        0 < n,
    ensures
        r < n,
{
    rng.gen_range(0..n)
}

/// Number of indices below `n` at which `f` holds.
pub open spec fn count_below(n: nat, f: spec_fn(int) -> bool) -> nat
    decreases n,
{
    if n == 0 {
        0
    } else {
        count_below((n - 1) as nat, f) + if f(n - 1) {
            1nat
        } else {
            0nat
        }
    }
}

/// Number of the listed indices that the mask marks.
pub open spec fn count_marked(mask: Seq<bool>, idx: Seq<usize>) -> nat
    decreases idx.len(),
{
    if idx.len() == 0 {
        0
    } else {
        count_marked(mask, idx.drop_last()) + if mask[idx.last() as int] {
            1nat
        } else {
            0nat
        }
    }
}

/// Which cells hold a mine.
pub open spec fn mines_of(cells: Seq<Cell>) -> Seq<bool> {
    Seq::new(cells.len(), |k: int| cells[k].mine())
}

/// Every safe cell holds the number of mines among its neighbors.
pub open spec fn values_match_mines(width: int, height: int, cells: Seq<Cell>) -> bool {
    forall|i: int|
        0 <= i < cells.len() && !(#[trigger] cells[i]).mine() ==> cells[i].value == value_of_count(
            count_marked(mines_of(cells), neighbor_seq(width, height, i)),
        )
}

/// The covered cells of a board whose mines are those of the mask.
pub open spec fn fresh_cells(width: int, height: int, mask: Seq<bool>) -> Seq<Cell> {
    Seq::new(
        mask.len(),
        |i: int|
            Cell {
                value: if mask[i] {
                    Value::Mine
                } else {
                    value_of_count(count_marked(mask, neighbor_seq(width, height, i)))
                },
                display: DisplayState::Default,
            },
    )
}

/// Whether the first-click setting lets cell `k` hold a mine when `first`
/// is the first cell clicked.
pub open spec fn may_be_mine(
    width: int,
    height: int,
    policy: FirstClickSetting,
    first: int,
    k: int,
) -> bool {
    match policy {
        FirstClickSetting::Any => true,
        FirstClickSetting::Safe => k != first,
        FirstClickSetting::Zero => k != first && !adjacent(width, height, first, k),
    }
}

/// Enough cells may hold a mine for `mines` of them to be placed.
pub open spec fn room_for_mines(
    width: int,
    height: int,
    mines: int,
    policy: FirstClickSetting,
    first: int,
) -> bool {
    count_below((width * height) as nat, |k: int| may_be_mine(width, height, policy, first, k))
        >= mines
}

pub proof fn lemma_count_below_le(n: nat, f: spec_fn(int) -> bool)
    ensures
        count_below(n, f) <= n,
    decreases n,
{
    if n > 0 {
        lemma_count_below_le((n - 1) as nat, f);
    }
}

pub proof fn lemma_count_below_ext(n: nat, f: spec_fn(int) -> bool, g: spec_fn(int) -> bool)
    requires
        forall|k: int| 0 <= k < n ==> #[trigger] f(k) == g(k),
    ensures
        count_below(n, f) == count_below(n, g),
    decreases n,
{
    if n > 0 {
        lemma_count_below_ext((n - 1) as nat, f, g);
    }
}

/// Splitting a predicate into two disjoint parts splits its count.
pub proof fn lemma_count_below_split(
    n: nat,
    a: spec_fn(int) -> bool,
    b: spec_fn(int) -> bool,
    c: spec_fn(int) -> bool,
)
    requires
        forall|k: int| 0 <= k < n ==> #[trigger] a(k) == (b(k) || c(k)),
        forall|k: int| 0 <= k < n ==> !(#[trigger] b(k) && c(k)),
    ensures
        count_below(n, a) == count_below(n, b) + count_below(n, c),
    decreases n,
{
    if n > 0 {
        lemma_count_below_split((n - 1) as nat, a, b, c);
    }
}

/// Turning one index from false to true adds one to the count.
pub proof fn lemma_count_below_flip(n: nat, f: spec_fn(int) -> bool, g: spec_fn(int) -> bool, m: int)
    requires
        0 <= m < n,
        !f(m),
        g(m),
        forall|k: int| 0 <= k < n && k != m ==> #[trigger] f(k) == g(k),
    ensures
        count_below(n, g) == count_below(n, f) + 1,
    decreases n,
{
    if n - 1 == m {
        lemma_count_below_ext((n - 1) as nat, f, g);
    } else {
        lemma_count_below_flip((n - 1) as nat, f, g, m);
    }
}

/// No listed index is marked: the count is zero.
pub proof fn lemma_count_marked_none(mask: Seq<bool>, idx: Seq<usize>)
    requires
        forall|k: int| 0 <= k < idx.len() ==> !mask[#[trigger] idx[k] as int],
    ensures
        count_marked(mask, idx) == 0,
    decreases idx.len(),
{
    if idx.len() > 0 {
        let t = idx.drop_last();
        assert forall|k: int| 0 <= k < t.len() implies !mask[#[trigger] t[k] as int] by {
            assert(t[k] == idx[k]);
        }
        lemma_count_marked_none(mask, t);
    }
}

/// How many of the listed cells the mask marks.
fn count_marked_cells(mask: &Vec<bool>, idx: &Vec<usize>) -> (r: usize)
    requires
        forall|k: int| 0 <= k < idx.len() ==> #[trigger] idx[k] < mask.len(),
    ensures
        r == count_marked(mask@, idx@),
        r <= idx.len(),
{
    let mut count: usize = 0;
    let mut j: usize = 0;
    while j < idx.len()
        invariant
            j <= idx.len(),
            forall|k: int| 0 <= k < idx.len() ==> #[trigger] idx[k] < mask.len(),
            count == count_marked(mask@, idx@.take(j as int)),
            count <= j,
        decreases idx.len() - j,
    {
        assert(idx@.take(j as int + 1).drop_last() =~= idx@.take(j as int));
        if mask[idx[j]] {
            count = count + 1;
        }
        j = j + 1;
    }
    assert(idx@.take(idx.len() as int) =~= idx@);
    count
}

/// The cells of a game, the neighbors of each, and the indices of the mines.
pub struct Board {
    pub(crate) width: usize,
    pub(crate) height: usize,
    pub(crate) cells: Vec<Cell>,
    pub(crate) neighbors: Vec<Vec<usize>>,
    pub(crate) mine_indices: Vec<usize>,
}

impl Board {
    pub closed spec fn spec_width(&self) -> int {
        self.width as int
    }

    pub closed spec fn spec_height(&self) -> int {
        self.height as int
    }

    pub closed spec fn spec_cells(&self) -> Seq<Cell> {
        self.cells@
    }

    pub closed spec fn spec_mine_indices(&self) -> Seq<usize> {
        self.mine_indices@
    }

    pub open spec fn cell_count(&self) -> int {
        self.spec_width() * self.spec_height()
    }

    /// The neighbors of cell `i`.
    pub open spec fn nbrs(&self, i: int) -> Seq<usize> {
        neighbor_seq(self.spec_width(), self.spec_height(), i)
    }

    /// The board's invariant: neighbor lists and values agree with the
    /// geometry and the mines, and the mine indices list the mines in order.
    pub closed spec fn wf(&self) -> bool {
        &&& valid_size(self.width as int, self.height as int)
        &&& self.cells.len() == self.width * self.height
        &&& self.neighbors.len() == self.cells.len()
        &&& forall|i: int|
            0 <= i < self.cells.len() ==> (#[trigger] self.neighbors[i])@ == neighbor_seq(
                self.width as int,
                self.height as int,
                i,
            )
        &&& forall|i: int| 0 <= i < self.cells.len() ==> (#[trigger] self.cells[i]).consistent()
        &&& values_match_mines(self.width as int, self.height as int, self.cells@)
        &&& forall|a: int, b: int|
            0 <= a < b < self.mine_indices.len() ==> self.mine_indices[a] < self.mine_indices[b]
        &&& forall|a: int|
            0 <= a < self.mine_indices.len() ==> (#[trigger] self.mine_indices[a]) < self.cells.len()
        &&& forall|i: int|
            0 <= i < self.cells.len() ==> ((#[trigger] self.cells[i]).mine()
                <==> self.mine_indices@.contains(i as usize))
    }

    /// What the board's invariant says, in terms of the public views.
    pub proof fn lemma_wf(&self)
        requires
            self.wf(),
        ensures
            valid_size(self.spec_width(), self.spec_height()),
            self.spec_cells().len() == self.cell_count(),
            values_match_mines(self.spec_width(), self.spec_height(), self.spec_cells()),
            forall|i: int|
                0 <= i < self.cell_count() ==> (#[trigger] self.spec_cells()[i]).consistent(),
            self.spec_mine_indices().no_duplicates(),
            forall|i: int|
                0 <= i < self.cell_count() ==> ((#[trigger] self.spec_cells()[i]).mine()
                    <==> self.spec_mine_indices().contains(i as usize)),
            forall|a: int|
                0 <= a < self.spec_mine_indices().len() ==> (#[trigger] self.spec_mine_indices()[a])
                    < self.cell_count(),
    {
        assert forall|a: int, b: int|
            0 <= a < b < self.mine_indices.len() implies self.mine_indices[a]
            != self.mine_indices[b] by {}
    }

    /// A board of covered cells without mines.
    pub fn new_empty(width: usize, height: usize) -> (r: Self)
        requires
            valid_size(width as int, height as int),
        ensures
            r.wf(),
            r.spec_width() == width,
            r.spec_height() == height,
            r.spec_cells() == fresh_cells(
                width as int,
                height as int,
                Seq::new((width * height) as nat, |k: int| false),
            ),
            r.spec_mine_indices().len() == 0,
    {
        proof {
            lemma_size_bound(width as int, height as int);
        }
        let n = width * height;
        let mask: Vec<bool> = vec![false; n];
        let b = Board::from_mines(width, height, &mask);
        assert(mask@ =~= Seq::new((width * height) as nat, |k: int| false));
        proof {
            lemma_count_below_ext(n as nat, |k: int| mask@[k], |k: int| false);
            Self::lemma_count_below_none(n as nat);
        }
        b
    }

    /// Nothing is counted where nothing holds.
    pub proof fn lemma_count_below_none(n: nat)
        ensures
            count_below(n, |k: int| false) == 0,
        decreases n,
    {
        if n > 0 {
            Self::lemma_count_below_none((n - 1) as nat);
        }
    }

    /// A board of covered cells whose mines are those of the mask.
    pub fn from_mines(width: usize, height: usize, mask: &Vec<bool>) -> (r: Self)
        requires
            valid_size(width as int, height as int),
            mask.len() == width * height,
        ensures
            r.wf(),
            r.spec_width() == width,
            r.spec_height() == height,
            r.spec_cells() == fresh_cells(width as int, height as int, mask@),
            mines_of(r.spec_cells()) == mask@,
            r.spec_mine_indices().len() == count_below(mask.len() as nat, |k: int| mask@[k]),
    {
        proof {
            lemma_size_bound(width as int, height as int);
        }
        let n = width * height;
        let ghost w = width as int;
        let ghost h = height as int;
        let ghost fresh = fresh_cells(w, h, mask@);
        let mut cells: Vec<Cell> = Vec::new();
        let mut neighbors: Vec<Vec<usize>> = Vec::new();
        let mut mine_indices: Vec<usize> = Vec::new();
        let mut i: usize = 0;
        while i < n
            invariant
                valid_size(w, h),
                w == width,
                h == height,
                n == width * height,
                mask.len() == n,
                fresh == fresh_cells(w, h, mask@),
                i <= n,
                cells.len() == i,
                neighbors.len() == i,
                forall|k: int| 0 <= k < i ==> #[trigger] cells[k] == fresh[k],
                forall|k: int|
                    0 <= k < i ==> (#[trigger] neighbors[k])@ == neighbor_seq(w, h, k),
                forall|a: int, b: int|
                    0 <= a < b < mine_indices.len() ==> mine_indices[a] < mine_indices[b],
                forall|a: int| 0 <= a < mine_indices.len() ==> (#[trigger] mine_indices[a]) < i,
                forall|k: int| 0 <= k < i ==> (mask[k] <==> mine_indices@.contains(k as usize)),
                mine_indices.len() == count_below(i as nat, |k: int| mask@[k]),
            decreases n - i,
        {
            let nb = calculate_neighbors(width, height, i);
            proof {
                lemma_neighbor_seq(w, h, i as int);
                assert forall|k: int| 0 <= k < nb.len() implies #[trigger] nb[k] < mask.len() by {
                    assert(adjacent(w, h, i as int, nb@[k] as int));
                }
            }
            let ghost old_mines = mine_indices@;
            let cell = if mask[i] {
                mine_indices.push(i);
                Cell::new(None)
            } else {
                let count = count_marked_cells(mask, &nb);
                Cell::new(Some(count))
            };
            cells.push(cell);
            neighbors.push(nb);
            i = i + 1;
            assert forall|k: int| 0 <= k < i implies (mask[k] <==> mine_indices@.contains(
                k as usize,
            )) by {
                if k == i - 1 && mask[k] {
                    assert(mine_indices[mine_indices.len() - 1] == k as usize);
                } else if k < i - 1 {
                    if mine_indices@.contains(k as usize) {
                        let j = choose|j: int| 0 <= j < mine_indices.len() && mine_indices[j] == k as usize;
                        if j < old_mines.len() {
                            assert(old_mines[j] == k as usize);
                        }
                    }
                    if old_mines.contains(k as usize) {
                        let j = choose|j: int| 0 <= j < old_mines.len() && old_mines[j] == k as usize;
                        assert(mine_indices[j] == k as usize);
                    }
                } else {
                    if mine_indices@.contains(k as usize) {
                        let j = choose|j: int| 0 <= j < mine_indices.len() && mine_indices[j] == k as usize;
                        if j < old_mines.len() {
                            assert(old_mines[j] == k as usize);
                        }
                    }
                }
            }
        }
        assert(cells@ =~= fresh);
        assert(mines_of(cells@) =~= mask@);
        let b = Board { width, height, cells, neighbors, mine_indices };
        assert forall|i: int| 0 <= i < b.cells.len() && !(#[trigger] b.cells@[i]).mine() implies b.cells@[i].value
            == value_of_count(count_marked(mines_of(b.cells@), neighbor_seq(w, h, i))) by {
            assert(mines_of(b.cells@) == mask@);
        }
        b
    }
}

/// Whether the list holds `x`.
pub fn list_contains(v: &Vec<usize>, x: usize) -> (r: bool)
    ensures
        r == v@.contains(x),
{
    let mut j: usize = 0;
    while j < v.len()
        invariant
            j <= v.len(),
            forall|k: int| 0 <= k < j ==> v[k] != x,
        decreases v.len() - j,
    {
        if v[j] == x {
            return true;
        }
        j = j + 1;
    }
    false
}

/// Whether cell `mine_index` can still receive a mine: it holds none yet and
/// the first-click setting allows one there.
pub fn index_can_be_mine(
    width: usize,
    height: usize,
    policy: FirstClickSetting,
    index_clicked: usize,
    mine_index: usize,
    current_mines: &Vec<bool>,
    clicked_neighbors: &Vec<usize>,
) -> (r: bool)
    requires
        valid_size(width as int, height as int),
        index_clicked < width * height,
        mine_index < current_mines.len(),
        clicked_neighbors@ == neighbor_seq(width as int, height as int, index_clicked as int),
    ensures
        r == (!current_mines[mine_index as int] && may_be_mine(
            width as int,
            height as int,
            policy,
            index_clicked as int,
            mine_index as int,
        )),
{
    proof {
        lemma_neighbor_seq(width as int, height as int, index_clicked as int);
    }
    if current_mines[mine_index] {
        return false;
    }
    if index_clicked == mine_index {
        return policy == FirstClickSetting::Any;
    }
    if policy == FirstClickSetting::Zero && list_contains(clicked_neighbors, mine_index) {
        return false;
    }
    proof {
        if policy == FirstClickSetting::Zero {
            assert(!adjacent(width as int, height as int, index_clicked as int, mine_index as int));
        }
    }
    true
}

/// The cells that can still receive a mine, in increasing order.
fn eligible_cells(
    width: usize,
    height: usize,
    policy: FirstClickSetting,
    index_clicked: usize,
    current_mines: &Vec<bool>,
    clicked_neighbors: &Vec<usize>,
) -> (r: Vec<usize>)
    requires
        valid_size(width as int, height as int),
        index_clicked < width * height,
        current_mines.len() == width * height,
        clicked_neighbors@ == neighbor_seq(width as int, height as int, index_clicked as int),
    ensures
        r.len() == count_below(
            current_mines.len() as nat,
            |k: int|
                may_be_mine(width as int, height as int, policy, index_clicked as int, k)
                    && !current_mines@[k],
        ),
        forall|j: int|
            0 <= j < r.len() ==> #[trigger] r[j] < current_mines.len() && !current_mines[r[j] as int]
                && may_be_mine(width as int, height as int, policy, index_clicked as int, r[j] as int),
{
    let ghost f = |k: int|
        may_be_mine(width as int, height as int, policy, index_clicked as int, k)
            && !current_mines@[k];
    let mut found: Vec<usize> = Vec::new();
    let mut k: usize = 0;
    while k < current_mines.len()
        invariant
            valid_size(width as int, height as int),
            index_clicked < width * height,
            current_mines.len() == width * height,
            clicked_neighbors@ == neighbor_seq(width as int, height as int, index_clicked as int),
            k <= current_mines.len(),
            found.len() == count_below(k as nat, f),
            found.len() <= k,
            f == (|k: int|
                may_be_mine(width as int, height as int, policy, index_clicked as int, k)
                    && !current_mines@[k]),
            forall|j: int|
                0 <= j < found.len() ==> #[trigger] found[j] < current_mines.len()
                    && !current_mines[found[j] as int] && may_be_mine(
                    width as int,
                    height as int,
                    policy,
                    index_clicked as int,
                    found[j] as int,
                ),
        decreases current_mines.len() - k,
    {
        if index_can_be_mine(width, height, policy, index_clicked, k, current_mines, clicked_neighbors) {
            found.push(k);
        }
        k = k + 1;
    }
    found
}

/// Places `mines` mines, one at a time, each on a cell drawn uniformly
/// from those that can still receive one. This gives each layout the same
/// chance as drawing from the whole board and redrawing whenever the cell
/// cannot receive a mine, but takes one draw per mine.
fn place_mines(
    width: usize,
    height: usize,
    mines: usize,
    policy: FirstClickSetting,
    index_clicked: usize,
    rng: &mut StdRng,
) -> (mask: Vec<bool>)
    requires
        valid_size(width as int, height as int),
        index_clicked < width * height,
        room_for_mines(width as int, height as int, mines as int, policy, index_clicked as int),
    ensures
        mask.len() == width * height,
        count_below(mask.len() as nat, |k: int| mask@[k]) == mines,
        forall|k: int|
            0 <= k < mask.len() && #[trigger] mask[k] ==> may_be_mine(
                width as int,
                height as int,
                policy,
                index_clicked as int,
                k,
            ),
{
    proof {
        lemma_size_bound(width as int, height as int);
    }
    let n = width * height;
    let ghost may = |k: int| may_be_mine(width as int, height as int, policy, index_clicked as int, k);
    let clicked_neighbors = calculate_neighbors(width, height, index_clicked);
    let mut mask: Vec<bool> = vec![false; n];
    proof {
        lemma_count_below_ext(n as nat, |k: int| mask@[k], |k: int| false);
        Board::lemma_count_below_none(n as nat);
    }
    let mut placed: usize = 0;
    while placed < mines
        invariant
            valid_size(width as int, height as int),
            n == width * height,
            index_clicked < n,
            clicked_neighbors@ == neighbor_seq(width as int, height as int, index_clicked as int),
            may == (|k: int| may_be_mine(width as int, height as int, policy, index_clicked as int, k)),
            count_below(n as nat, may) >= mines,
            mask.len() == n,
            placed <= mines,
            count_below(n as nat, |k: int| mask@[k]) == placed,
            forall|k: int| 0 <= k < n && #[trigger] mask[k] ==> may(k),
        decreases mines - placed,
    {
        let candidates = eligible_cells(width, height, policy, index_clicked, &mask, &clicked_neighbors);
        proof {
            lemma_count_below_split(
                n as nat,
                may,
                |k: int| mask@[k],
                |k: int|
                    may_be_mine(width as int, height as int, policy, index_clicked as int, k)
                        && !mask@[k],
            );
        }
        let pick = random_below(rng, candidates.len());
        let chosen = candidates[pick];
        let ghost before = mask@;
        mask.set(chosen, true);
        proof {
            lemma_count_below_flip(n as nat, |k: int| before[k], |k: int| mask@[k], chosen as int);
        }
        placed = placed + 1;
    }
    mask
}

/// Every mine of the board is allowed by the first-click setting.
pub open spec fn mines_allowed(
    cells: Seq<Cell>,
    width: int,
    height: int,
    policy: FirstClickSetting,
    first: int,
) -> bool {
    forall|k: int|
        0 <= k < cells.len() && (#[trigger] cells[k]).mine() ==> may_be_mine(
            width,
            height,
            policy,
            first,
            k,
        )
}

/// There is room for the mines wherever the first click falls.
pub open spec fn always_room(width: int, height: int, mines: int, policy: FirstClickSetting) -> bool {
    forall|first: int|
        0 <= first < width * height ==> #[trigger] room_for_mines(width, height, mines, policy, first)
}

/// How many cells the first-click setting lets hold a mine.
fn count_allowed(
    width: usize,
    height: usize,
    policy: FirstClickSetting,
    index_clicked: usize,
    no_mines: &Vec<bool>,
    clicked_neighbors: &Vec<usize>,
) -> (r: usize)
    requires
        valid_size(width as int, height as int),
        index_clicked < width * height,
        no_mines@ == Seq::new((width * height) as nat, |k: int| false),
        clicked_neighbors@ == neighbor_seq(width as int, height as int, index_clicked as int),
    ensures
        r == count_below(
            (width * height) as nat,
            |k: int| may_be_mine(width as int, height as int, policy, index_clicked as int, k),
        ),
{
    let found = eligible_cells(width, height, policy, index_clicked, no_mines, clicked_neighbors);
    proof {
        lemma_count_below_ext(
            (width * height) as nat,
            |k: int|
                may_be_mine(width as int, height as int, policy, index_clicked as int, k)
                    && !no_mines@[k],
            |k: int| may_be_mine(width as int, height as int, policy, index_clicked as int, k),
        );
    }
    found.len()
}

/// Whether `mines` mines fit on the board wherever the first click falls.
pub fn has_room_for_mines(width: usize, height: usize, mines: usize, policy: FirstClickSetting) -> (r: bool)
    requires
        valid_size(width as int, height as int),
    ensures
        r == always_room(width as int, height as int, mines as int, policy),
{
    proof {
        lemma_size_bound(width as int, height as int);
    }
    let n = width * height;
    let no_mines: Vec<bool> = vec![false; n];
    assert(no_mines@ =~= Seq::new((width * height) as nat, |k: int| false));
    let mut first: usize = 0;
    while first < n
        invariant
            valid_size(width as int, height as int),
            n == width * height,
            first <= n,
            no_mines@ == Seq::new((width * height) as nat, |k: int| false),
            forall|f: int|
                0 <= f < first ==> #[trigger] room_for_mines(
                    width as int,
                    height as int,
                    mines as int,
                    policy,
                    f,
                ),
        decreases n - first,
    {
        let clicked_neighbors = calculate_neighbors(width, height, first);
        let allowed = count_allowed(width, height, policy, first, &no_mines, &clicked_neighbors);
        if allowed < mines {
            assert(!room_for_mines(width as int, height as int, mines as int, policy, first as int));
            return false;
        }
        first = first + 1;
    }
    true
}

impl Board {
    /// A board for a game whose first click is on `index_clicked`: `mines`
    /// mines where the first-click setting allows them, chosen at random, and
    /// the values that follow from them.
    pub fn generate(
        width: usize,
        height: usize,
        mines: usize,
        policy: FirstClickSetting,
        index_clicked: usize,
        rng: &mut StdRng,
    ) -> (r: Self)
        requires
            valid_size(width as int, height as int),
            index_clicked < width * height,
            room_for_mines(width as int, height as int, mines as int, policy, index_clicked as int),
        ensures
            r.wf(),
            r.spec_width() == width,
            r.spec_height() == height,
            r.spec_mine_indices().len() == mines,
            r.spec_mine_indices().no_duplicates(),
            forall|k: int|
                0 <= k < r.cell_count() ==> ((#[trigger] r.spec_cells()[k]).mine()
                    <==> r.spec_mine_indices().contains(k as usize)),
            values_match_mines(width as int, height as int, r.spec_cells()),
            mines_allowed(r.spec_cells(), width as int, height as int, policy, index_clicked as int),
            r.spec_cells() == fresh_cells(width as int, height as int, mines_of(r.spec_cells())),
    {
        let mask = place_mines(width, height, mines, policy, index_clicked, rng);
        let b = Board::from_mines(width, height, &mask);
        assert forall|k: int|
            0 <= k < b.spec_cells().len() && (#[trigger] b.spec_cells()[k]).mine() implies may_be_mine(
            width as int,
            height as int,
            policy,
            index_clicked as int,
            k,
        ) by {
            assert(mines_of(b.spec_cells())[k]);
        }
        proof {
            b.lemma_wf();
        }
        b
    }
}

/// With the first-click setting `Zero`, the first cell clicked has no
/// neighboring mine and holds none itself.
pub proof fn lemma_zero_first_click(cells: Seq<Cell>, width: int, height: int, first: int)
    requires
        valid_size(width, height),
        cells.len() == width * height,
        0 <= first < cells.len(),
        values_match_mines(width, height, cells),
        mines_allowed(cells, width, height, FirstClickSetting::Zero, first),
    ensures
        cells[first].value == Value::Zero,
        forall|k: int|
            0 <= k < neighbor_seq(width, height, first).len() ==> !(#[trigger] cells[neighbor_seq(
                width,
                height,
                first,
            )[k] as int]).mine(),
{
    let nb = neighbor_seq(width, height, first);
    lemma_neighbor_seq(width, height, first);
    assert forall|k: int| 0 <= k < nb.len() implies !(#[trigger] cells[nb[k] as int]).mine() by {
        assert(adjacent(width, height, first, nb[k] as int));
    }
    assert(!cells[first].mine());
    lemma_count_marked_none(mines_of(cells), nb);
}

/// Appends the items to the stack.
fn push_all(stack: &mut Vec<usize>, items: &Vec<usize>)
    ensures
        final(stack)@ == old(stack)@ + items@,
{
    let mut j: usize = 0;
    while j < items.len()
        invariant
            j <= items.len(),
            stack@ == old(stack)@ + items@.take(j as int),
        decreases items.len() - j,
    {
        stack.push(items[j]);
        j = j + 1;
        assert(stack@ =~= old(stack)@ + items@.take(j as int));
    }
    assert(items@.take(items.len() as int) =~= items@);
}

impl Board {
    /// Uncovers what a click on `start` uncovers: `start` itself if it is a
    /// covered, unflagged safe cell, and, from every uncovered cell with no
    /// neighboring mine, its neighbors in turn. Returns how many cells it
    /// uncovered.
    pub fn flood_reveal(&mut self, start: usize) -> (newly: usize)
        requires
            old(self).wf(),
            start < old(self).cell_count(),
        ensures
            final(self).wf(),
            final(self).spec_width() == old(self).spec_width(),
            final(self).spec_height() == old(self).spec_height(),
            final(self).spec_mine_indices() == old(self).spec_mine_indices(),
            final(self).spec_cells() == cascade(
                old(self).spec_cells(),
                old(self).spec_width(),
                old(self).spec_height(),
                start as int,
            ),
            count_open(final(self).spec_cells()) == count_open(old(self).spec_cells()) + newly,
    {
        let ghost init = self.cells@;
        let ghost w = self.width as int;
        let ghost h = self.height as int;
        let ghost mines0 = self.mine_indices@;
        let n = self.cells.len();
        let mut stack: Vec<usize> = Vec::new();
        stack.push(start);
        let mut newly: usize = 0;
        assert(stack@[0] == start);
        proof {
            lemma_reaches_start(init, w, h, start as int);
            lemma_count_below_le(n as nat, |k: int| init[k].shown() && !init[k].mine());
        }
        while stack.len() > 0
            invariant
                self.wf(),
                self.width == w,
                self.height == h,
                self.mine_indices@ == mines0,
                n == self.cells.len(),
                init.len() == n,
                start < n,
                forall|k: int|
                    0 <= k < n ==> #[trigger] self.cells[k] == init[k] || (in_cascade(
                        init,
                        w,
                        h,
                        start as int,
                        k,
                    ) && self.cells[k] == init[k].revealed()),
                forall|j: int|
                    0 <= j < stack.len() ==> #[trigger] stack[j] < n && reaches(
                        init,
                        w,
                        h,
                        start as int,
                        stack[j] as int,
                    ),
                openable(init[start as int]) && !init[start as int].mine() ==> stack@.contains(start)
                    || self.cells[start as int] != init[start as int],
                forall|v: int, u: int|
                    0 <= v < n && #[trigger] self.cells[v] != init[v] && init[v].zero()
                        && #[trigger] adjacent(w, h, v, u) ==> stack@.contains(u as usize) || !openable(
                        self.cells[u],
                    ) || self.cells[u].mine(),
                count_open(self.cells@) == count_open(init) + newly,
                count_open(self.cells@) <= n,
            decreases 9 * (n - count_open(self.cells@)) + stack.len(),
        {
            let ghost before = self.cells@;
            let ghost stack0 = stack@;
            let v = stack.pop().unwrap();
            let ghost mut opened = false;
            assert(stack0[stack0.len() - 1] == v);
            proof {
                assert forall|u: usize| stack0.contains(u) && u != v implies stack@.contains(u) by {
                    let j = choose|j: int| 0 <= j < stack0.len() && stack0[j] == u;
                    assert(stack@[j] == u);
                }
            }
            if !self.cells[v].is_shown() && !self.cells[v].is_flagged() && !self.cells[v].is_mine() {
                assert(before[v as int] == init[v as int]);
                self.cells[v].handle_click();
                proof {
                    lemma_count_below_flip(
                        n as nat,
                        |k: int| before[k].shown() && !before[k].mine(),
                        |k: int| self.cells@[k].shown() && !self.cells@[k].mine(),
                        v as int,
                    );
                    lemma_count_below_le(n as nat, |k: int| self.cells@[k].shown() && !self.cells@[k].mine());
                    assert(mines_of(self.cells@) =~= mines_of(before));
                    lemma_neighbor_seq(w, h, v as int);
                }
                newly = newly + 1;
                proof {
                    opened = true;
                }
                if self.cells[v].is_zero() {
                    let ghost stack1 = stack@;
                    push_all(&mut stack, &self.neighbors[v]);
                    proof {
                        let nb = neighbor_seq(w, h, v as int);
                        assert forall|j: int| 0 <= j < stack.len() implies #[trigger] stack[j] < n && reaches(
                            init,
                            w,
                            h,
                            start as int,
                            stack[j] as int,
                        ) by {
                            if j >= stack1.len() {
                                assert(stack[j] == nb[j - stack1.len()]);
                                assert(adjacent(w, h, v as int, nb[j - stack1.len()] as int));
                                lemma_reaches_step(init, w, h, start as int, v as int, stack[j] as int);
                            } else {
                                assert(stack[j] == stack1[j]);
                            }
                        }
                        assert forall|u: usize| stack1.contains(u) implies stack@.contains(u) by {
                            let j = choose|j: int| 0 <= j < stack1.len() && stack1[j] == u;
                            assert(stack@[j] == u);
                        }
                        assert forall|u: usize| nb.contains(u) implies stack@.contains(u) by {
                            let j = choose|j: int| 0 <= j < nb.len() && nb[j] == u;
                            assert(stack@[stack1.len() + j] == u);
                        }
                    }
                }
            }
            proof {
                assert(forall|u: usize| stack0.contains(u) && u != v ==> stack@.contains(u));
                assert forall|v2: int, u: int|
                    0 <= v2 < n && #[trigger] self.cells[v2] != init[v2] && init[v2].zero()
                        && #[trigger] adjacent(w, h, v2, u) implies stack@.contains(u as usize) || !openable(
                    self.cells[u],
                ) || self.cells[u].mine() by {
                    if v2 == v && opened {
                        lemma_neighbor_seq(w, h, v as int);
                        assert(neighbor_seq(w, h, v as int).contains(u as usize));
                    } else {
                        assert(before[v2] != init[v2]);
                        if stack0.contains(u as usize) && u as usize != v {
                        } else if u as usize == v {
                        } else {
                            assert(!openable(before[u]) || before[u].mine());
                        }
                    }
                }
            }
        }
        proof {
            let cur = self.cells@;
            assert forall|c: int| 0 <= c < n implies #[trigger] cur[c] == cascade(init, w, h, start as int)[c] by {
                if in_cascade(init, w, h, start as int, c) {
                    let p = choose|p: Seq<int>| #[trigger] is_cascade_path(init, w, h, start as int, p) && p.last() == c;
                    assert forall|k: int| 0 <= k < p.len() implies 0 <= #[trigger] p[k] < init.len() by {
                        if k > 0 {
                            assert(adjacent(w, h, p[k - 1], p[k]));
                        }
                    }
                    lemma_cascade_closed(init, cur, w, h, start as int, p, p.len() - 1);
                }
            }
            assert(cur =~= cascade(init, w, h, start as int));
        }
        newly
    }
}

impl Board {
    pub fn width(&self) -> (r: usize)
        ensures
            r == self.spec_width(),
    {
        self.width
    }

    pub fn height(&self) -> (r: usize)
        ensures
            r == self.spec_height(),
    {
        self.height
    }

    /// The cells, in row-major order.
    pub fn cells(&self) -> (r: &Vec<Cell>)
        ensures
            r@ == self.spec_cells(),
    {
        &self.cells
    }

    pub fn cell(&self, index: usize) -> (r: Cell)
        requires
            index < self.spec_cells().len(),
        ensures
            r == self.spec_cells()[index as int],
    {
        self.cells[index]
    }

    /// The indices of the mines, in increasing order.
    pub fn mine_indices(&self) -> (r: &Vec<usize>)
        ensures
            r@ == self.spec_mine_indices(),
    {
        &self.mine_indices
    }

    /// The neighbors of a cell, row by row from the top left.
    pub fn neighbors_of(&self, index: usize) -> (r: &Vec<usize>)
        requires
            self.wf(),
            index < self.cell_count(),
        ensures
            r@ == self.nbrs(index as int),
    {
        &self.neighbors[index]
    }

    /// Cycles the mark of one cell.
    pub fn cycle_cell(&mut self, index: usize, allow_unknown: bool)
        requires
            old(self).wf(),
            index < old(self).cell_count(),
        ensures
            final(self).wf(),
            final(self).spec_width() == old(self).spec_width(),
            final(self).spec_height() == old(self).spec_height(),
            final(self).spec_mine_indices() == old(self).spec_mine_indices(),
            final(self).spec_cells() == old(self).spec_cells().update(
                index as int,
                old(self).spec_cells()[index as int].cycled(allow_unknown),
            ),
            count_open(final(self).spec_cells()) == count_open(old(self).spec_cells()),
    {
        let ghost before = self.cells@;
        self.cells[index].cycle_display(allow_unknown);
        proof {
            assert(mines_of(self.cells@) =~= mines_of(before));
            lemma_count_below_ext(
                before.len(),
                |k: int| before[k].shown() && !before[k].mine(),
                |k: int| self.cells@[k].shown() && !self.cells@[k].mine(),
            );
        }
    }

    /// Uncovers every mine that is not flagged.
    pub fn reveal_mines(&mut self)
        requires
            old(self).wf(),
        ensures
            final(self).wf(),
            final(self).spec_width() == old(self).spec_width(),
            final(self).spec_height() == old(self).spec_height(),
            final(self).spec_mine_indices() == old(self).spec_mine_indices(),
            final(self).spec_cells() == with_mines_shown(old(self).spec_cells()),
            count_open(final(self).spec_cells()) == count_open(old(self).spec_cells()),
    {
        let ghost init = self.cells@;
        let mut k: usize = 0;
        while k < self.cells.len()
            invariant
                self.wf(),
                self.width == old(self).width,
                self.height == old(self).height,
                self.mine_indices@ == old(self).mine_indices@,
                init == old(self).cells@,
                self.cells.len() == init.len(),
                k <= init.len(),
                forall|j: int|
                    0 <= j < init.len() ==> #[trigger] self.cells[j] == if j < k {
                        with_mines_shown(init)[j]
                    } else {
                        init[j]
                    },
            decreases init.len() - k,
        {
            if self.cells[k].is_mine() {
                let ghost before = self.cells@;
                self.cells[k].handle_click();
                assert(mines_of(self.cells@) =~= mines_of(before));
            }
            k = k + 1;
        }
        proof {
            assert(self.cells@ =~= with_mines_shown(init));
            lemma_count_below_ext(
                init.len(),
                |j: int| init[j].shown() && !init[j].mine(),
                |j: int| self.cells@[j].shown() && !self.cells@[j].mine(),
            );
        }
    }

    /// Flags every mine.
    pub fn flag_all_mines(&mut self)
        requires
            old(self).wf(),
        ensures
            final(self).wf(),
            final(self).spec_width() == old(self).spec_width(),
            final(self).spec_height() == old(self).spec_height(),
            final(self).spec_mine_indices() == old(self).spec_mine_indices(),
            final(self).spec_cells() == with_mines_flagged(old(self).spec_cells()),
            count_open(final(self).spec_cells()) == count_open(old(self).spec_cells()),
    {
        let ghost init = self.cells@;
        let mut k: usize = 0;
        while k < self.cells.len()
            invariant
                self.wf(),
                self.width == old(self).width,
                self.height == old(self).height,
                self.mine_indices@ == old(self).mine_indices@,
                init == old(self).cells@,
                self.cells.len() == init.len(),
                k <= init.len(),
                forall|j: int|
                    0 <= j < init.len() ==> #[trigger] self.cells[j] == if j < k {
                        with_mines_flagged(init)[j]
                    } else {
                        init[j]
                    },
            decreases init.len() - k,
        {
            if self.cells[k].is_mine() {
                let ghost before = self.cells@;
                self.cells[k].set_display_to_flagged();
                assert(mines_of(self.cells@) =~= mines_of(before));
            }
            k = k + 1;
        }
        proof {
            assert(self.cells@ =~= with_mines_flagged(init));
            lemma_count_below_ext(
                init.len(),
                |j: int| init[j].shown() && !init[j].mine(),
                |j: int| self.cells@[j].shown() && !self.cells@[j].mine(),
            );
        }
    }

    /// Number of flagged cells.
    pub fn count_flagged(&self) -> (r: usize)
        ensures
            r == count_below(self.spec_cells().len(), |k: int| self.spec_cells()[k].flagged()),
    {
        let mut count: usize = 0;
        let mut k: usize = 0;
        while k < self.cells.len()
            invariant
                k <= self.cells.len(),
                count == count_below(k as nat, |j: int| self.cells@[j].flagged()),
                count <= k,
            decreases self.cells.len() - k,
        {
            if self.cells[k].is_flagged() {
                count = count + 1;
            }
            k = k + 1;
        }
        count
    }

    /// How many neighbors of a cell hold a mine, and how many are flagged.
    pub fn neighbor_counts(&self, index: usize) -> (r: (usize, usize))
        requires
            self.wf(),
            index < self.cell_count(),
        ensures
            r.0 == count_marked(mines_of(self.spec_cells()), self.nbrs(index as int)),
            r.1 == count_marked(flags_of(self.spec_cells()), self.nbrs(index as int)),
    {
        let nb = &self.neighbors[index];
        proof {
            lemma_neighbor_seq(self.width as int, self.height as int, index as int);
        }
        let mut mines: usize = 0;
        let mut flags: usize = 0;
        let mut j: usize = 0;
        while j < nb.len()
            invariant
                self.wf(),
                nb@ == self.nbrs(index as int),
                forall|k: int| 0 <= k < nb.len() ==> #[trigger] nb[k] < self.cells.len(),
                j <= nb.len(),
                mines == count_marked(mines_of(self.cells@), nb@.take(j as int)),
                flags == count_marked(flags_of(self.cells@), nb@.take(j as int)),
                mines <= j,
                flags <= j,
            decreases nb.len() - j,
        {
            assert(nb@.take(j as int + 1).drop_last() =~= nb@.take(j as int));
            let c = self.cells[nb[j]];
            if c.is_mine() {
                mines = mines + 1;
            }
            if c.is_flagged() {
                flags = flags + 1;
            }
            j = j + 1;
        }
        assert(nb@.take(nb.len() as int) =~= nb@);
        (mines, flags)
    }
}

} // verus!
