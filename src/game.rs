//! A game session: the board, the settings, the status of the game, the
//! elapsed time and the mouse buttons held, driven by one event at a time.

use vstd::prelude::*;
use rand::rngs::StdRng;
use crate::board::{
    count_marked, always_room, lemma_zero_first_click, count_below, fresh_cells, has_room_for_mines, lemma_count_below_ext, mines_allowed,
    mines_of, room_for_mines, seeded_rng, Board,
};
use crate::cascade::{
    cascade, count_open, flags_of, in_cascade, lemma_count_open_mines_flagged,
    lemma_count_open_mines_shown, lemma_reaches_start, openable, with_mines_flagged, with_mines_shown,
};
use crate::cell::{Cell, Value};
use crate::face::Face;
use crate::geometry::{lemma_neighbor_seq, lemma_size_bound, neighbor_seq, valid_size};
use crate::mouse_state::{MouseButton, MouseState};
use crate::settings::{Difficulty, Dimensions, FirstClickSetting, Settings};

verus! {

/// Where a game stands.
#[derive(Clone, Copy, Debug, PartialEq, Eq, Structural)]
pub enum GameStatus {
    /// No cell has been uncovered yet; the mines are not placed.
    NotStarted,
    Active,
    Won,
    Lost,
}

impl GameStatus {
    /// The game takes clicks: it is not over.
    pub open spec fn accepts_input(self) -> bool {
        self == GameStatus::NotStarted || self == GameStatus::Active
    }
}

/// Longest time the clock shows, in seconds.
pub const MAX_SECONDS: usize = 999;

/// Lowest count of remaining mines that is shown.
pub const MIN_MINES_REMAINING: isize = -99;

/// A board of these dimensions can be played under the first-click setting:
/// wherever the first click falls, the mines fit around it.
pub open spec fn fits(width: int, height: int, mines: int, policy: FirstClickSetting) -> bool {
    &&& valid_size(width, height)
    &&& 0 <= mines < width * height
    &&& always_room(width, height, mines, policy)
}

/// Cells and status after a click on `index` in a running game with `mines`
/// mines: nothing happens on an uncovered or flagged cell; a mine is lost and
/// uncovers every unflagged mine; a safe cell uncovers its cascade, and the
/// game is won, with every mine flagged, once only mines stay covered.
pub open spec fn click_outcome(
    cells: Seq<Cell>,
    width: int,
    height: int,
    mines: int,
    index: int,
) -> (Seq<Cell>, GameStatus) {
    if !openable(cells[index]) {
        (cells, GameStatus::Active)
    } else if cells[index].mine() {
        (with_mines_shown(cells), GameStatus::Lost)
    } else {
        let opened = cascade(cells, width, height, index);
        if count_open(opened) + mines == cells.len() {
            (with_mines_flagged(opened), GameStatus::Won)
        } else {
            (opened, GameStatus::Active)
        }
    }
}

/// Cells, status and detonated mine after clicks on each listed cell in
/// turn; once the game is over the remaining clicks change nothing.
pub open spec fn clicks_outcome(
    cells: Seq<Cell>,
    status: GameStatus,
    detonated: Option<usize>,
    width: int,
    height: int,
    mines: int,
    idx: Seq<usize>,
) -> (Seq<Cell>, GameStatus, Option<usize>)
    decreases idx.len(),
{
    if idx.len() == 0 {
        (cells, status, detonated)
    } else {
        let prev = clicks_outcome(cells, status, detonated, width, height, mines, idx.drop_last());
        if prev.1 == GameStatus::Active {
            let o = click_outcome(prev.0, width, height, mines, idx.last() as int);
            (o.0, o.1, if o.1 == GameStatus::Lost { Some(idx.last()) } else { prev.2 })
        } else {
            prev
        }
    }
}

/// A game in progress, or about to start.
pub struct Session {
    settings: Settings,
    board: Board,
    status: GameStatus,
    shown_cells_count: usize,
    seconds_played: usize,
    mouse_state: MouseState,
    selected_cell_index: Option<usize>,
    first_clicked_mine_index: Option<usize>,
    rng: StdRng,
}

impl Session {
    pub closed spec fn spec_settings(&self) -> Settings {
        self.settings
    }

    pub closed spec fn spec_board(&self) -> Board {
        self.board
    }

    pub closed spec fn spec_status(&self) -> GameStatus {
        self.status
    }

    pub closed spec fn spec_revealed(&self) -> int {
        self.shown_cells_count as int
    }

    pub closed spec fn spec_seconds(&self) -> int {
        self.seconds_played as int
    }

    pub closed spec fn spec_mouse(&self) -> MouseState {
        self.mouse_state
    }

    pub closed spec fn spec_selected(&self) -> Option<usize> {
        self.selected_cell_index
    }

    pub closed spec fn spec_detonated(&self) -> Option<usize> {
        self.first_clicked_mine_index
    }

    pub open spec fn spec_cells(&self) -> Seq<Cell> {
        self.spec_board().spec_cells()
    }

    pub open spec fn spec_width(&self) -> int {
        self.spec_settings().spec_dimensions().spec_width() as int
    }

    pub open spec fn spec_height(&self) -> int {
        self.spec_settings().spec_dimensions().spec_height() as int
    }

    pub open spec fn spec_mines(&self) -> int {
        self.spec_settings().spec_dimensions().spec_mines() as int
    }

    pub open spec fn spec_policy(&self) -> FirstClickSetting {
        self.spec_settings().spec_first_click_setting()
    }

    pub open spec fn cell_count(&self) -> int {
        self.spec_width() * self.spec_height()
    }

    /// The session's invariant.
    pub closed spec fn wf(&self) -> bool {
        let d = self.settings.spec_dimensions();
        &&& self.settings.wf()
        &&& fits(
            d.spec_width() as int,
            d.spec_height() as int,
            d.spec_mines() as int,
            self.settings.spec_first_click_setting(),
        )
        &&& self.board.wf()
        &&& self.board.spec_width() == d.spec_width()
        &&& self.board.spec_height() == d.spec_height()
        &&& self.shown_cells_count == count_open(self.board.spec_cells())
        &&& self.status != GameStatus::NotStarted ==> self.board.spec_mine_indices().len() == d.spec_mines()
        &&& self.status == GameStatus::Active ==> self.shown_cells_count + d.spec_mines() != self.board.cell_count()
        &&& self.selected_cell_index matches Some(i) ==> i < self.board.cell_count()
        &&& self.first_clicked_mine_index matches Some(i) ==> i < self.board.cell_count()
        &&& self.seconds_played <= MAX_SECONDS
    }

    /// What the invariant says of the public views.
    pub proof fn lemma_wf(&self)
        requires
            self.wf(),
        ensures
            fits(self.spec_width(), self.spec_height(), self.spec_mines(), self.spec_policy()),
            self.spec_cells().len() == self.cell_count(),
            self.spec_board().wf(),
            self.spec_board().spec_width() == self.spec_width(),
            self.spec_board().spec_height() == self.spec_height(),
            self.spec_revealed() == count_open(self.spec_cells()),
            self.spec_status() != GameStatus::NotStarted ==> self.spec_board().spec_mine_indices().len()
                == self.spec_mines(),
            self.spec_status() == GameStatus::Active ==> self.spec_revealed() + self.spec_mines()
                != self.cell_count(),
            0 <= self.spec_seconds() <= MAX_SECONDS,
    {
        self.board.lemma_wf();
    }

    /// Whether a game of these dimensions can be played under the first-click setting.
    pub fn dimensions_fit(dimensions: &Dimensions, policy: FirstClickSetting) -> (r: bool)
        ensures
            r == fits(
                dimensions.spec_width() as int,
                dimensions.spec_height() as int,
                dimensions.spec_mines() as int,
                policy,
            ),
    {
        let width = dimensions.width();
        let height = dimensions.height();
        let mines = dimensions.mines();
        if width == 0 || height == 0 || width > crate::settings::MAX_WIDTH || height
            > crate::settings::MAX_HEIGHT {
            return false;
        }
        proof {
            lemma_size_bound(width as int, height as int);
        }
        if mines >= width * height {
            return false;
        }
        has_room_for_mines(width, height, mines, policy)
    }

    /// A new game, not started, whose mines will be drawn from a generator
    /// seeded with `seed`.
    pub fn new(settings: Settings, seed: u64) -> (r: Self)
        requires
            fits(
                settings.spec_dimensions().spec_width() as int,
                settings.spec_dimensions().spec_height() as int,
                settings.spec_dimensions().spec_mines() as int,
                settings.spec_first_click_setting(),
            ),
        ensures
            r.wf(),
            r.spec_settings() == settings,
            r.spec_status() == GameStatus::NotStarted,
            r.spec_cells() == fresh_cells(
                r.spec_width(),
                r.spec_height(),
                Seq::new(r.cell_count() as nat, |k: int| false),
            ),
            r.spec_revealed() == 0,
            r.spec_seconds() == 0,
            r.spec_mouse() == MouseState::Neither,
            r.spec_selected() is None,
            r.spec_detonated() is None,
    {
        let dimensions = settings.dimensions();
        let board = Board::new_empty(dimensions.width(), dimensions.height());
        proof {
            Self::lemma_fresh_closed(board.spec_cells());
        }
        Session {
            settings,
            board,
            status: GameStatus::NotStarted,
            shown_cells_count: 0,
            seconds_played: 0,
            mouse_state: MouseState::Neither,
            selected_cell_index: None,
            first_clicked_mine_index: None,
            rng: seeded_rng(seed),
        }
    }

    /// A board of covered cells has no cell uncovered.
    pub proof fn lemma_fresh_closed(cells: Seq<Cell>)
        requires
            forall|k: int| 0 <= k < cells.len() ==> (#[trigger] cells[k]).display == crate::cell::DisplayState::Default,
        ensures
            count_open(cells) == 0,
    {
        lemma_count_below_ext(
            cells.len(),
            |k: int| cells[k].shown() && !cells[k].mine(),
            |k: int| false,
        );
        Board::lemma_count_below_none(cells.len());
    }
}

/// Clicking changes only the values' display, never the values.
pub proof fn lemma_click_keeps_values(cells: Seq<Cell>, width: int, height: int, mines: int, index: int)
    ensures
        click_outcome(cells, width, height, mines, index).0.len() == cells.len(),
        forall|k: int|
            0 <= k < cells.len() ==> (#[trigger] click_outcome(cells, width, height, mines, index).0[k]).value
                == cells[k].value,
        mines_of(click_outcome(cells, width, height, mines, index).0) == mines_of(cells),
{
    let out = click_outcome(cells, width, height, mines, index).0;
    assert(mines_of(out) =~= mines_of(cells));
}

/// What a click on `index` does to a session, from `pre` to `post`.
pub open spec fn clicked(pre: Session, post: Session, index: int) -> bool {
    let w = pre.spec_width();
    let h = pre.spec_height();
    let mines = pre.spec_mines();
    &&& post.spec_settings() == pre.spec_settings()
    &&& post.spec_seconds() == pre.spec_seconds()
    &&& !pre.spec_status().accepts_input() ==> {
        &&& post.spec_board() == pre.spec_board()
        &&& post.spec_status() == pre.spec_status()
    }
    &&& pre.spec_status() == GameStatus::Active ==> {
        &&& (post.spec_cells(), post.spec_status()) == click_outcome(pre.spec_cells(), w, h, mines, index)
        &&& post.spec_board().spec_mine_indices() == pre.spec_board().spec_mine_indices()
    }
    &&& pre.spec_status() == GameStatus::NotStarted ==> {
        &&& post.spec_board().spec_mine_indices().len() == mines
        &&& mines_allowed(post.spec_cells(), w, h, pre.spec_policy(), index)
        &&& (post.spec_cells(), post.spec_status()) == click_outcome(
            fresh_cells(w, h, mines_of(post.spec_cells())),
            w,
            h,
            mines,
            index,
        )
    }
    &&& post.spec_detonated() == if pre.spec_status().accepts_input() && post.spec_status()
        == GameStatus::Lost {
        Some(index as usize)
    } else {
        pre.spec_detonated()
    }
}

impl Session {
    /// Places the mines around the first click and starts the game.
    fn start_game(&mut self, index: usize)
        requires
            old(self).wf(),
            old(self).spec_status() == GameStatus::NotStarted,
            index < old(self).cell_count(),
        ensures
            final(self).wf(),
            final(self).spec_status() == GameStatus::Active,
            final(self).spec_settings() == old(self).spec_settings(),
            final(self).spec_seconds() == old(self).spec_seconds(),
            final(self).spec_mouse() == old(self).spec_mouse(),
            final(self).spec_selected() == old(self).spec_selected(),
            final(self).spec_detonated() == old(self).spec_detonated(),
            final(self).spec_board().spec_mine_indices().len() == old(self).spec_mines(),
            mines_allowed(
                final(self).spec_cells(),
                old(self).spec_width(),
                old(self).spec_height(),
                old(self).spec_policy(),
                index as int,
            ),
            final(self).spec_cells() == fresh_cells(
                old(self).spec_width(),
                old(self).spec_height(),
                mines_of(final(self).spec_cells()),
            ),
    {
        let dimensions = self.settings.dimensions();
        assert(room_for_mines(
            dimensions.spec_width() as int,
            dimensions.spec_height() as int,
            dimensions.spec_mines() as int,
            self.settings.spec_first_click_setting(),
            index as int,
        ));
        let board = Board::generate(
            dimensions.width(),
            dimensions.height(),
            dimensions.mines(),
            self.settings.first_click_setting(),
            index,
            &mut self.rng,
        );
        self.board = board;
        proof {
            Self::lemma_fresh_closed(self.board.spec_cells());
        }
        self.shown_cells_count = 0;
        self.status = GameStatus::Active;
    }

    /// A click on `index` while the game is running.
    fn click_active(&mut self, index: usize)
        requires
            old(self).wf(),
            old(self).spec_status() == GameStatus::Active,
            index < old(self).cell_count(),
        ensures
            final(self).wf(),
            final(self).spec_settings() == old(self).spec_settings(),
            final(self).spec_seconds() == old(self).spec_seconds(),
            final(self).spec_mouse() == old(self).spec_mouse(),
            final(self).spec_selected() == old(self).spec_selected(),
            (final(self).spec_cells(), final(self).spec_status()) == click_outcome(
                old(self).spec_cells(),
                old(self).spec_width(),
                old(self).spec_height(),
                old(self).spec_mines(),
                index as int,
            ),
            final(self).spec_board().spec_mine_indices() == old(self).spec_board().spec_mine_indices(),
            final(self).spec_detonated() == if final(self).spec_status() == GameStatus::Lost {
                Some(index)
            } else {
                old(self).spec_detonated()
            },
    {
        proof {
            self.board.lemma_wf();
            lemma_size_bound(self.board.spec_width(), self.board.spec_height());
        }
        let cell = self.board.cell(index);
        if cell.is_shown() || cell.is_flagged() {
            return;
        }
        if cell.is_mine() {
            self.board.reveal_mines();
            self.first_clicked_mine_index = Some(index);
            self.status = GameStatus::Lost;
            return;
        }
        let newly = self.board.flood_reveal(index);
        proof {
            self.board.lemma_wf();
            crate::board::lemma_count_below_le(
                self.board.spec_cells().len(),
                |k: int| self.board.spec_cells()[k].shown() && !self.board.spec_cells()[k].mine(),
            );
        }
        self.shown_cells_count = self.shown_cells_count + newly;
        if self.shown_cells_count + self.board.mine_indices().len() == self.board.cells().len() {
            self.board.flag_all_mines();
            self.status = GameStatus::Won;
        }
    }

    /// Uncovers a cell as a direct click: the first click of a game places
    /// the mines first, around it; a click on a mine loses the game; a click
    /// that leaves only mines covered wins it. Returns whether the game was
    /// still taking clicks.
    pub fn handle_click(&mut self, index: usize) -> (accepted: bool)
        requires
            old(self).wf(),
            index < old(self).cell_count(),
        ensures
            final(self).wf(),
            clicked(*old(self), *final(self), index as int),
            final(self).spec_mouse() == old(self).spec_mouse(),
            final(self).spec_selected() == old(self).spec_selected(),
            !old(self).spec_status().accepts_input() ==> *final(self) == *old(self),
            accepted == old(self).spec_status().accepts_input(),
    {
        if self.status != GameStatus::NotStarted && self.status != GameStatus::Active {
            return false;
        }
        if self.status == GameStatus::NotStarted {
            self.start_game(index);
        }
        let ghost mid = *self;
        self.click_active(index);
        proof {
            lemma_click_keeps_values(
                mid.spec_cells(),
                mid.spec_width(),
                mid.spec_height(),
                mid.spec_mines(),
                index as int,
            );
        }
        true
    }
}

/// A chord on `index` goes ahead: the cell is uncovered and as many of its
/// neighbors are flagged as hold a mine.
pub open spec fn chord_fires(cells: Seq<Cell>, width: int, height: int, index: int) -> bool {
    &&& cells[index].shown()
    &&& count_marked(mines_of(cells), neighbor_seq(width, height, index)) == count_marked(
        flags_of(cells),
        neighbor_seq(width, height, index),
    )
}

/// What a chord on `index` does to a session, from `pre` to `post`: in a
/// running game where it fires, every neighbor is clicked in turn.
pub open spec fn chorded(pre: Session, post: Session, index: int) -> bool {
    let w = pre.spec_width();
    let h = pre.spec_height();
    &&& post.spec_settings() == pre.spec_settings()
    &&& post.spec_seconds() == pre.spec_seconds()
    &&& if pre.spec_status() == GameStatus::Active && chord_fires(pre.spec_cells(), w, h, index) {
        &&& (post.spec_cells(), post.spec_status(), post.spec_detonated()) == clicks_outcome(
            pre.spec_cells(),
            GameStatus::Active,
            pre.spec_detonated(),
            w,
            h,
            pre.spec_mines(),
            neighbor_seq(w, h, index),
        )
        &&& post.spec_board().spec_mine_indices() == pre.spec_board().spec_mine_indices()
    } else {
        &&& post.spec_board() == pre.spec_board()
        &&& post.spec_status() == pre.spec_status()
        &&& post.spec_detonated() == pre.spec_detonated()
    }
}

/// A copy of a list of indices.
fn copy_list(v: &Vec<usize>) -> (r: Vec<usize>)
    ensures
        r@ == v@,
{
    let mut r: Vec<usize> = Vec::new();
    let mut j: usize = 0;
    while j < v.len()
        invariant
            j <= v.len(),
            r@ == v@.take(j as int),
        decreases v.len() - j,
    {
        r.push(v[j]);
        j = j + 1;
        assert(r@ =~= v@.take(j as int));
    }
    assert(v@.take(v.len() as int) =~= v@);
    r
}

impl Session {
    /// Chords on an uncovered cell: where as many neighbors are flagged as
    /// hold a mine, clicks every neighbor in turn (a wrong flag loses the
    /// game). Returns whether the chord went ahead.
    pub fn handle_chord(&mut self, index: usize) -> (fired: bool)
        requires
            old(self).wf(),
            index < old(self).cell_count(),
        ensures
            final(self).wf(),
            chorded(*old(self), *final(self), index as int),
            final(self).spec_mouse() == old(self).spec_mouse(),
            final(self).spec_selected() == old(self).spec_selected(),
            !(old(self).spec_status() == GameStatus::Active && chord_fires(
                old(self).spec_cells(),
                old(self).spec_width(),
                old(self).spec_height(),
                index as int,
            )) ==> *final(self) == *old(self),
            fired == (old(self).spec_status() == GameStatus::Active && chord_fires(
                old(self).spec_cells(),
                old(self).spec_width(),
                old(self).spec_height(),
                index as int,
            )),
    {
        if self.status != GameStatus::Active {
            return false;
        }
        proof {
            self.board.lemma_wf();
        }
        let cell = self.board.cell(index);
        if !cell.is_shown() {
            return false;
        }
        let (mines, flags) = self.board.neighbor_counts(index);
        if mines != flags {
            return false;
        }
        let nb = copy_list(self.board.neighbors_of(index));
        let ghost pre = *self;
        let ghost w = self.spec_width();
        let ghost h = self.spec_height();
        proof {
            lemma_neighbor_seq(w, h, index as int);
            assert(clicks_outcome(pre.spec_cells(), GameStatus::Active, pre.spec_detonated(), w, h, pre.spec_mines(), nb@.take(0))
                == (pre.spec_cells(), GameStatus::Active, pre.spec_detonated()));
        }
        let mut j: usize = 0;
        while j < nb.len()
            invariant
                self.wf(),
                j <= nb.len(),
                nb@ == neighbor_seq(w, h, index as int),
                forall|k: int| 0 <= k < nb.len() ==> #[trigger] nb[k] < pre.cell_count(),
                w == pre.spec_width(),
                h == pre.spec_height(),
                self.spec_settings() == pre.spec_settings(),
                self.spec_seconds() == pre.spec_seconds(),
                self.spec_mouse() == pre.spec_mouse(),
                self.spec_selected() == pre.spec_selected(),
                self.spec_status() != GameStatus::NotStarted,
                self.spec_board().spec_mine_indices() == pre.spec_board().spec_mine_indices(),
                (self.spec_cells(), self.spec_status(), self.spec_detonated()) == clicks_outcome(
                    pre.spec_cells(),
                    GameStatus::Active,
                    pre.spec_detonated(),
                    w,
                    h,
                    pre.spec_mines(),
                    nb@.take(j as int),
                ),
            decreases nb.len() - j,
        {
            assert(nb@.take(j as int + 1).drop_last() =~= nb@.take(j as int));
            self.handle_click(nb[j]);
            j = j + 1;
        }
        assert(nb@.take(nb.len() as int) =~= nb@);
        true
    }

    /// Cycles the mark of a cell while the game takes clicks.
    pub fn handle_right_click(&mut self, index: usize) -> (accepted: bool)
        requires
            old(self).wf(),
            index < old(self).cell_count(),
        ensures
            final(self).wf(),
            accepted == old(self).spec_status().accepts_input(),
            !accepted ==> *final(self) == *old(self),
            accepted ==> final(self).spec_cells() == old(self).spec_cells().update(
                index as int,
                old(self).spec_cells()[index as int].cycled(
                    old(self).spec_settings().spec_allow_unknown(),
                ),
            ),
            final(self).spec_status() == old(self).spec_status(),
            final(self).spec_settings() == old(self).spec_settings(),
            final(self).spec_seconds() == old(self).spec_seconds(),
            final(self).spec_mouse() == old(self).spec_mouse(),
            final(self).spec_selected() == old(self).spec_selected(),
            final(self).spec_detonated() == old(self).spec_detonated(),
            final(self).spec_board().spec_mine_indices() == old(self).spec_board().spec_mine_indices(),
    {
        if self.status != GameStatus::NotStarted && self.status != GameStatus::Active {
            return false;
        }
        proof {
            self.board.lemma_wf();
        }
        let allow = self.settings.allow_mark_cell_as_unknown();
        self.board.cycle_cell(index, allow);
        true
    }

    /// One second passes: the clock of a running game advances, up to its maximum.
    pub fn handle_tick(&mut self) -> (r: bool)
        requires
            old(self).wf(),
        ensures
            final(self).wf(),
            r == (old(self).spec_status() == GameStatus::Active),
            final(self).spec_seconds() == if old(self).spec_status() == GameStatus::Active
                && old(self).spec_seconds() < MAX_SECONDS {
                old(self).spec_seconds() + 1
            } else {
                old(self).spec_seconds()
            },
            final(self).spec_board() == old(self).spec_board(),
            final(self).spec_status() == old(self).spec_status(),
            final(self).spec_settings() == old(self).spec_settings(),
            final(self).spec_mouse() == old(self).spec_mouse(),
            final(self).spec_selected() == old(self).spec_selected(),
            final(self).spec_detonated() == old(self).spec_detonated(),
    {
        if self.status != GameStatus::Active {
            return false;
        }
        if self.seconds_played < MAX_SECONDS {
            self.seconds_played = self.seconds_played + 1;
        }
        true
    }

    /// A new game on a board of the same size.
    pub fn handle_reset(&mut self) -> (r: bool)
        requires
            old(self).wf(),
        ensures
            final(self).wf(),
            r,
            final(self).spec_status() == GameStatus::NotStarted,
            final(self).spec_cells() == fresh_cells(
                final(self).spec_width(),
                final(self).spec_height(),
                Seq::new(final(self).cell_count() as nat, |k: int| false),
            ),
            final(self).spec_revealed() == 0,
            final(self).spec_seconds() == 0,
            final(self).spec_detonated() is None,
            final(self).spec_settings() == old(self).spec_settings(),
            final(self).spec_mouse() == old(self).spec_mouse(),
            final(self).spec_selected() == old(self).spec_selected(),
    {
        let dimensions = self.settings.dimensions();
        self.board = Board::new_empty(dimensions.width(), dimensions.height());
        proof {
            Self::lemma_fresh_closed(self.board.spec_cells());
        }
        self.status = GameStatus::NotStarted;
        self.seconds_played = 0;
        self.shown_cells_count = 0;
        self.first_clicked_mine_index = None;
        true
    }

    /// Switches to another difficulty and starts a new game on its board.
    pub fn handle_change_size(&mut self, difficulty: Difficulty) -> (r: bool)
        requires
            old(self).wf(),
            fits(
                difficulty.board_width() as int,
                difficulty.board_height() as int,
                difficulty.board_mines() as int,
                old(self).spec_policy(),
            ),
        ensures
            final(self).wf(),
            r,
            final(self).spec_settings().spec_difficulty() == difficulty,
            final(self).spec_settings().spec_chord_setting() == old(self).spec_settings().spec_chord_setting(),
            final(self).spec_policy() == old(self).spec_policy(),
            final(self).spec_settings().spec_allow_unknown() == old(self).spec_settings().spec_allow_unknown(),
            final(self).spec_status() == GameStatus::NotStarted,
            final(self).spec_cells() == fresh_cells(
                final(self).spec_width(),
                final(self).spec_height(),
                Seq::new(final(self).cell_count() as nat, |k: int| false),
            ),
            final(self).spec_revealed() == 0,
            final(self).spec_seconds() == 0,
            final(self).spec_detonated() is None,
            final(self).spec_mouse() == MouseState::Neither,
            final(self).spec_selected() is None,
    {
        self.settings.set_difficulty(difficulty);
        self.mouse_state = MouseState::Neither;
        self.selected_cell_index = None;
        let dimensions = self.settings.dimensions();
        self.board = Board::new_empty(dimensions.width(), dimensions.height());
        proof {
            Self::lemma_fresh_closed(self.board.spec_cells());
        }
        self.status = GameStatus::NotStarted;
        self.seconds_played = 0;
        self.shown_cells_count = 0;
        self.first_clicked_mine_index = None;
        true
    }
}

/// Releasing `button` over `index` uncovers the cell: the left button alone
/// was held, pressed on that same cell, and a left click there does not chord.
pub open spec fn release_clicks(pre: Session, index: int, button: MouseButton) -> bool {
    &&& pre.spec_mouse() == MouseState::Left
    &&& pre.spec_mouse().released(button) == MouseState::Neither
    &&& pre.spec_selected() == Some(index as usize)
    &&& !MouseState::Left.spec_is_chording(
        pre.spec_settings().spec_chord_setting(),
        pre.spec_cells()[index].shown(),
    )
}

/// Releasing `button` over `index` chords there: the press was on that same
/// cell, and either both buttons were held and one of them is released, or
/// the left button alone is released where a left click chords.
pub open spec fn release_chords(pre: Session, index: int, button: MouseButton) -> bool {
    &&& pre.spec_selected() == Some(index as usize)
    &&& {
        ||| (pre.spec_mouse() == MouseState::Left && pre.spec_mouse().released(button)
            == MouseState::Neither && MouseState::Left.spec_is_chording(
            pre.spec_settings().spec_chord_setting(),
            pre.spec_cells()[index].shown(),
        ))
        ||| (pre.spec_mouse() == MouseState::Both && pre.spec_mouse().released(button)
            != MouseState::Both)
    }
}

impl Session {
    /// A button is pressed over `index`: the left button selects the cell
    /// (so does pressing both), the right one alone cycles its mark.
    /// Returns whether anything shown may have changed.
    pub fn handle_mouse_down(&mut self, index: usize, button: MouseButton) -> (r: bool)
        requires
            old(self).wf(),
            index < old(self).cell_count(),
        ensures
            final(self).wf(),
            !old(self).spec_status().accepts_input() ==> *final(self) == *old(self) && !r,
            old(self).spec_status().accepts_input() ==> {
                let m = old(self).spec_mouse().pressed(button);
                &&& final(self).spec_mouse() == m
                &&& r == (m == MouseState::Left || m == MouseState::Both || (m == MouseState::Right
                    && button == MouseButton::Right))
                &&& final(self).spec_selected() == if m == MouseState::Left || m == MouseState::Both {
                    Some(index)
                } else {
                    old(self).spec_selected()
                }
                &&& final(self).spec_cells() == if m == MouseState::Right && button == MouseButton::Right {
                    old(self).spec_cells().update(
                        index as int,
                        old(self).spec_cells()[index as int].cycled(
                            old(self).spec_settings().spec_allow_unknown(),
                        ),
                    )
                } else {
                    old(self).spec_cells()
                }
            },
            final(self).spec_status() == old(self).spec_status(),
            final(self).spec_settings() == old(self).spec_settings(),
            final(self).spec_seconds() == old(self).spec_seconds(),
            final(self).spec_detonated() == old(self).spec_detonated(),
            final(self).spec_board().spec_mine_indices() == old(self).spec_board().spec_mine_indices(),
    {
        if self.status != GameStatus::NotStarted && self.status != GameStatus::Active {
            return false;
        }
        self.mouse_state = self.mouse_state.mouse_down(button);
        match self.mouse_state {
            MouseState::Left | MouseState::Both => {
                self.selected_cell_index = Some(index);
                true
            },
            MouseState::Right => {
                if button == MouseButton::Right {
                    self.handle_right_click(index)
                } else {
                    false
                }
            },
            _ => false,
        }
    }

    /// A button is released over `index`. The click or chord that the press
    /// began happens only if the release is over the cell that was pressed.
    /// Returns whether anything shown may have changed.
    pub fn handle_mouse_up(&mut self, index: usize, button: MouseButton) -> (r: bool)
        requires
            old(self).wf(),
            index < old(self).cell_count(),
        ensures
            final(self).wf(),
            r == old(self).spec_status().accepts_input(),
            !r ==> *final(self) == *old(self),
            r ==> final(self).spec_mouse() == old(self).spec_mouse().released(button),
            r ==> final(self).spec_selected() == if old(self).spec_mouse().released(button)
                == MouseState::Neither {
                None
            } else {
                old(self).spec_selected()
            },
            r && release_clicks(*old(self), index as int, button) ==> clicked(
                *old(self),
                *final(self),
                index as int,
            ),
            r && release_chords(*old(self), index as int, button) ==> chorded(
                *old(self),
                *final(self),
                index as int,
            ),
            !release_clicks(*old(self), index as int, button) && !release_chords(
                *old(self),
                index as int,
                button,
            ) ==> {
                &&& final(self).spec_board() == old(self).spec_board()
                &&& final(self).spec_status() == old(self).spec_status()
                &&& final(self).spec_detonated() == old(self).spec_detonated()
            },
            final(self).spec_settings() == old(self).spec_settings(),
            final(self).spec_seconds() == old(self).spec_seconds(),
    {
        if self.status != GameStatus::NotStarted && self.status != GameStatus::Active {
            return false;
        }
        proof {
            self.board.lemma_wf();
        }
        let pressed = self.mouse_state;
        let released = pressed.mouse_up(button);
        let on_target = match self.selected_cell_index {
            Some(selected) => selected == index,
            None => false,
        };
        match pressed {
            MouseState::Left => {
                if released == MouseState::Neither && on_target {
                    let shown = self.board.cell(index).is_shown();
                    if pressed.is_chording(self.settings.chord_setting(), shown) {
                        self.handle_chord(index);
                    } else {
                        self.handle_click(index);
                    }
                }
            },
            MouseState::Both => {
                if released != MouseState::Both && on_target {
                    self.handle_chord(index);
                }
            },
            _ => {},
        }
        self.mouse_state = released;
        if released == MouseState::Neither {
            self.selected_cell_index = None;
        }
        true
    }

    /// The pointer left the pressed cell while a button was held: the press
    /// is abandoned. Returns whether there was one.
    pub fn cancel_press(&mut self) -> (r: bool)
        requires
            old(self).wf(),
        ensures
            final(self).wf(),
            r == (old(self).spec_selected() is Some && old(self).spec_mouse() != MouseState::Neither),
            !r ==> *final(self) == *old(self),
            r ==> final(self).spec_selected() is None && final(self).spec_mouse() == MouseState::Neither,
            final(self).spec_board() == old(self).spec_board(),
            final(self).spec_status() == old(self).spec_status(),
            final(self).spec_settings() == old(self).spec_settings(),
            final(self).spec_seconds() == old(self).spec_seconds(),
            final(self).spec_detonated() == old(self).spec_detonated(),
    {
        if self.selected_cell_index.is_none() || self.mouse_state.is_neither() {
            return false;
        }
        self.selected_cell_index = None;
        self.mouse_state = MouseState::Neither;
        true
    }

    pub fn status(&self) -> (r: GameStatus)
        ensures
            r == self.spec_status(),
    {
        self.status
    }

    pub fn settings(&self) -> (r: Settings)
        ensures
            r == self.spec_settings(),
    {
        self.settings
    }

    pub fn board(&self) -> (r: &Board)
        ensures
            *r == self.spec_board(),
    {
        &self.board
    }

    /// The cells, in row-major order.
    pub fn cells(&self) -> (r: &Vec<Cell>)
        ensures
            r@ == self.spec_cells(),
    {
        self.board.cells()
    }

    /// Number of safe cells uncovered.
    pub fn shown_cells_count(&self) -> (r: usize)
        ensures
            r == self.spec_revealed(),
    {
        self.shown_cells_count
    }

    pub fn seconds_played(&self) -> (r: usize)
        ensures
            r == self.spec_seconds(),
    {
        self.seconds_played
    }

    pub fn mouse_state(&self) -> (r: MouseState)
        ensures
            r == self.spec_mouse(),
    {
        self.mouse_state
    }

    /// The cell pressed and not yet released.
    pub fn selected_cell_index(&self) -> (r: Option<usize>)
        ensures
            r == self.spec_selected(),
    {
        self.selected_cell_index
    }

    /// The mine whose click lost the game.
    pub fn first_clicked_mine_index(&self) -> (r: Option<usize>)
        ensures
            r == self.spec_detonated(),
    {
        self.first_clicked_mine_index
    }

    /// Number of flagged cells.
    pub fn count_flagged_mines(&self) -> (r: usize)
        ensures
            r == count_below(self.spec_cells().len(), |k: int| self.spec_cells()[k].flagged()),
    {
        self.board.count_flagged()
    }

    /// Mines less flags, shown no lower than `MIN_MINES_REMAINING`.
    pub fn mines_remaining(&self) -> (r: isize)
        requires
            self.wf(),
        ensures
            r == if self.spec_mines() - count_below(
                self.spec_cells().len(),
                |k: int| self.spec_cells()[k].flagged(),
            ) < MIN_MINES_REMAINING {
                MIN_MINES_REMAINING as int
            } else {
                self.spec_mines() - count_below(
                    self.spec_cells().len(),
                    |k: int| self.spec_cells()[k].flagged(),
                )
            },
    {
        proof {
            self.board.lemma_wf();
            lemma_size_bound(self.board.spec_width(), self.board.spec_height());
        }
        let flagged = self.count_flagged_mines();
        proof {
            crate::board::lemma_count_below_le(
                self.spec_cells().len(),
                |k: int| self.spec_cells()[k].flagged(),
            );
        }
        let mines = self.settings.dimensions().mines();
        let remaining = mines as isize - flagged as isize;
        if remaining < MIN_MINES_REMAINING {
            MIN_MINES_REMAINING
        } else {
            remaining
        }
    }

    /// The face: dead once lost, cool once won, nervous while the left
    /// button (or both) is held, happy otherwise.
    pub open spec fn spec_face(&self) -> Face {
        if self.spec_status() == GameStatus::Lost {
            Face::Dead
        } else if self.spec_status() == GameStatus::Won {
            Face::Cool
        } else if self.spec_mouse() == MouseState::Left || self.spec_mouse() == MouseState::Both {
            Face::Nervous
        } else {
            Face::Happy
        }
    }

    pub fn face(&self) -> (r: Face)
        ensures
            r == self.spec_face(),
    {
        match self.status {
            GameStatus::Lost => Face::Dead,
            GameStatus::Won => Face::Cool,
            _ => match self.mouse_state {
                MouseState::Left | MouseState::Both => Face::Nervous,
                _ => Face::Happy,
            },
        }
    }

    /// `index` is the pressed cell or one of its neighbors.
    pub open spec fn spec_near_selected(&self, index: int) -> bool {
        match self.spec_selected() {
            Some(s) => index == s || neighbor_seq(self.spec_width(), self.spec_height(), s as int).contains(
                index as usize,
            ),
            None => false,
        }
    }

    pub fn neighbors_selected_cell(&self, index: usize) -> (r: bool)
        requires
            self.wf(),
        ensures
            r == self.spec_near_selected(index as int),
    {
        match self.selected_cell_index {
            Some(selected) => {
                if index == selected {
                    return true;
                }
                crate::board::list_contains(self.board.neighbors_of(selected), index)
            },
            None => false,
        }
    }

    /// The cell is drawn as a struck mine: an uncovered mine that is the
    /// pressed cell or the one whose click lost the game.
    pub open spec fn spec_marks_detonation(&self, index: int) -> bool {
        &&& self.spec_cells()[index].shown()
        &&& self.spec_cells()[index].mine()
        &&& (self.spec_selected() == Some(index as usize) || self.spec_detonated() == Some(
            index as usize,
        ))
    }

    pub fn cell_marks_detonation(&self, index: usize) -> (r: bool)
        requires
            self.wf(),
            index < self.cell_count(),
        ensures
            r == self.spec_marks_detonation(index as int),
    {
        proof {
            self.board.lemma_wf();
        }
        let cell = self.board.cell(index);
        let pressed = match self.selected_cell_index {
            Some(s) => s == index,
            None => false,
        };
        let detonated = match self.first_clicked_mine_index {
            Some(d) => d == index,
            None => false,
        };
        cell.is_shown() && cell.is_mine() && (pressed || detonated)
    }

    /// The cell is drawn pressed in: it is not flagged, and it is uncovered,
    /// or it is the pressed cell, or a chord is being held on a neighbor.
    pub open spec fn spec_looks_pressed(&self, index: int) -> bool {
        &&& !self.spec_cells()[index].flagged()
        &&& {
            ||| self.spec_cells()[index].shown()
            ||| self.spec_selected() == Some(index as usize)
            ||| (self.spec_selected() matches Some(s) && self.spec_mouse().spec_is_chording(
                self.spec_settings().spec_chord_setting(),
                self.spec_cells()[s as int].shown(),
            ) && self.spec_near_selected(index))
        }
    }

    pub fn cell_looks_pressed(&self, index: usize) -> (r: bool)
        requires
            self.wf(),
            index < self.cell_count(),
        ensures
            r == self.spec_looks_pressed(index as int),
    {
        proof {
            self.board.lemma_wf();
        }
        let cell = self.board.cell(index);
        if cell.is_flagged() {
            return false;
        }
        if cell.is_shown() {
            return true;
        }
        match self.selected_cell_index {
            Some(selected) => {
                if selected == index {
                    return true;
                }
                let selected_shown = self.board.cell(selected).is_shown();
                self.mouse_state.is_chording(self.settings.chord_setting(), selected_shown)
                    && self.neighbors_selected_cell(index)
            },
            None => false,
        }
    }
}

/// A click that leaves the game running, repeated on the same cell,
/// changes nothing.
pub proof fn lemma_click_idempotent(cells: Seq<Cell>, width: int, height: int, mines: int, index: int)
    requires
        0 <= index < cells.len(),
        click_outcome(cells, width, height, mines, index).1 == GameStatus::Active,
    ensures
        click_outcome(click_outcome(cells, width, height, mines, index).0, width, height, mines, index)
            == click_outcome(cells, width, height, mines, index),
{
    if openable(cells[index]) && !cells[index].mine() {
        lemma_reaches_start(cells, width, height, index);
        assert(in_cascade(cells, width, height, index, index));
    }
}

/// Clicking the same cell a second time changes neither the cells, nor the
/// status, nor the count of uncovered cells, nor the detonated mine.
pub proof fn lemma_second_click(s1: Session, s2: Session, s3: Session, index: int)
    requires
        s1.wf(),
        s2.wf(),
        s3.wf(),
        0 <= index < s1.cell_count(),
        clicked(s1, s2, index),
        clicked(s2, s3, index),
    ensures
        s3.spec_cells() == s2.spec_cells(),
        s3.spec_status() == s2.spec_status(),
        s3.spec_revealed() == s2.spec_revealed(),
        s3.spec_detonated() == s2.spec_detonated(),
{
    s1.lemma_wf();
    s2.lemma_wf();
    s3.lemma_wf();
    let w = s1.spec_width();
    let h = s1.spec_height();
    let m = s1.spec_mines();
    if s1.spec_status() == GameStatus::Active {
        if s2.spec_status() == GameStatus::Active {
            lemma_click_idempotent(s1.spec_cells(), w, h, m, index);
        }
    } else if s1.spec_status() == GameStatus::NotStarted {
        let fresh = fresh_cells(w, h, mines_of(s2.spec_cells()));
        if s2.spec_status() == GameStatus::Active {
            lemma_click_idempotent(fresh, w, h, m, index);
        }
    }
}

/// A click wins the game exactly when it leaves the uncovered safe cells and
/// the mines adding up to the whole board, and a won game has every mine
/// flagged.
pub proof fn lemma_win_detection(s1: Session, s2: Session, index: int)
    requires
        s1.wf(),
        s2.wf(),
        0 <= index < s1.cell_count(),
        s1.spec_status().accepts_input(),
        clicked(s1, s2, index),
    ensures
        s2.spec_status() == GameStatus::Won <==> s2.spec_revealed() + s2.spec_mines() == s2.cell_count(),
        s2.spec_status() == GameStatus::Won ==> forall|k: int|
            0 <= k < s2.cell_count() && (#[trigger] s2.spec_cells()[k]).mine() ==> s2.spec_cells()[k].flagged(),
{
    s1.lemma_wf();
    s2.lemma_wf();
    let w = s1.spec_width();
    let h = s1.spec_height();
    let m = s1.spec_mines();
    let pre = if s1.spec_status() == GameStatus::Active {
        s1.spec_cells()
    } else {
        fresh_cells(w, h, mines_of(s2.spec_cells()))
    };
    if s1.spec_status() == GameStatus::NotStarted {
        Session::lemma_fresh_closed(pre);
    }
    lemma_count_open_mines_shown(pre);
    lemma_count_open_mines_flagged(cascade(pre, w, h, index));
}

/// A click on a mine of a running game loses it, records the mine as the one
/// detonated, and uncovers every mine that is not flagged.
pub proof fn lemma_loss(s1: Session, s2: Session, index: int)
    requires
        s1.wf(),
        s2.wf(),
        0 <= index < s1.cell_count(),
        s1.spec_status() == GameStatus::Active,
        openable(s1.spec_cells()[index]),
        s1.spec_cells()[index].mine(),
        clicked(s1, s2, index),
    ensures
        s2.spec_status() == GameStatus::Lost,
        s2.spec_detonated() == Some(index as usize),
        forall|k: int|
            0 <= k < s2.cell_count() && (#[trigger] s2.spec_cells()[k]).mine() ==> s2.spec_cells()[k].shown()
                || s2.spec_cells()[k].flagged(),
{
    s1.lemma_wf();
    s1.spec_board().lemma_wf();
    let pre = s1.spec_cells();
    assert forall|k: int|
        0 <= k < s2.cell_count() && (#[trigger] s2.spec_cells()[k]).mine() implies s2.spec_cells()[k].shown()
        || s2.spec_cells()[k].flagged() by {
        assert(pre[k].consistent());
        assert(s2.spec_cells()[k] == pre[k].revealed());
    }
}

/// With the first-click setting `Zero`, the first click of a game uncovers
/// its cell, which has no neighboring mine, and none of its neighbors holds
/// a mine.
pub proof fn lemma_zero_first_click_session(s1: Session, s2: Session, index: int)
    requires
        s1.wf(),
        s2.wf(),
        0 <= index < s1.cell_count(),
        s1.spec_status() == GameStatus::NotStarted,
        s1.spec_policy() == FirstClickSetting::Zero,
        clicked(s1, s2, index),
    ensures
        s2.spec_cells()[index].value == Value::Zero,
        s2.spec_cells()[index].shown(),
        forall|k: int|
            0 <= k < neighbor_seq(s2.spec_width(), s2.spec_height(), index).len() ==> !(#[trigger] s2.spec_cells()[neighbor_seq(
                s2.spec_width(),
                s2.spec_height(),
                index,
            )[k] as int]).mine(),
{
    s1.lemma_wf();
    s2.lemma_wf();
    s2.spec_board().lemma_wf();
    let w = s1.spec_width();
    let h = s1.spec_height();
    lemma_zero_first_click(s2.spec_cells(), w, h, index);
    let fresh = fresh_cells(w, h, mines_of(s2.spec_cells()));
    assert(fresh[index].value == s2.spec_cells()[index].value) by {
        lemma_click_keeps_values(fresh, w, h, s1.spec_mines(), index);
    }
    lemma_reaches_start(fresh, w, h, index);
    assert(in_cascade(fresh, w, h, index, index));
}

} // verus!
