//! Board dimensions, difficulty presets and player settings.

use vstd::prelude::*;

verus! {

/// Widest board that can be configured.
pub const MAX_WIDTH: usize = 32;

/// Tallest board that can be configured.
pub const MAX_HEIGHT: usize = 32;

/// Largest number of mines that can be configured.
pub const MAX_MINES: usize = 512;

/// Size of a board and number of mines on it, each clamped to its maximum.
#[derive(Clone, Copy, Debug, PartialEq, Eq, Structural)]
pub struct Dimensions {
    width: usize,
    height: usize,
    mines: usize,
}

impl Dimensions {
    pub closed spec fn spec_width(self) -> usize {
        self.width
    }

    pub closed spec fn spec_height(self) -> usize {
        self.height
    }

    pub closed spec fn spec_mines(self) -> usize {
        self.mines
    }

    /// Number of cells on the board.
    pub open spec fn cell_count(self) -> int {
        self.spec_width() * self.spec_height()
    }

    /// Every field is at most its maximum.
    pub open spec fn within_bounds(self) -> bool {
        &&& self.spec_width() <= MAX_WIDTH
        &&& self.spec_height() <= MAX_HEIGHT
        &&& self.spec_mines() <= MAX_MINES
    }

    /// A board of these dimensions has cells and room for at least one safe cell.
    pub open spec fn is_playable(self) -> bool {
        &&& self.within_bounds()
        &&& 0 < self.spec_width()
        &&& 0 < self.spec_height()
        &&& self.spec_mines() < self.cell_count()
    }

    pub open spec fn clamp(v: usize, max: usize) -> usize {
        if v > max { max } else { v }
    }

    /// Builds dimensions; a value above its maximum is replaced by the maximum.
    pub fn new(width: usize, height: usize, mines: usize) -> (r: Self)
        ensures
            r.spec_width() == Self::clamp(width, MAX_WIDTH),
            r.spec_height() == Self::clamp(height, MAX_HEIGHT),
            r.spec_mines() == Self::clamp(mines, MAX_MINES),
            width > MAX_WIDTH ==> r.spec_width() == MAX_WIDTH,
            height > MAX_HEIGHT ==> r.spec_height() == MAX_HEIGHT,
            mines > MAX_MINES ==> r.spec_mines() == MAX_MINES,
            r.within_bounds(),
    {
        let w = if width > MAX_WIDTH { MAX_WIDTH } else { width };
        let h = if height > MAX_HEIGHT { MAX_HEIGHT } else { height };
        let m = if mines > MAX_MINES { MAX_MINES } else { mines };
        Dimensions { width: w, height: h, mines: m }
    }

    pub fn width(&self) -> (r: usize)
        ensures
            r == self.spec_width(),
    {
        self.width
    }

    pub fn height(&self) -> (r: usize)
        ensures
            r == self.spec_height(),
    {
        self.height
    }

    pub fn mines(&self) -> (r: usize)
        ensures
            r == self.spec_mines(),
    {
        self.mines
    }

    /// Number of cells on the board, as a machine integer.
    pub fn cells(&self) -> (r: usize)
        requires
            self.within_bounds(),
        ensures
            r == self.cell_count(),
    {
        proof {
            vstd::arithmetic::mul::lemma_mul_upper_bound(
                self.width as int,
                MAX_WIDTH as int,
                self.height as int,
                MAX_HEIGHT as int,
            );
        }
        self.width * self.height
    }

    /// Whether these dimensions describe a board that can be played.
    pub fn playable(&self) -> (r: bool)
        ensures
            r == self.is_playable(),
    {
        if self.width > MAX_WIDTH || self.height > MAX_HEIGHT || self.mines > MAX_MINES {
            return false;
        }
        0 < self.width && 0 < self.height && self.mines < self.cells()
    }
}

impl Default for Dimensions {
    fn default() -> (r: Self)
        ensures
            r.spec_width() == 16,
            r.spec_height() == 16,
            r.spec_mines() == 10,
    {
        Dimensions::new(16, 16, 10)
    }
}

/// A preset board size, or one chosen by the player.
#[derive(Clone, Copy, Debug, PartialEq, Eq, Structural)]
pub enum Difficulty {
    Beginner,
    Intermediate,
    Expert,
    Custom(Dimensions),
}

impl Difficulty {
    /// Width of the board of this difficulty.
    pub open spec fn board_width(self) -> usize {
        match self {
            Difficulty::Beginner => 9,
            Difficulty::Intermediate => 16,
            Difficulty::Expert => 30,
            Difficulty::Custom(d) => d.spec_width(),
        }
    }

    /// Height of the board of this difficulty.
    pub open spec fn board_height(self) -> usize {
        match self {
            Difficulty::Beginner => 9,
            Difficulty::Intermediate => 16,
            Difficulty::Expert => 16,
            Difficulty::Custom(d) => d.spec_height(),
        }
    }

    /// Number of mines of this difficulty.
    pub open spec fn board_mines(self) -> usize {
        match self {
            Difficulty::Beginner => 10,
            Difficulty::Intermediate => 40,
            Difficulty::Expert => 99,
            Difficulty::Custom(d) => d.spec_mines(),
        }
    }

    /// The dimensions are those of the difficulty.
    pub open spec fn describes(self, d: Dimensions) -> bool {
        &&& d.spec_width() == self.board_width()
        &&& d.spec_height() == self.board_height()
        &&& d.spec_mines() == self.board_mines()
    }

    /// The difficulty's own title.
    pub open spec fn spec_title(self) -> Seq<char> {
        match self {
            Difficulty::Beginner => "Beginner"@,
            Difficulty::Intermediate => "Intermediate"@,
            Difficulty::Expert => "Expert"@,
            Difficulty::Custom(_) => "Custom"@,
        }
    }

    /// The board dimensions of this difficulty.
    pub fn dimensions(&self) -> (r: Dimensions)
        ensures
            self.describes(r),
            self matches Difficulty::Custom(d) ==> r == d,
    {
        match self {
            Difficulty::Beginner => Dimensions::new(9, 9, 10),
            Difficulty::Intermediate => Dimensions::new(16, 16, 40),
            Difficulty::Expert => Dimensions::new(30, 16, 99),
            Difficulty::Custom(dimensions) => *dimensions,
        }
    }

    /// Both are the same preset, or both are custom, whatever their dimensions.
    pub open spec fn spec_same_kind(self, other: Difficulty) -> bool {
        match (self, other) {
            (Difficulty::Beginner, Difficulty::Beginner) => true,
            (Difficulty::Intermediate, Difficulty::Intermediate) => true,
            (Difficulty::Expert, Difficulty::Expert) => true,
            (Difficulty::Custom(_), Difficulty::Custom(_)) => true,
            _ => false,
        }
    }

    pub fn same_kind(&self, other: &Difficulty) -> (r: bool)
        ensures
            r == self.spec_same_kind(*other),
    {
        match (self, other) {
            (Difficulty::Beginner, Difficulty::Beginner) => true,
            (Difficulty::Intermediate, Difficulty::Intermediate) => true,
            (Difficulty::Expert, Difficulty::Expert) => true,
            (Difficulty::Custom(_), Difficulty::Custom(_)) => true,
            _ => false,
        }
    }

    /// Name of the difficulty, as shown in a menu.
    pub fn title(&self) -> (r: String)
        ensures
            r@ == self.spec_title(),
    {
        match self {
            Difficulty::Beginner => "Beginner".to_string(),
            Difficulty::Intermediate => "Intermediate".to_string(),
            Difficulty::Expert => "Expert".to_string(),
            Difficulty::Custom(_) => "Custom".to_string(),
        }
    }
}

impl Default for Difficulty {
    fn default() -> (r: Self)
        ensures
            r == Difficulty::Beginner,
    {
        Difficulty::Beginner
    }
}

/// A difficulty together with the dimensions it stands for.
#[derive(Clone, Copy, Debug, PartialEq, Eq, Structural)]
pub struct DifficultySetting {
    difficulty: Difficulty,
    dimensions: Dimensions,
}

impl DifficultySetting {
    pub closed spec fn spec_difficulty(self) -> Difficulty {
        self.difficulty
    }

    pub closed spec fn spec_dimensions(self) -> Dimensions {
        self.dimensions
    }

    /// The dimensions are those of the difficulty.
    pub open spec fn wf(self) -> bool {
        self.spec_difficulty().describes(self.spec_dimensions())
    }

    #[verifier::type_invariant]
    spec fn inv(self) -> bool {
        self.difficulty.describes(self.dimensions)
    }

    pub fn new(difficulty: Difficulty) -> (r: Self)
        ensures
            r.spec_difficulty() == difficulty,
            r.wf(),
    {
        let dimensions = difficulty.dimensions();
        DifficultySetting { difficulty, dimensions }
    }

    pub fn difficulty(&self) -> (r: Difficulty)
        ensures
            r == self.spec_difficulty(),
    {
        self.difficulty
    }

    /// The dimensions of the difficulty.
    pub fn dimensions(&self) -> (r: Dimensions)
        ensures
            r == self.spec_dimensions(),
            self.wf(),
    {
        proof {
            use_type_invariant(self);
        }
        self.dimensions
    }

    /// Switches to another difficulty and its dimensions.
    pub fn set_difficulty(&mut self, difficulty: Difficulty)
        ensures
            final(self).spec_difficulty() == difficulty,
            final(self).wf(),
    {
        *self = DifficultySetting::new(difficulty);
    }
}

impl Default for DifficultySetting {
    fn default() -> (r: Self)
        ensures
            r.spec_difficulty() == Difficulty::Beginner,
            r.wf(),
    {
        DifficultySetting::new(Difficulty::Beginner)
    }
}

/// How a chord is triggered.
#[derive(Clone, Copy, Debug, PartialEq, Eq, Structural)]
pub enum ChordSetting {
    /// A left click on a revealed cell chords, as does pressing both buttons.
    LeftClick,
    /// Only pressing both buttons chords.
    LeftAndRightClick,
    Disabled,
}

impl Default for ChordSetting {
    fn default() -> (r: Self)
        ensures
            r == ChordSetting::LeftClick,
    {
        ChordSetting::LeftClick
    }
}

/// What the first revealed cell is guaranteed to be.
#[derive(Clone, Copy, Debug, PartialEq, Eq, Structural)]
pub enum FirstClickSetting {
    /// No guarantee: the first cell may be a mine.
    Any,
    /// The first cell is not a mine.
    Safe,
    /// Neither the first cell nor any of its neighbors is a mine.
    Zero,
}

impl Default for FirstClickSetting {
    fn default() -> (r: Self)
        ensures
            r == FirstClickSetting::Zero,
    {
        FirstClickSetting::Zero
    }
}

/// Everything the player can configure.
#[derive(Clone, Copy, Debug, PartialEq, Eq, Structural)]
pub struct Settings {
    difficulty_setting: DifficultySetting,
    chord_setting: ChordSetting,
    first_click_setting: FirstClickSetting,
    allow_mark_cell_as_unknown: bool,
}

impl Settings {
    pub closed spec fn spec_difficulty_setting(self) -> DifficultySetting {
        self.difficulty_setting
    }

    pub closed spec fn spec_chord_setting(self) -> ChordSetting {
        self.chord_setting
    }

    pub closed spec fn spec_first_click_setting(self) -> FirstClickSetting {
        self.first_click_setting
    }

    pub closed spec fn spec_allow_unknown(self) -> bool {
        self.allow_mark_cell_as_unknown
    }

    pub open spec fn spec_difficulty(self) -> Difficulty {
        self.spec_difficulty_setting().spec_difficulty()
    }

    pub open spec fn spec_dimensions(self) -> Dimensions {
        self.spec_difficulty_setting().spec_dimensions()
    }

    pub open spec fn wf(self) -> bool {
        self.spec_difficulty_setting().wf()
    }

    pub fn new(
        difficulty_setting: DifficultySetting,
        chord_setting: ChordSetting,
        first_click_setting: FirstClickSetting,
        allow_mark_cell_as_unknown: bool,
    ) -> (r: Self)
        ensures
            r.spec_difficulty_setting() == difficulty_setting,
            r.spec_chord_setting() == chord_setting,
            r.spec_first_click_setting() == first_click_setting,
            r.spec_allow_unknown() == allow_mark_cell_as_unknown,
    {
        Settings {
            difficulty_setting,
            chord_setting,
            first_click_setting,
            allow_mark_cell_as_unknown,
        }
    }

    pub fn difficulty(&self) -> (r: Difficulty)
        ensures
            r == self.spec_difficulty(),
    {
        self.difficulty_setting.difficulty()
    }

    /// The dimensions of the difficulty.
    pub fn dimensions(&self) -> (r: Dimensions)
        ensures
            r == self.spec_dimensions(),
            self.wf(),
    {
        self.difficulty_setting.dimensions()
    }

    pub fn chord_setting(&self) -> (r: ChordSetting)
        ensures
            r == self.spec_chord_setting(),
    {
        self.chord_setting
    }

    pub fn first_click_setting(&self) -> (r: FirstClickSetting)
        ensures
            r == self.spec_first_click_setting(),
    {
        self.first_click_setting
    }

    pub fn first_click_setting_is_any(&self) -> (r: bool)
        ensures
            r == (self.spec_first_click_setting() == FirstClickSetting::Any),
    {
        self.first_click_setting == FirstClickSetting::Any
    }

    pub fn first_click_setting_is_zero(&self) -> (r: bool)
        ensures
            r == (self.spec_first_click_setting() == FirstClickSetting::Zero),
    {
        self.first_click_setting == FirstClickSetting::Zero
    }

    pub fn allow_mark_cell_as_unknown(&self) -> (r: bool)
        ensures
            r == self.spec_allow_unknown(),
    {
        self.allow_mark_cell_as_unknown
    }

    /// Switches to another difficulty; the other settings stay.
    pub fn set_difficulty(&mut self, difficulty: Difficulty)
        ensures
            final(self).spec_difficulty() == difficulty,
            final(self).wf(),
            final(self).spec_chord_setting() == old(self).spec_chord_setting(),
            final(self).spec_first_click_setting() == old(self).spec_first_click_setting(),
            final(self).spec_allow_unknown() == old(self).spec_allow_unknown(),
    {
        self.difficulty_setting.set_difficulty(difficulty);
    }
}

impl Default for Settings {
    fn default() -> (r: Self)
        ensures
            r.spec_difficulty() == Difficulty::Beginner,
            r.wf(),
            r.spec_chord_setting() == ChordSetting::LeftClick,
            r.spec_first_click_setting() == FirstClickSetting::Zero,
            !r.spec_allow_unknown(),
    {
        Settings::new(DifficultySetting::default(), ChordSetting::default(), FirstClickSetting::Zero, false)
    }
}

} // verus!
