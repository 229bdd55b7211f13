//! A single tile of the board: what lies under it and how it is displayed.

use vstd::prelude::*;

verus! {

/// What a cell holds: a mine, or the number of mines among its neighbors.
#[derive(Clone, Copy, Debug, PartialEq, Eq, Structural)]
pub enum Value {
    Mine,
    Zero,
    One,
    Two,
    Three,
    Four,
    Five,
    Six,
    Seven,
    Eight,
}

/// The value of a safe cell with `n` neighboring mines.
pub open spec fn value_of_count(n: nat) -> Value {
    if n == 0 {
        Value::Zero
    } else if n == 1 {
        Value::One
    } else if n == 2 {
        Value::Two
    } else if n == 3 {
        Value::Three
    } else if n == 4 {
        Value::Four
    } else if n == 5 {
        Value::Five
    } else if n == 6 {
        Value::Six
    } else if n == 7 {
        Value::Seven
    } else {
        Value::Eight
    }
}

impl Value {
    /// The word for the number of neighboring mines; empty for a mine or zero.
    pub open spec fn spec_name(self) -> Seq<char> {
        match self {
            Value::Mine => ""@,
            Value::Zero => ""@,
            Value::One => "one"@,
            Value::Two => "two"@,
            Value::Three => "three"@,
            Value::Four => "four"@,
            Value::Five => "five"@,
            Value::Six => "six"@,
            Value::Seven => "seven"@,
            Value::Eight => "eight"@,
        }
    }

    /// The glyph of a revealed cell of this value.
    pub open spec fn spec_glyph(self) -> Seq<char> {
        match self {
            Value::Mine => "*"@,
            Value::Zero => " "@,
            Value::One => "1"@,
            Value::Two => "2"@,
            Value::Three => "3"@,
            Value::Four => "4"@,
            Value::Five => "5"@,
            Value::Six => "6"@,
            Value::Seven => "7"@,
            Value::Eight => "8"@,
        }
    }

    pub fn get_name_string(&self) -> (r: String)
        ensures
            r@ == self.spec_name(),
    {
        match self {
            Value::Mine => "".to_string(),
            Value::Zero => "".to_string(),
            Value::One => "one".to_string(),
            Value::Two => "two".to_string(),
            Value::Three => "three".to_string(),
            Value::Four => "four".to_string(),
            Value::Five => "five".to_string(),
            Value::Six => "six".to_string(),
            Value::Seven => "seven".to_string(),
            Value::Eight => "eight".to_string(),
        }
    }
}

/// How a cell is shown to the player.
#[derive(Clone, Copy, Debug, PartialEq, Eq, Structural)]
pub enum DisplayState {
    /// Covered, with no mark.
    Default,
    /// Covered, marked with a question mark.
    Unknown,
    /// Covered, marked with a flag.
    Flagged,
    /// Uncovered, showing its value.
    Shown(Value),
}

impl DisplayState {
    /// The glyph that stands for this display state.
    pub open spec fn spec_glyph(self) -> Seq<char> {
        match self {
            DisplayState::Default => " "@,
            DisplayState::Flagged => "🚩"@,
            DisplayState::Unknown => "?"@,
            DisplayState::Shown(v) => v.spec_glyph(),
        }
    }

    pub fn get_display_string(&self) -> (r: &'static str)
        ensures
            r@ == self.spec_glyph(),
    {
        match self {
            DisplayState::Default => " ",
            DisplayState::Flagged => "🚩",
            DisplayState::Unknown => "?",
            DisplayState::Shown(value) => match value {
                Value::Mine => "*",
                Value::Zero => " ",
                Value::One => "1",
                Value::Two => "2",
                Value::Three => "3",
                Value::Four => "4",
                Value::Five => "5",
                Value::Six => "6",
                Value::Seven => "7",
                Value::Eight => "8",
            },
        }
    }
}

/// A tile of the board.
#[derive(Clone, Copy, Debug, PartialEq, Eq, Structural)]
pub struct Cell {
    pub value: Value,
    pub display: DisplayState,
}

impl Cell {
    /// The cell is uncovered and shows its own value.
    pub open spec fn shown(self) -> bool {
        self.display == DisplayState::Shown(self.value)
    }

    pub open spec fn flagged(self) -> bool {
        self.display == DisplayState::Flagged
    }

    pub open spec fn mine(self) -> bool {
        self.value == Value::Mine
    }

    pub open spec fn zero(self) -> bool {
        self.value == Value::Zero
    }

    /// A display state other than `Shown` of another value.
    pub open spec fn consistent(self) -> bool {
        self.display is Shown ==> self.shown()
    }

    /// The cell after it is uncovered by a click.
    pub open spec fn revealed(self) -> Cell {
        if self.flagged() || self.display is Shown {
            self
        } else {
            Cell { value: self.value, display: DisplayState::Shown(self.value) }
        }
    }

    /// The cell after its mark is cycled.
    pub open spec fn cycled(self, allow_unknown: bool) -> Cell {
        Cell {
            value: self.value,
            display: match self.display {
                DisplayState::Default => DisplayState::Flagged,
                DisplayState::Flagged => if allow_unknown {
                    DisplayState::Unknown
                } else {
                    DisplayState::Default
                },
                DisplayState::Unknown => DisplayState::Default,
                DisplayState::Shown(v) => DisplayState::Shown(v),
            },
        }
    }

    /// A covered cell holding a mine (`None`) or the given count of neighboring mines.
    pub fn new(neighboring_mines: Option<usize>) -> (r: Self)
        requires
            neighboring_mines matches Some(n) ==> n <= 8,
        ensures
            r.value == (match neighboring_mines {
                None => Value::Mine,
                Some(n) => value_of_count(n as nat),
            }),
            r.display == DisplayState::Default,
    {
        let value = Cell::calculate_value(neighboring_mines);
        Cell { value, display: DisplayState::Default }
    }

    /// A covered cell with no neighboring mine.
    pub fn new_empty() -> (r: Self)
        ensures
            r == (Cell { value: Value::Zero, display: DisplayState::Default }),
    {
        Cell::new(Some(0))
    }

    /// Back to a covered cell with no neighboring mine.
    pub fn reset(&mut self)
        ensures
            *final(self) == (Cell { value: Value::Zero, display: DisplayState::Default }),
    {
        self.set_value(Value::Zero);
        self.set_display(DisplayState::Default);
    }

    /// Uncovers the cell, unless it is flagged or already uncovered.
    pub fn handle_click(&mut self)
        ensures
            *final(self) == old(self).revealed(),
    {
        match self.display {
            DisplayState::Flagged | DisplayState::Shown(_) => {},
            DisplayState::Default | DisplayState::Unknown => {
                self.set_display(DisplayState::Shown(self.value));
            },
        }
    }

    /// Flag, then question mark if allowed, then no mark again; an uncovered
    /// cell keeps its state.
    pub fn cycle_display(&mut self, allow_unknown: bool)
        ensures
            *final(self) == old(self).cycled(allow_unknown),
    {
        match self.display {
            DisplayState::Default => self.set_display(DisplayState::Flagged),
            DisplayState::Flagged => {
                if allow_unknown {
                    self.set_display(DisplayState::Unknown)
                } else {
                    self.set_display(DisplayState::Default)
                }
            },
            DisplayState::Unknown => self.set_display(DisplayState::Default),
            DisplayState::Shown(value) => self.set_display(DisplayState::Shown(value)),
        }
    }

    pub fn is_shown(&self) -> (r: bool)
        ensures
            r == self.shown(),
    {
        self.display == DisplayState::Shown(self.value)
    }

    pub fn is_mine(&self) -> (r: bool)
        ensures
            r == self.mine(),
    {
        self.value == Value::Mine
    }

    pub fn is_flagged(&self) -> (r: bool)
        ensures
            r == self.flagged(),
    {
        self.display == DisplayState::Flagged
    }

    pub fn is_zero(&self) -> (r: bool)
        ensures
            r == self.zero(),
    {
        self.value == Value::Zero
    }

    pub fn set_display_to_flagged(&mut self)
        ensures
            *final(self) == (Cell { value: old(self).value, display: DisplayState::Flagged }),
    {
        self.set_display(DisplayState::Flagged);
    }

    /// The glyph the cell is drawn with.
    pub fn get_value_display_string(&self) -> (r: &'static str)
        ensures
            r@ == self.display.spec_glyph(),
    {
        self.display.get_display_string()
    }

    fn set_display(&mut self, display: DisplayState)
        ensures
            *final(self) == (Cell { value: old(self).value, display }),
    {
        self.display = display;
    }

    fn set_value(&mut self, value: Value)
        ensures
            *final(self) == (Cell { value, display: old(self).display }),
    {
        self.value = value;
    }

    fn calculate_value(neighboring_mines: Option<usize>) -> (r: Value)
        requires
            neighboring_mines matches Some(n) ==> n <= 8,
        ensures
            r == (match neighboring_mines {
                None => Value::Mine,
                Some(n) => value_of_count(n as nat),
            }),
    {
        match neighboring_mines {
            None => Value::Mine,
            Some(n) => {
                if n == 0 {
                    Value::Zero
                } else if n == 1 {
                    Value::One
                } else if n == 2 {
                    Value::Two
                } else if n == 3 {
                    Value::Three
                } else if n == 4 {
                    Value::Four
                } else if n == 5 {
                    Value::Five
                } else if n == 6 {
                    Value::Six
                } else if n == 7 {
                    Value::Seven
                } else {
                    Value::Eight
                }
            },
        }
    }
}

} // verus!
