//! Which mouse buttons are held, as a small state machine that tells a
//! click, a flag and a chord apart.

use vstd::prelude::*;
use crate::settings::ChordSetting;

verus! {

/// A mouse button as the pointer events report it.
#[derive(Clone, Copy, Debug, PartialEq, Eq, Structural)]
pub enum MouseButton {
    Left,
    Middle,
    Right,
    Other,
}

impl MouseButton {
    pub open spec fn spec_from_code(code: i16) -> MouseButton {
        if code == 0 {
            MouseButton::Left
        } else if code == 1 {
            MouseButton::Middle
        } else if code == 2 {
            MouseButton::Right
        } else {
            MouseButton::Other
        }
    }

    /// The button of a pointer event's button number: 0 left, 1 middle, 2 right.
    pub fn from_code(code: i16) -> (r: MouseButton)
        ensures
            r == Self::spec_from_code(code),
    {
        match code {
            0 => MouseButton::Left,
            1 => MouseButton::Middle,
            2 => MouseButton::Right,
            _ => MouseButton::Other,
        }
    }
}

/// The buttons held down. `AfterBoth` follows the release of one of two held
/// buttons: the other must be released too before a new click counts.
#[derive(Clone, Copy, Debug, PartialEq, Eq, Structural)]
pub enum MouseState {
    Neither,
    Left,
    Right,
    Both,
    AfterBoth,
}

impl MouseState {
    /// The state after a button is pressed; buttons other than left and
    /// right change nothing.
    pub open spec fn pressed(self, button: MouseButton) -> MouseState {
        match button {
            MouseButton::Left => match self {
                MouseState::Neither => MouseState::Left,
                MouseState::Left => MouseState::Left,
                _ => MouseState::Both,
            },
            MouseButton::Right => match self {
                MouseState::Neither => MouseState::Right,
                MouseState::Right => MouseState::Right,
                _ => MouseState::Both,
            },
            _ => self,
        }
    }

    /// The state after a button is released; buttons other than left and
    /// right change nothing.
    pub open spec fn released(self, button: MouseButton) -> MouseState {
        match button {
            MouseButton::Left => match self {
                MouseState::Neither => MouseState::Neither,
                MouseState::Left => MouseState::Neither,
                MouseState::Right => MouseState::Right,
                MouseState::Both => MouseState::AfterBoth,
                MouseState::AfterBoth => MouseState::Neither,
            },
            MouseButton::Right => match self {
                MouseState::Neither => MouseState::Neither,
                MouseState::Left => MouseState::Left,
                MouseState::Right => MouseState::Neither,
                MouseState::Both => MouseState::AfterBoth,
                MouseState::AfterBoth => MouseState::Neither,
            },
            _ => self,
        }
    }

    /// A release in this state chords: both buttons are held, or the left one
    /// on an uncovered cell where a left click chords.
    pub open spec fn spec_is_chording(self, chord_setting: ChordSetting, cell_is_shown: bool) -> bool {
        match self {
            MouseState::Left => cell_is_shown && chord_setting == ChordSetting::LeftClick,
            MouseState::Both => true,
            _ => false,
        }
    }

    pub fn is_neither(self) -> (r: bool)
        ensures
            r == (self == MouseState::Neither),
    {
        self == MouseState::Neither
    }

    pub fn is_left(self) -> (r: bool)
        ensures
            r == (self == MouseState::Left),
    {
        self == MouseState::Left
    }

    pub fn is_right(self) -> (r: bool)
        ensures
            r == (self == MouseState::Right),
    {
        self == MouseState::Right
    }

    pub fn is_both(self) -> (r: bool)
        ensures
            r == (self == MouseState::Both),
    {
        self == MouseState::Both
    }

    /// Some button is held, or the release of a chord is not complete.
    pub fn is_some(self) -> (r: bool)
        ensures
            r == (self != MouseState::Neither),
    {
        !self.is_neither()
    }

    pub fn is_chording(self, chord_setting: ChordSetting, cell_is_shown: bool) -> (r: bool)
        ensures
            r == self.spec_is_chording(chord_setting, cell_is_shown),
    {
        match self {
            MouseState::Left => cell_is_shown && chord_setting == ChordSetting::LeftClick,
            MouseState::Both => true,
            _ => false,
        }
    }

    pub fn mouse_down(&self, button: MouseButton) -> (r: Self)
        ensures
            r == self.pressed(button),
    {
        match button {
            MouseButton::Left => match self {
                MouseState::Neither => MouseState::Left,
                MouseState::Left => MouseState::Left,
                _ => MouseState::Both,
            },
            MouseButton::Right => match self {
                MouseState::Neither => MouseState::Right,
                MouseState::Right => MouseState::Right,
                _ => MouseState::Both,
            },
            _ => *self,
        }
    }

    pub fn mouse_up(&self, button: MouseButton) -> (r: Self)
        ensures
            r == self.released(button),
    {
        match button {
            MouseButton::Left => match self {
                MouseState::Neither => MouseState::Neither,
                MouseState::Left => MouseState::Neither,
                MouseState::Right => MouseState::Right,
                MouseState::Both => MouseState::AfterBoth,
                MouseState::AfterBoth => MouseState::Neither,
            },
            MouseButton::Right => match self {
                MouseState::Neither => MouseState::Neither,
                MouseState::Left => MouseState::Left,
                MouseState::Right => MouseState::Neither,
                MouseState::Both => MouseState::AfterBoth,
                MouseState::AfterBoth => MouseState::Neither,
            },
            _ => *self,
        }
    }
}

} // verus!
