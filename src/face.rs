//! The face on the reset button, which mirrors the state of the game.

use vstd::prelude::*;

verus! {

#[derive(Clone, Copy, Debug, PartialEq, Eq, Structural)]
pub enum Face {
    Happy,
    Nervous,
    Dead,
    Cool,
}

impl Face {
    pub open spec fn spec_str(self) -> Seq<char> {
        match self {
            Face::Happy => "🙂"@,
            Face::Nervous => "😬"@,
            Face::Dead => "😵"@,
            Face::Cool => "😎"@,
        }
    }

    /// The emoji of the face.
    pub fn as_str(&self) -> (r: &'static str)
        ensures
            r@ == self.spec_str(),
    {
        match self {
            Face::Happy => "🙂",
            Face::Nervous => "😬",
            Face::Dead => "😵",
            Face::Cool => "😎",
        }
    }
}

} // verus!
