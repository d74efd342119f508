//! The verdict on one letter of a guess.

use vstd::prelude::*;

verus! {

/// What the game says about the letter at one position of a guess.
#[derive(Debug, Clone, Copy, PartialEq, Eq, Structural)]
pub enum Letter {
    /// The target holds this letter at this very position.
    Correct(char),
    /// The target holds this letter elsewhere, and has a copy to spare for it.
    CorrectButWrongPosition(char),
    /// The target has no copy left for this letter.
    Wrong(char),
}

impl Letter {
    /// The guessed character that the verdict is about.
    pub open spec fn symbol(self) -> char {
        match self {
            Letter::Correct(c) => c,
            Letter::CorrectButWrongPosition(c) => c,
            Letter::Wrong(c) => c,
        }
    }

    /// Whether the verdict credits the guess with one copy of `c` in the target.
    pub open spec fn claims(self, c: char) -> bool {
        self == Letter::Correct(c) || self == Letter::CorrectButWrongPosition(c)
    }

    /// The guessed character that the verdict is about.
    pub fn character(&self) -> (c: char)
        ensures
            c == self.symbol(),
    {
        match self {
            Letter::Correct(c) => *c,
            Letter::CorrectButWrongPosition(c) => *c,
            Letter::Wrong(c) => *c,
        }
    }
}

} // verus!
