//! The game: a target word, the attempts made so far, and the rules for
//! taking a turn.
//!
//! [`Wordle`] is the stored game. Its mathematical model is a [`Board`]; the
//! status, the scored history and the answer to a new guess are all defined
//! on the board, and the executable methods are proved against it.

use crate::letter::Letter;
use crate::scoring::{assess_letters, assessment, claimed, lemma_claims_within_budget, occurrences};
use crate::summary::{is_summary, letters_of};
use crate::text::{chars_of, uppercase};
use vstd::prelude::*;

verus! {

/// The least number of letters in a target word.
pub const MIN_WORD_LENGTH: usize = 3;

/// The number of attempts after which an unsolved game is lost.
pub const MAX_ATTEMPTS: usize = 6;

/// Where a game stands.
#[derive(Debug, Clone, Copy, PartialEq, Eq, Structural)]
pub enum State {
    /// The target has not been guessed and attempts are left.
    Playing,
    /// Some attempt was the target word.
    Won,
    /// All the attempts are used and none was the target word.
    Lost,
}

/// Why a request was turned down.
#[derive(Debug, Clone, Copy, PartialEq, Eq, Structural)]
pub enum WordleError {
    /// The target word has fewer than [`MIN_WORD_LENGTH`] letters.
    TooShort,
    /// The word does not have as many letters as the target word.
    LengthMismatch,
    /// The game is won or lost already.
    GameOver,
}

/// A game as a mathematical value: the target and the attempts, oldest
/// first, each a sequence of characters.
#[verifier::ext_equal]
pub struct Board {
    pub target: Seq<char>,
    pub attempts: Seq<Seq<char>>,
}

/// What a player is shown: the status and the verdicts on every attempt.
#[verifier::ext_equal]
pub struct Snapshot {
    pub state: State,
    pub rows: Seq<Seq<Letter>>,
}

impl Board {
    /// The board of a game that has just begun.
    pub open spec fn fresh(target: Seq<char>) -> Board {
        Board { target, attempts: Seq::empty() }
    }

    /// Every attempt has as many letters as the target.
    pub open spec fn consistent(self) -> bool {
        forall|i: int| 0 <= i < self.attempts.len() ==> (#[trigger] self.attempts[i]).len()
            == self.target.len()
    }

    /// The target is long enough and every attempt has its length.
    pub open spec fn well_formed(self) -> bool {
        &&& self.target.len() >= MIN_WORD_LENGTH
        &&& self.consistent()
    }

    /// Won if some attempt is the target; else lost once
    /// [`MAX_ATTEMPTS`] attempts are made; else still playing.
    pub open spec fn status(self) -> State {
        if self.attempts.contains(self.target) {
            State::Won
        } else if self.attempts.len() >= MAX_ATTEMPTS {
            State::Lost
        } else {
            State::Playing
        }
    }

    /// The verdicts on every attempt, oldest first.
    pub open spec fn rows(self) -> Seq<Seq<Letter>> {
        Seq::new(self.attempts.len(), |i: int| assessment(self.target, self.attempts[i]))
    }

    /// The status together with the scored history.
    pub open spec fn snapshot(self) -> Snapshot {
        Snapshot { state: self.status(), rows: self.rows() }
    }

    /// Why `word` cannot be played on this board, if it cannot: a word of
    /// another length than the target is a mismatch (and so is any word
    /// while a stored attempt has another length); a word of the right
    /// length is turned down when the game is over.
    pub open spec fn refusal(self, word: Seq<char>) -> Option<WordleError> {
        if word.len() != self.target.len() || !self.consistent() {
            Some(WordleError::LengthMismatch)
        } else if self.status() != State::Playing {
            Some(WordleError::GameOver)
        } else {
            None
        }
    }

    /// The board after `word` is recorded as the next attempt.
    pub open spec fn play(self, word: Seq<char>) -> Board {
        Board { target: self.target, attempts: self.attempts.push(word) }
    }
}

/// A board as presented to the player.
#[derive(Debug)]
pub struct Game {
    pub state: State,
    pub attempts: Vec<Vec<Letter>>,
}

impl View for Game {
    type V = Snapshot;

    open spec fn view(&self) -> Snapshot {
        Snapshot {
            state: self.state,
            rows: Seq::new(self.attempts@.len(), |i: int| self.attempts@[i]@),
        }
    }
}

impl Game {
    /// The letters tried so far, whatever the verdict on them was: in
    /// ascending order, each one once.
    pub fn attempted_letters(&self) -> (letters: Vec<char>)
        ensures
            is_summary(letters@, self@.rows),
    {
        letters_of(&self.attempts)
    }
}

/// A single game: the word to guess and the words tried so far.
#[derive(Debug, Clone)]
pub struct Wordle {
    /// The word that the player is trying to guess, in upper case.
    pub target_word: String,
    /// The words that the player has tried, oldest first, in upper case.
    pub attempts: Vec<String>,
}

impl View for Wordle {
    type V = Board;

    open spec fn view(&self) -> Board {
        Board {
            target: self.target_word@,
            attempts: Seq::new(self.attempts@.len(), |i: int| self.attempts@[i]@),
        }
    }
}

impl Wordle {
    /// Starts a game on the upper-case form of `target_word`, which must
    /// have at least [`MIN_WORD_LENGTH`] letters.
    pub fn new(target_word: String) -> (r: Result<Wordle, WordleError>)
        ensures
            match r {
                Ok(w) => {
                    &&& uppercase(target_word@).len() >= MIN_WORD_LENGTH
                    &&& w@ == Board::fresh(uppercase(target_word@))
                    &&& w@.well_formed()
                    &&& w@.status() == State::Playing
                },
                Err(e) => {
                    &&& uppercase(target_word@).len() < MIN_WORD_LENGTH
                    &&& e == WordleError::TooShort
                },
            },
    {
        Wordle::from_normalized(target_word.as_str().to_uppercase())
    }

    /// Starts a game on `target_word` as it stands, which must have at
    /// least [`MIN_WORD_LENGTH`] letters.
    pub fn from_normalized(target_word: String) -> (r: Result<Wordle, WordleError>)
        ensures
            match r {
                Ok(w) => {
                    &&& target_word@.len() >= MIN_WORD_LENGTH
                    &&& w@ == Board::fresh(target_word@)
                    &&& w@.well_formed()
                    &&& w@.status() == State::Playing
                },
                Err(e) => {
                    &&& target_word@.len() < MIN_WORD_LENGTH
                    &&& e == WordleError::TooShort
                },
            },
    {
        if target_word.as_str().unicode_len() < MIN_WORD_LENGTH {
            return Err(WordleError::TooShort);
        }
        Ok(Wordle { target_word, attempts: Vec::new() })
    }

    /// Where the game stands.
    pub fn status(&self) -> (s: State)
        ensures
            s == self@.status(),
    {
        let mut i: usize = 0;
        while i < self.attempts.len()
            invariant
                i <= self.attempts.len(),
                forall|j: int| 0 <= j < i ==> self@.attempts[j] != self@.target,
            decreases self.attempts.len() - i,
        {
            if self.attempts[i] == self.target_word {
                assert(self@.attempts[i as int] == self@.target);
                return State::Won;
            }
            i += 1;
        }
        if self.attempts.len() >= MAX_ATTEMPTS {
            State::Lost
        } else {
            State::Playing
        }
    }

    /// The status and the verdicts on every attempt made so far.
    ///
    /// Fails with `LengthMismatch` where a stored attempt has not the
    /// length of the target, which no game built by [`Wordle::new`] and
    /// [`Wordle::play_turn`] ever holds.
    pub fn game(&self) -> (r: Result<Game, WordleError>)
        ensures
            match r {
                Ok(g) => self@.consistent() && g@ == self@.snapshot(),
                Err(e) => !self@.consistent() && e == WordleError::LengthMismatch,
            },
    {
        let state = self.status();
        let mut rows: Vec<Vec<Letter>> = Vec::new();
        let mut i: usize = 0;
        while i < self.attempts.len()
            invariant
                i <= self.attempts.len(),
                rows@.len() == i,
                forall|j: int|
                    0 <= j < i ==> (#[trigger] self@.attempts[j]).len() == self@.target.len(),
                forall|j: int|
                    0 <= j < i ==> (#[trigger] rows@[j])@ == assessment(
                        self@.target,
                        self@.attempts[j],
                    ),
            decreases self.attempts.len() - i,
        {
            match self.assess_normalized(self.attempts[i].as_str()) {
                Ok(row) => {
                    rows.push(row);
                },
                Err(e) => {
                    assert(self@.attempts[i as int].len() != self@.target.len());
                    return Err(e);
                },
            }
            i += 1;
        }
        Ok(Game { state, attempts: rows })
    }

    /// Scores the upper-case form of `word` against the target.
    pub fn assess(&self, word: &str) -> (r: Result<Vec<Letter>, WordleError>)
        ensures
            match r {
                Ok(letters) => {
                    &&& uppercase(word@).len() == self@.target.len()
                    &&& letters@.len() == self@.target.len()
                    &&& letters@ == assessment(self@.target, uppercase(word@))
                    &&& forall|c: char| claimed(letters@, c) <= occurrences(self@.target, c)
                },
                Err(e) => {
                    &&& uppercase(word@).len() != self@.target.len()
                    &&& e == WordleError::LengthMismatch
                },
            },
    {
        self.assess_normalized(word.to_uppercase().as_str())
    }

    /// Scores `word`, taken as it stands, against the target: one verdict
    /// per letter, in the order of the word. No letter is credited more
    /// often than the target holds it.
    pub fn assess_normalized(&self, word: &str) -> (r: Result<Vec<Letter>, WordleError>)
        ensures
            match r {
                Ok(letters) => {
                    &&& word@.len() == self@.target.len()
                    &&& letters@.len() == self@.target.len()
                    &&& letters@ == assessment(self@.target, word@)
                    &&& forall|c: char| claimed(letters@, c) <= occurrences(self@.target, c)
                },
                Err(e) => {
                    &&& word@.len() != self@.target.len()
                    &&& e == WordleError::LengthMismatch
                },
            },
    {
        let target = chars_of(self.target_word.as_str());
        let guess = chars_of(word);
        if guess.len() != target.len() {
            return Err(WordleError::LengthMismatch);
        }
        let letters = assess_letters(&target, &guess);
        proof {
            assert forall|c: char| claimed(letters@, c) <= occurrences(self@.target, c) by {
                lemma_claims_within_budget(self@.target, word@, c);
            }
        }
        Ok(letters)
    }

    /// Plays the upper-case form of `word` as the next attempt.
    ///
    /// The word is recorded and the new board returned if it has the length
    /// of the target and the game is still being played. Otherwise the game
    /// is left as it was.
    pub fn play_turn(&mut self, word: &str) -> (r: Result<Game, WordleError>)
        ensures
            old(self)@.well_formed() ==> final(self)@.well_formed(),
            match r {
                Ok(g) => {
                    &&& old(self)@.refusal(uppercase(word@)) is None
                    &&& final(self)@ == old(self)@.play(uppercase(word@))
                    &&& g@ == final(self)@.snapshot()
                },
                Err(e) => {
                    &&& old(self)@.refusal(uppercase(word@)) == Some(e)
                    &&& *final(self) == *old(self)
                },
            },
    {
        self.play_normalized(word.to_uppercase())
    }

    /// Plays `word`, taken as it stands, as the next attempt.
    ///
    /// The word is recorded and the new board returned if it has the length
    /// of the target and the game is still being played. Otherwise the game
    /// is left as it was.
    pub fn play_normalized(&mut self, word: String) -> (r: Result<Game, WordleError>)
        ensures
            old(self)@.well_formed() ==> final(self)@.well_formed(),
            match r {
                Ok(g) => {
                    &&& old(self)@.refusal(word@) is None
                    &&& final(self)@ == old(self)@.play(word@)
                    &&& g@ == final(self)@.snapshot()
                },
                Err(e) => {
                    &&& old(self)@.refusal(word@) == Some(e)
                    &&& *final(self) == *old(self)
                },
            },
    {
        if word.as_str().unicode_len() != self.target_word.as_str().unicode_len() {
            return Err(WordleError::LengthMismatch);
        }
        match self.game() {
            Ok(game) => {
                if game.state != State::Playing {
                    return Err(WordleError::GameOver);
                }
            },
            Err(e) => {
                return Err(e);
            },
        }
        self.attempts.push(word);
        assert(self@ =~~= old(self)@.play(word@));
        self.game()
    }
}

} // verus!
