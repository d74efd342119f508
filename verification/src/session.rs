//! One player's session: the game in progress, the words already played
//! and won, and the rules by which the next target word is picked and a
//! message from the player is answered.

use crate::text::{ascii_lowercase, ascii_uppercase, chars_of, uppercase, whitespace};
use crate::wordle::{Board, State, Wordle, WordleError, MIN_WORD_LENGTH};
use crate::words::{
    contains_word, distinct_words, insert_word, lemma_with_word, lemma_without_repeats, texts,
    with_word, without_repeats,
};
use vstd::prelude::*;

verus! {

/// What came of a word that the player sent.
#[derive(Debug, Clone, Copy, PartialEq, Eq, Structural)]
pub enum Move {
    /// The word was recorded and the game goes on.
    Valid,
    /// The word is not in the list of valid words.
    InvalidWord,
    /// The word has not the length of the target.
    InvalidLength,
    /// The word was the target.
    Won,
    /// The word was the last attempt and missed.
    Lost,
}

/// Why no game could be started.
#[derive(Debug, Clone, Copy, PartialEq, Eq, Structural)]
pub enum StartError {
    /// There is no target word to pick from.
    NoTargetWords,
    /// The word that was picked is too short for a target.
    TooShort,
}

/// Whether a line of a word file is taken as a comment: it starts with `#`.
pub open spec fn comment(line: Seq<char>) -> bool {
    line.len() > 0 && line[0] == '#'
}

/// Whether a line holds nothing but white space.
pub open spec fn blank(line: Seq<char>) -> bool {
    forall|i: int| 0 <= i < line.len() ==> whitespace(#[trigger] line[i])
}

/// Whether a line of a word file holds a word: it is neither a comment nor
/// blank.
pub fn is_word_line(line: &str) -> (keep: bool)
    ensures
        keep == (!comment(line@) && !blank(line@)),
{
    let chars = chars_of(line);
    if chars.len() > 0 && chars[0] == '#' {
        return false;
    }
    let mut i: usize = 0;
    while i < chars.len()
        invariant
            i <= chars.len(),
            chars@ == line@,
            !comment(line@),
            forall|j: int| 0 <= j < i ==> whitespace(#[trigger] line@[j]),
        decreases chars.len() - i,
    {
        if !chars[i].is_whitespace() {
            return true;
        }
        i += 1;
    }
    false
}

/// Whether `word` may be played: every word may while the list of valid
/// words is empty, and otherwise those whose ASCII lower-case form is
/// listed.
pub open spec fn valid_word(valid: Seq<Seq<char>>, word: Seq<char>) -> bool {
    valid.len() == 0 || valid.contains(ascii_lowercase(word))
}

/// Whether `word` may be played against the list `valid_words`.
pub fn is_valid_word(valid_words: &Vec<String>, word: &str) -> (valid: bool)
    ensures
        valid == valid_word(texts(valid_words@), word@),
{
    valid_words.len() == 0 || contains_word(valid_words, &word.to_ascii_lowercase())
}

/// The list `valid` followed by the ASCII lower-case forms of `targets`
/// that it does not hold yet.
pub open spec fn with_lowercased(valid: Seq<Seq<char>>, targets: Seq<Seq<char>>) -> Seq<Seq<char>>
    decreases targets.len(),
{
    if targets.len() == 0 {
        valid
    } else {
        with_word(with_lowercased(valid, targets.drop_last()), ascii_lowercase(targets.last()))
    }
}

/// The words that may be played: the valid words, each once, and with them
/// every target word in its ASCII lower-case form.
pub fn valid_word_list(valid_words: &Vec<String>, target_words: &Vec<String>) -> (list: Vec<String>)
    ensures
        texts(list@) == with_lowercased(
            without_repeats(texts(valid_words@)),
            texts(target_words@),
        ),
{
    let mut list = distinct_words(valid_words);
    let ghost valid = texts(list@);
    let mut i: usize = 0;
    while i < target_words.len()
        invariant
            i <= target_words.len(),
            texts(list@) == with_lowercased(valid, texts(target_words@).take(i as int)),
        decreases target_words.len() - i,
    {
        let ghost prefix = texts(target_words@).take(i + 1);
        assert(prefix.drop_last() =~= texts(target_words@).take(i as int));
        insert_word(&mut list, target_words[i].as_str().to_ascii_lowercase());
        i += 1;
    }
    assert(texts(target_words@).take(i as int) =~= texts(target_words@));
    list
}

/// Whether the target word at index `i` has been played: its ASCII
/// upper-case form is among the played words.
pub open spec fn played_at(targets: Seq<Seq<char>>, played: Seq<Seq<char>>, i: int) -> bool {
    played.contains(ascii_uppercase(targets[i]))
}

/// Whether `i` is the index of the first target word that has not been
/// played.
pub open spec fn first_unplayed_at(targets: Seq<Seq<char>>, played: Seq<Seq<char>>, i: int) -> bool {
    &&& 0 <= i < targets.len()
    &&& !played_at(targets, played, i)
    &&& forall|j: int| 0 <= j < i ==> played_at(targets, played, j)
}

/// Whether every target word has been played.
pub open spec fn all_played(targets: Seq<Seq<char>>, played: Seq<Seq<char>>) -> bool {
    forall|j: int| 0 <= j < targets.len() ==> played_at(targets, played, j)
}

/// The index of the first target word that has not been played, if there
/// is one.
pub fn first_unplayed(target_words: &Vec<String>, played_words: &Vec<String>) -> (first: Option<
    usize,
>)
    ensures
        match first {
            Some(i) => first_unplayed_at(texts(target_words@), texts(played_words@), i as int),
            None => all_played(texts(target_words@), texts(played_words@)),
        },
{
    let mut i: usize = 0;
    while i < target_words.len()
        invariant
            i <= target_words.len(),
            forall|j: int|
                0 <= j < i ==> played_at(texts(target_words@), texts(played_words@), j),
        decreases target_words.len() - i,
    {
        if !contains_word(played_words, &target_words[i].as_str().to_ascii_uppercase()) {
            return Some(i);
        }
        i += 1;
    }
    None
}

/// Whether `target` may come out as the next target word: it is the
/// upper-case form of the first target word that has not been played or,
/// once all have been played, of any target word.
pub open spec fn next_target_is(
    targets: Seq<Seq<char>>,
    played: Seq<Seq<char>>,
    target: Seq<char>,
) -> bool {
    exists|i: int|
        0 <= i < targets.len() && target == uppercase(#[trigger] targets[i]) && (first_unplayed_at(
            targets,
            played,
            i,
        ) || all_played(targets, played))
}

/// Draws one of `words` at random with rand's `SliceRandom::choose` and the
/// generator of the current thread. `choose` returns `None` for an empty
/// slice and a reference to one of its elements otherwise; which one is
/// left open. (The generator panics where the operating system gives it no
/// seed; no argument decides that.)
#[verifier::external_body]
fn choose_word(words: &Vec<String>) -> (drawn: Option<&String>)
    ensures
        match drawn {
            Some(word) => exists|i: int| 0 <= i < words@.len() && #[trigger] words@[i] == *word,
            None => words@.len() == 0,
        },
{
    rand::seq::SliceRandom::choose(words.as_slice(), &mut rand::thread_rng())
}

/// The next target word, in upper case: the first target word that has not
/// been played, or one drawn at random once all have been played. There is
/// none only where there are no target words.
pub fn next_target(target_words: &Vec<String>, played_words: &Vec<String>) -> (next: Option<String>)
    ensures
        match next {
            Some(target) => next_target_is(texts(target_words@), texts(played_words@), target@),
            None => target_words@.len() == 0,
        },
{
    let picked: Option<&String> = match first_unplayed(target_words, played_words) {
        Some(i) => Some(&target_words[i]),
        None => {
            let drawn = choose_word(target_words);
            proof {
                if let Some(word) = drawn {
                    let i = choose|i: int|
                        0 <= i < target_words@.len() && #[trigger] target_words@[i] == *word;
                    assert(texts(target_words@)[i] == word@);
                }
            }
            drawn
        },
    };
    match picked {
        Some(word) => Some(word.as_str().to_uppercase()),
        None => None,
    }
}

/// Puts `words` in a random order with rand's `SliceRandom::shuffle` and
/// the generator of the current thread. `shuffle` only swaps elements of
/// the slice, so the words are the same, each as often as before. (The
/// generator panics where the operating system gives it no seed; no
/// argument decides that.)
#[verifier::external_body]
fn shuffle_words(words: &mut Vec<String>)
    ensures
        final(words)@.to_multiset() == old(words)@.to_multiset(),
{
    rand::seq::SliceRandom::shuffle(words.as_mut_slice(), &mut rand::thread_rng());
}

/// The target words in a random order. Fails where there are none.
pub fn shuffled_targets(target_words: Vec<String>) -> (r: Result<Vec<String>, StartError>)
    ensures
        match r {
            Ok(shuffled) => {
                &&& target_words@.len() > 0
                &&& shuffled@.to_multiset() == target_words@.to_multiset()
            },
            Err(e) => target_words@.len() == 0 && e == StartError::NoTargetWords,
        },
{
    if target_words.len() == 0 {
        return Err(StartError::NoTargetWords);
    }
    let mut shuffled = target_words;
    shuffle_words(&mut shuffled);
    Ok(shuffled)
}

/// The move that a recorded word makes, by the state it leaves the game
/// in.
pub open spec fn move_for(state: State) -> Move {
    match state {
        State::Won => Move::Won,
        State::Lost => Move::Lost,
        State::Playing => Move::Valid,
    }
}

/// The answer to `word` on `board`: a word that is not valid or has not the
/// length of the target is sent back without being played; any other word
/// is played in its upper-case form, and answered by what the game says.
pub open spec fn outcome(valid: bool, board: Board, word: Seq<char>) -> Result<Move, WordleError> {
    if !valid {
        Ok(Move::InvalidWord)
    } else if word.len() != board.target.len() {
        Ok(Move::InvalidLength)
    } else {
        match board.refusal(uppercase(word)) {
            Some(e) => Err(e),
            None => Ok(move_for(board.play(uppercase(word)).status())),
        }
    }
}

/// Whether the answer says that the word was recorded as an attempt.
pub open spec fn recorded(answer: Result<Move, WordleError>) -> bool {
    answer == Ok::<Move, WordleError>(Move::Valid) || answer == Ok::<Move, WordleError>(Move::Won)
        || answer == Ok::<Move, WordleError>(Move::Lost)
}

/// What a player's chat keeps between messages.
#[derive(Debug, Clone)]
pub struct Session {
    /// The game in progress or last played, if any.
    pub wordle: Option<Wordle>,
    /// The target words of the games started, in upper case, each once.
    pub played_words: Vec<String>,
    /// The target words of the games won, each once.
    pub won_words: Vec<String>,
}

impl Session {
    /// The board of the game held, if any.
    pub open spec fn board(&self) -> Option<Board> {
        match self.wordle {
            Some(wordle) => Some(wordle@),
            None => None,
        }
    }

    /// The texts of the played words.
    pub open spec fn played(&self) -> Seq<Seq<char>> {
        texts(self.played_words@)
    }

    /// The texts of the won words.
    pub open spec fn won(&self) -> Seq<Seq<char>> {
        texts(self.won_words@)
    }

    /// No word is listed twice as played or as won.
    pub open spec fn well_formed(&self) -> bool {
        &&& self.played().no_duplicates()
        &&& self.won().no_duplicates()
    }

    /// A session without a game, with no word played or won.
    pub fn new() -> (session: Session)
        ensures
            session.wordle is None,
            session.played_words@.len() == 0,
            session.won_words@.len() == 0,
            session.well_formed(),
    {
        Session { wordle: None, played_words: Vec::new(), won_words: Vec::new() }
    }

    /// Whether a game is held and still being played.
    pub fn is_playing(&self) -> (playing: bool)
        ensures
            playing == (self.board() matches Some(board) && board.status() == State::Playing),
    {
        match &self.wordle {
            Some(wordle) => wordle.status() == State::Playing,
            None => false,
        }
    }

    /// Starts a game on the next target word and lists the word as played.
    ///
    /// Returns the word picked, in upper case. Fails, and leaves the session
    /// as it was, where there is no target word or the word picked is too
    /// short.
    pub fn start_game(&mut self, target_words: &Vec<String>) -> (r: Result<String, StartError>)
        ensures
            old(self).well_formed() ==> final(self).well_formed(),
            match r {
                Ok(target) => {
                    &&& next_target_is(texts(target_words@), old(self).played(), target@)
                    &&& uppercase(target@).len() >= MIN_WORD_LENGTH
                    &&& final(self).board() == Some(Board::fresh(uppercase(target@)))
                    &&& final(self).played() == with_word(old(self).played(), target@)
                    &&& final(self).won_words == old(self).won_words
                },
                Err(e) => {
                    &&& *final(self) == *old(self)
                    &&& match e {
                        StartError::NoTargetWords => target_words@.len() == 0,
                        StartError::TooShort => exists|target: Seq<char>|
                            #![trigger uppercase(target)]
                            next_target_is(texts(target_words@), old(self).played(), target)
                                && uppercase(target).len() < MIN_WORD_LENGTH,
                    }
                },
            },
    {
        let target = match next_target(target_words, &self.played_words) {
            Some(target) => target,
            None => {
                return Err(StartError::NoTargetWords);
            },
        };
        match Wordle::new(target.clone()) {
            Ok(wordle) => {
                self.wordle = Some(wordle);
            },
            Err(_) => {
                return Err(StartError::TooShort);
            },
        }
        proof {
            lemma_with_word(old(self).played(), target@);
        }
        insert_word(&mut self.played_words, target.clone());
        Ok(target)
    }

    /// Answers a word sent by the player while a game is held.
    ///
    /// A word that is not valid, or has not the length of the target, is
    /// sent back and nothing changes. Any other word is played; where the
    /// game turns it down, the error is handed on and nothing changes.
    /// Where the word wins the game, the target is listed as won.
    pub fn play_turn(&mut self, valid_words: &Vec<String>, word: &str) -> (r: Result<
        Move,
        WordleError,
    >)
        requires
            old(self).wordle is Some,
        ensures
            old(self).well_formed() ==> final(self).well_formed(),
            r == outcome(
                valid_word(texts(valid_words@), word@),
                old(self).board().unwrap(),
                word@,
            ),
            final(self).played_words == old(self).played_words,
            if recorded(r) {
                final(self).board() == Some(old(self).board().unwrap().play(uppercase(word@)))
            } else {
                final(self).wordle == old(self).wordle
            },
            if r == Ok::<Move, WordleError>(Move::Won) {
                final(self).won() == with_word(old(self).won(), old(self).board().unwrap().target)
            } else {
                final(self).won_words == old(self).won_words
            },
    {
        if !is_valid_word(valid_words, word) {
            return Ok(Move::InvalidWord);
        }
        let state = match &mut self.wordle {
            Some(wordle) => {
                if word.unicode_len() != wordle.target_word.as_str().unicode_len() {
                    return Ok(Move::InvalidLength);
                }
                match wordle.play_turn(word) {
                    Ok(game) => game.state,
                    Err(e) => {
                        return Err(e);
                    },
                }
            },
            None => {
                return Ok(Move::InvalidWord);
            },
        };
        match state {
            State::Won => {
                let target = match &self.wordle {
                    Some(wordle) => wordle.target_word.clone(),
                    None => String::new(),
                };
                proof {
                    lemma_with_word(old(self).won(), target@);
                }
                insert_word(&mut self.won_words, target);
                Ok(Move::Won)
            },
            State::Lost => Ok(Move::Lost),
            State::Playing => Ok(Move::Valid),
        }
    }

    /// Takes over what was saved for the player: the words won, each once;
    /// as the words played, the saved words played, each once, or the words
    /// won where the session had listed fewer words as played than were
    /// won; and the game that was held last.
    pub fn restore(
        &mut self,
        won_words: &Vec<String>,
        played_words: &Vec<String>,
        last_wordle: Option<Wordle>,
    )
        ensures
            final(self).well_formed(),
            final(self).won() == without_repeats(texts(won_words@)),
            final(self).played() == if old(self).played_words@.len() < without_repeats(
                texts(won_words@),
            ).len() {
                without_repeats(texts(won_words@))
            } else {
                without_repeats(texts(played_words@))
            },
            final(self).wordle == last_wordle,
    {
        proof {
            lemma_without_repeats(texts(won_words@));
            lemma_without_repeats(texts(played_words@));
        }
        self.won_words = distinct_words(won_words);
        if self.played_words.len() < self.won_words.len() {
            self.played_words = distinct_words(won_words);
        } else {
            self.played_words = distinct_words(played_words);
        }
        self.wordle = last_wordle;
    }
}

impl Default for Session {
    /// A session without a game, with no word played or won.
    fn default() -> (session: Session)
        ensures
            session.wordle is None,
            session.played_words@.len() == 0,
            session.won_words@.len() == 0,
    {
        Session::new()
    }
}

} // verus!
