//! What holds of every game.
//!
//! Each law is a proof over the models that the methods of
//! [`Wordle`](crate::wordle::Wordle) are specified against: what is proved
//! here of `assessment` and of the `refusal`, `play`, `status` and `rows`
//! of a [`Board`] is what `assess`, `play_turn` and `game` do.

use crate::letter::Letter;
use crate::scoring::{
    assessment, claimed, lemma_claims_within_budget, lemma_misplaced_grows, occurrences,
};
use crate::summary::{appears, is_summary, lemma_summary_unique};
use crate::wordle::{Board, State, Wordle, WordleError, MAX_ATTEMPTS};
use vstd::prelude::*;

verus! {

/// Scoring keeps no memory: the verdicts are decided by the target and the
/// guess alone, so scoring the same pair again gives the same verdicts.
pub proof fn law_scoring_repeats(
    target: Seq<char>,
    guess: Seq<char>,
    first: Seq<Letter>,
    second: Seq<Letter>,
)
    requires
        first == assessment(target, guess),
        second == assessment(target, guess),
    ensures
        first == second,
{
}

/// A guess of the target's length gets one verdict per letter of the
/// target, and no letter is credited more often than the target holds it:
/// the `Correct` and `CorrectButWrongPosition` verdicts on a letter together
/// number at most its copies in the target.
pub proof fn law_credits_stay_within_the_target(target: Seq<char>, guess: Seq<char>)
    requires
        target.len() == guess.len(),
    ensures
        assessment(target, guess).len() == target.len(),
        forall|c: char| claimed(assessment(target, guess), c) <= occurrences(target, c),
{
    assert forall|c: char| claimed(assessment(target, guess), c) <= occurrences(target, c) by {
        lemma_claims_within_budget(target, guess, c);
    }
}

/// A letter in its place is `Correct` whatever else the guess holds, and
/// the spare copies of a letter go to its misplaced copies from the left:
/// where a misplaced copy is credited, every misplaced copy of the same
/// letter before it is credited too.
pub proof fn law_spare_copies_go_to_the_left(target: Seq<char>, guess: Seq<char>, i: int, j: int)
    requires
        0 <= i < j < guess.len(),
        guess[i] == guess[j],
        assessment(target, guess)[j] == Letter::CorrectButWrongPosition(guess[j]),
    ensures
        assessment(target, guess)[i] == Letter::Correct(guess[i]) || assessment(target, guess)[i]
            == Letter::CorrectButWrongPosition(guess[i]),
        target[i] == guess[i] <==> assessment(target, guess)[i] == Letter::Correct(guess[i]),
{
    lemma_misplaced_grows(target, guess, guess[i], i, j);
}

/// The verdicts follow the guess: there is one for each of its letters, and
/// the verdict at a position is about the letter that the guess holds
/// there.
pub proof fn law_verdicts_follow_the_guess(target: Seq<char>, guess: Seq<char>)
    ensures
        assessment(target, guess).len() == guess.len(),
        forall|i: int|
            0 <= i < guess.len() ==> (#[trigger] assessment(target, guess)[i]).symbol() == guess[i],
{
}

/// The target word scores `Correct` at every position.
pub proof fn law_target_is_all_correct(target: Seq<char>)
    ensures
        assessment(target, target).len() == target.len(),
        forall|i: int|
            0 <= i < target.len() ==> (#[trigger] assessment(target, target)[i]) == Letter::Correct(
                target[i],
            ),
{
}

/// The attempts decide the status: a game is won exactly if some attempt
/// is the target, and lost exactly if none is and all the attempts are
/// used.
pub proof fn law_status_goes_by_the_attempts(board: Board)
    ensures
        board.status() == State::Won <==> board.attempts.contains(board.target),
        board.status() == State::Lost <==> !board.attempts.contains(board.target)
            && board.attempts.len() >= MAX_ATTEMPTS,
        board.status() == State::Playing <==> !board.attempts.contains(board.target)
            && board.attempts.len() < MAX_ATTEMPTS,
{
}

/// Guessing the target wins: it is accepted whenever a word of its length
/// is, and the board that records it is won and shows it all `Correct`.
pub proof fn law_target_wins(board: Board)
    ensures
        board.refusal(board.target) is None <==> board.consistent() && board.status()
            == State::Playing,
        board.play(board.target).status() == State::Won,
        board.play(board.target).rows().last() == assessment(board.target, board.target),
{
    let after = board.play(board.target);
    assert(after.attempts[board.attempts.len() as int] == board.target);
}

/// Six attempts without the target lose the game, and a lost game accepts
/// no word: one of the target's length is turned down as `GameOver`.
pub proof fn law_six_misses_lose(board: Board, word: Seq<char>)
    requires
        board.attempts.len() == MAX_ATTEMPTS,
        !board.attempts.contains(board.target),
    ensures
        board.status() == State::Lost,
        board.refusal(word) is Some,
        board.consistent() && word.len() == board.target.len() ==> board.refusal(word) == Some(
            WordleError::GameOver,
        ),
{
}

/// A finished game stays as it is: once won or lost, every word is turned
/// down.
pub proof fn law_finished_is_final(board: Board, word: Seq<char>)
    requires
        board.status() != State::Playing,
    ensures
        board.refusal(word) is Some,
{
}

/// A game is lost only by a sixth attempt that misses the target.
pub proof fn law_lost_by_sixth_miss(board: Board, word: Seq<char>)
    requires
        board.refusal(word) is None,
        board.play(word).status() == State::Lost,
    ensures
        board.attempts.len() + 1 == MAX_ATTEMPTS,
        word != board.target,
{
    let after = board.play(word);
    if word == board.target {
        assert(after.attempts[board.attempts.len() as int] == board.target);
    }
}

/// A word whose length differs from the target's is turned down as a
/// `LengthMismatch`, whatever the state of the game.
pub proof fn law_wrong_length_is_refused(board: Board, word: Seq<char>)
    requires
        word.len() != board.target.len(),
    ensures
        board.refusal(word) == Some(WordleError::LengthMismatch),
{
}

/// Every recorded attempt has the length of the target: a turn that is
/// accepted keeps the board well formed, adds the word at the end and
/// leaves the earlier attempts and the target as they were.
pub proof fn law_play_keeps_well_formed(board: Board, word: Seq<char>)
    requires
        board.well_formed(),
        board.refusal(word) is None,
    ensures
        board.play(word).well_formed(),
        board.play(word).target == board.target,
        board.play(word).attempts.len() == board.attempts.len() + 1,
        board.play(word).attempts.last() == word,
        board.play(word).attempts.drop_last() == board.attempts,
{
    let after = board.play(word);
    assert forall|i: int| 0 <= i < after.attempts.len() implies (#[trigger] after.attempts[i]).len()
        == after.target.len() by {
        if i < board.attempts.len() {
            assert(after.attempts[i] == board.attempts[i]);
        }
    }
    assert(after.attempts.drop_last() =~= board.attempts);
}

/// The summary of attempted letters goes by the attempts alone: a letter
/// has a verdict on the board exactly if some attempt holds it.
pub proof fn law_summary_lists_the_letters_played(board: Board, c: char)
    ensures
        appears(board.rows(), c) <==> exists|i: int, j: int|
            0 <= i < board.attempts.len() && 0 <= j < board.attempts[i].len()
                && #[trigger] board.attempts[i][j] == c,
{
    let rows = board.rows();
    if appears(rows, c) {
        let (i, j) = choose|i: int, j: int|
            0 <= i < rows.len() && 0 <= j < rows[i].len() && (#[trigger] rows[i][j]).symbol() == c;
        law_verdicts_follow_the_guess(board.target, board.attempts[i]);
        assert(board.attempts[i][j] == c);
    }
    if exists|i: int, j: int|
        0 <= i < board.attempts.len() && 0 <= j < board.attempts[i].len()
            && #[trigger] board.attempts[i][j] == c {
        let (i, j) = choose|i: int, j: int|
            0 <= i < board.attempts.len() && 0 <= j < board.attempts[i].len()
                && #[trigger] board.attempts[i][j] == c;
        law_verdicts_follow_the_guess(board.target, board.attempts[i]);
        assert(rows[i][j].symbol() == c);
    }
}

/// A game that is written out as its target and attempts and built again
/// from them is the same game: the two have the same board, hence the same
/// status, the same verdicts and the same summary of attempted letters.
pub proof fn law_restored_game_is_the_same(
    saved: Wordle,
    restored: Wordle,
    letters_before: Seq<char>,
    letters_after: Seq<char>,
)
    requires
        restored.target_word@ == saved.target_word@,
        restored.attempts@.len() == saved.attempts@.len(),
        forall|i: int|
            0 <= i < saved.attempts@.len() ==> (#[trigger] restored.attempts@[i])@
                == saved.attempts@[i]@,
        is_summary(letters_before, saved@.rows()),
        is_summary(letters_after, restored@.rows()),
    ensures
        restored@ == saved@,
        restored@.status() == saved@.status(),
        restored@.snapshot() == saved@.snapshot(),
        letters_after == letters_before,
{
    assert(restored@.attempts =~~= saved@.attempts) by {
        assert forall|i: int| 0 <= i < saved@.attempts.len() implies restored@.attempts[i]
            == saved@.attempts[i] by {
            assert(restored@.attempts[i] == restored.attempts@[i]@);
            assert(saved@.attempts[i] == saved.attempts@[i]@);
        }
    }
    assert(restored@ == saved@);
    lemma_summary_unique(letters_before, letters_after, saved@.rows());
}

} // verus!
