//! Scoring one guess against the target word.
//!
//! The result is stated position by position in [`letter_at`]. The
//! executable scorer works in two passes over a counter per letter and is
//! proved to compute exactly that statement.

use crate::letter::Letter;
use std::collections::HashMap;
use vstd::prelude::*;

verus! {

broadcast use vstd::std_specs::hash::group_hash_axioms;

/// How many of the first `n` positions of `s` hold `c`.
pub open spec fn count_upto(s: Seq<char>, c: char, n: int) -> nat
    decreases n,
{
    if n <= 0 {
        0
    } else {
        count_upto(s, c, n - 1) + if s[n - 1] == c {
            1nat
        } else {
            0nat
        }
    }
}

/// How many copies of `c` the word `s` holds.
pub open spec fn occurrences(s: Seq<char>, c: char) -> nat {
    count_upto(s, c, s.len() as int)
}

/// How many of the first `n` positions of `guess` hold `c` where `target`
/// holds `c` too: the copies of `c` that are in their place.
pub open spec fn exact_upto(target: Seq<char>, guess: Seq<char>, c: char, n: int) -> nat
    decreases n,
{
    if n <= 0 {
        0
    } else {
        exact_upto(target, guess, c, n - 1) + if guess[n - 1] == c && target[n - 1] == c {
            1nat
        } else {
            0nat
        }
    }
}

/// How many of the first `n` positions of `guess` hold `c` where `target`
/// holds another letter.
pub open spec fn misplaced_upto(target: Seq<char>, guess: Seq<char>, c: char, n: int) -> nat
    decreases n,
{
    if n <= 0 {
        0
    } else {
        misplaced_upto(target, guess, c, n - 1) + if guess[n - 1] == c && target[n - 1] != c {
            1nat
        } else {
            0nat
        }
    }
}

/// How many copies of `c` the target has to spare for misplaced letters:
/// its copies of `c` less those that the guess matches in place.
pub open spec fn spare(target: Seq<char>, guess: Seq<char>, c: char) -> int {
    occurrences(target, c) - exact_upto(target, guess, c, guess.len() as int)
}

/// The verdict on position `i` of `guess`.
///
/// A letter that matches the target at its own position is `Correct`. The
/// copies of a letter that the target has to spare go to the misplaced
/// copies of that letter in the guess, from left to right: a misplaced
/// copy is `CorrectButWrongPosition` while a spare copy is left for it,
/// and `Wrong` after that. A letter that the target does not hold has no
/// spare copy and is `Wrong`.
pub open spec fn letter_at(target: Seq<char>, guess: Seq<char>, i: int) -> Letter {
    let c = guess[i];
    if target[i] == c {
        Letter::Correct(c)
    } else if misplaced_upto(target, guess, c, i) < spare(target, guess, c) {
        Letter::CorrectButWrongPosition(c)
    } else {
        Letter::Wrong(c)
    }
}

/// The verdicts on all the letters of `guess`, in the order of the guess.
pub open spec fn assessment(target: Seq<char>, guess: Seq<char>) -> Seq<Letter> {
    Seq::new(guess.len(), |i: int| letter_at(target, guess, i))
}

/// How many of the first `n` verdicts of `row` credit the guess with a copy
/// of `c`.
pub open spec fn claims_upto(row: Seq<Letter>, c: char, n: int) -> nat
    decreases n,
{
    if n <= 0 {
        0
    } else {
        claims_upto(row, c, n - 1) + if row[n - 1].claims(c) {
            1nat
        } else {
            0nat
        }
    }
}

/// How many verdicts of `row` credit the guess with a copy of `c`.
pub open spec fn claimed(row: Seq<Letter>, c: char) -> nat {
    claims_upto(row, c, row.len() as int)
}

/// A prefix of a word holds at most as many copies of a letter as it has
/// positions, and no more than a longer prefix.
proof fn lemma_count_upto_bounds(s: Seq<char>, c: char, i: int, n: int)
    requires
        0 <= i <= n,
    ensures
        count_upto(s, c, i) <= i,
        count_upto(s, c, i) <= count_upto(s, c, n),
    decreases n,
{
    if i > 0 {
        lemma_count_upto_bounds(s, c, i - 1, i - 1);
    }
    if i < n {
        lemma_count_upto_bounds(s, c, i, n - 1);
    }
}

/// The copies of a letter that are in their place among the first `n`
/// positions are copies that the target holds there.
proof fn lemma_exact_within_target(target: Seq<char>, guess: Seq<char>, c: char, n: int)
    ensures
        exact_upto(target, guess, c, n) <= count_upto(target, c, n),
    decreases n,
{
    if n > 0 {
        lemma_exact_within_target(target, guess, c, n - 1);
    }
}

/// Later positions have no fewer misplaced copies of a letter before them.
pub proof fn lemma_misplaced_grows(target: Seq<char>, guess: Seq<char>, c: char, i: int, n: int)
    requires
        i <= n,
    ensures
        misplaced_upto(target, guess, c, i) <= misplaced_upto(target, guess, c, n),
    decreases n - i,
{
    if i < n {
        lemma_misplaced_grows(target, guess, c, i, n - 1);
    }
}

/// A guess of the target's length leaves the target no fewer than zero
/// spare copies of a letter.
proof fn lemma_spare_is_not_negative(target: Seq<char>, guess: Seq<char>, c: char)
    requires
        target.len() == guess.len(),
    ensures
        spare(target, guess, c) >= 0,
{
    lemma_exact_within_target(target, guess, c, guess.len() as int);
}

/// How many spare copies of `c` are left after the first `n` positions of
/// the guess have had theirs.
spec fn left_upto(target: Seq<char>, guess: Seq<char>, c: char, n: int) -> int {
    let room = spare(target, guess, c);
    let seen = misplaced_upto(target, guess, c, n) as int;
    if seen < room {
        room - seen
    } else {
        0
    }
}

/// How many misplaced copies of `c` among the first `n` positions are
/// credited: all of them while the spare copies last, and no more than
/// there are spare copies.
spec fn credited_upto(target: Seq<char>, guess: Seq<char>, c: char, n: int) -> int {
    let room = spare(target, guess, c);
    let seen = misplaced_upto(target, guess, c, n) as int;
    if seen < room {
        seen
    } else if room > 0 {
        room
    } else {
        0
    }
}

/// The credits given for `c` among the first `n` verdicts: the copies in
/// their place, and the misplaced copies that found a spare copy.
proof fn lemma_claims_upto(target: Seq<char>, guess: Seq<char>, c: char, n: int)
    requires
        0 <= n <= guess.len(),
    ensures
        claims_upto(assessment(target, guess), c, n) == exact_upto(target, guess, c, n)
            + credited_upto(target, guess, c, n),
    decreases n,
{
    if n > 0 {
        lemma_claims_upto(target, guess, c, n - 1);
        assert(assessment(target, guess)[n - 1] == letter_at(target, guess, n - 1));
    }
}

/// A guess of the target's length is never credited with more copies of a
/// letter than the target holds: the `Correct` and `CorrectButWrongPosition`
/// verdicts on `c` together number at most the copies of `c` in the target.
pub proof fn lemma_claims_within_budget(target: Seq<char>, guess: Seq<char>, c: char)
    requires
        target.len() == guess.len(),
    ensures
        assessment(target, guess).len() == target.len(),
        claimed(assessment(target, guess), c) <= occurrences(target, c),
{
    lemma_claims_upto(target, guess, c, guess.len() as int);
    lemma_spare_is_not_negative(target, guess, c);
}

/// The counter `m` read at the letter `c`: letters are filed under their
/// code points, and a letter that was never counted reads as zero.
spec fn tally(m: Map<u32, usize>, c: char) -> nat {
    if m.contains_key(c as u32) {
        m[c as u32] as nat
    } else {
        0
    }
}

/// Two letters are filed under the same code point only if they are the
/// same letter.
proof fn lemma_code_points_differ(a: char, b: char)
    requires
        a != b,
    ensures
        a as u32 != b as u32,
{
}

/// Reads the counter at the letter `c`.
fn copies(m: &HashMap<u32, usize>, c: char) -> (n: usize)
    ensures
        n == tally(m@, c),
{
    let key: u32 = c as u32;
    match m.get(&key) {
        Some(n) => *n,
        None => 0,
    }
}

/// Counts one more copy of the letter `c`.
fn add_copy(m: &mut HashMap<u32, usize>, c: char)
    requires
        tally(old(m)@, c) < usize::MAX,
    ensures
        forall|d: char|
            #[trigger] tally(final(m)@, d) == tally(old(m)@, d) + if d == c {
                1nat
            } else {
                0nat
            },
{
    let n: usize = copies(m, c);
    m.insert(c as u32, n + 1);
    assert forall|d: char| #[trigger]
        tally(m@, d) == tally(old(m)@, d) + if d == c {
            1nat
        } else {
            0nat
        } by {
        if d != c {
            lemma_code_points_differ(d, c);
        }
    }
}

/// Counts one copy less of the letter `c`.
fn remove_copy(m: &mut HashMap<u32, usize>, c: char)
    requires
        tally(old(m)@, c) > 0,
    ensures
        forall|d: char|
            #[trigger] tally(final(m)@, d) == tally(old(m)@, d) - if d == c {
                1nat
            } else {
                0nat
            },
{
    let n: usize = copies(m, c);
    m.insert(c as u32, n - 1);
    assert forall|d: char| #[trigger]
        tally(m@, d) == tally(old(m)@, d) - if d == c {
            1nat
        } else {
            0nat
        } by {
        if d != c {
            lemma_code_points_differ(d, c);
        }
    }
}

/// Counts the copies of each letter of `word`.
fn letter_counts(word: &Vec<char>) -> (m: HashMap<u32, usize>)
    ensures
        forall|c: char| #[trigger] tally(m@, c) == occurrences(word@, c),
{
    let mut m: HashMap<u32, usize> = HashMap::new();
    let mut i: usize = 0;
    while i < word.len()
        invariant
            i <= word.len(),
            forall|c: char| #[trigger] tally(m@, c) == count_upto(word@, c, i as int),
        decreases word.len() - i,
    {
        proof {
            lemma_count_upto_bounds(word@, word[i as int], i as int, i as int);
        }
        add_copy(&mut m, word[i]);
        i += 1;
    }
    m
}

/// First pass: every letter of the guess that is in its place takes up one
/// copy of that letter in the target. What is returned counts the copies
/// that are left over.
fn first_pass(target: &Vec<char>, guess: &Vec<char>) -> (spare_copies: HashMap<u32, usize>)
    requires
        target.len() == guess.len(),
    ensures
        forall|c: char| #[trigger] tally(spare_copies@, c) == spare(target@, guess@, c),
{
    let mut spare_copies = letter_counts(target);
    let mut i: usize = 0;
    while i < guess.len()
        invariant
            i <= guess.len(),
            target.len() == guess.len(),
            forall|c: char| #[trigger]
                tally(spare_copies@, c) == occurrences(target@, c) - exact_upto(
                    target@,
                    guess@,
                    c,
                    i as int,
                ),
        decreases guess.len() - i,
    {
        let c: char = guess[i];
        if target[i] == c {
            proof {
                lemma_exact_within_target(target@, guess@, c, i + 1);
                lemma_count_upto_bounds(target@, c, i + 1, target@.len() as int);
            }
            remove_copy(&mut spare_copies, c);
        }
        i += 1;
    }
    spare_copies
}

/// Second pass: going through the guess from the left, a letter in its
/// place is `Correct`, and a misplaced letter takes a spare copy of its
/// letter while there is one, and is `Wrong` once there is none.
fn second_pass(target: &Vec<char>, guess: &Vec<char>, spare_copies: HashMap<u32, usize>) -> (letters:
    Vec<Letter>)
    requires
        target.len() == guess.len(),
        forall|c: char| #[trigger] tally(spare_copies@, c) == spare(target@, guess@, c),
    ensures
        letters@ == assessment(target@, guess@),
{
    let mut spare_copies = spare_copies;
    let mut letters: Vec<Letter> = Vec::new();
    let mut i: usize = 0;
    while i < guess.len()
        invariant
            i <= guess.len(),
            target.len() == guess.len(),
            letters@ == Seq::new(i as nat, |j: int| letter_at(target@, guess@, j)),
            forall|c: char| #[trigger]
                tally(spare_copies@, c) == left_upto(target@, guess@, c, i as int),
        decreases guess.len() - i,
    {
        let c: char = guess[i];
        if target[i] == c {
            letters.push(Letter::Correct(c));
        } else if copies(&spare_copies, c) > 0 {
            remove_copy(&mut spare_copies, c);
            letters.push(Letter::CorrectButWrongPosition(c));
        } else {
            letters.push(Letter::Wrong(c));
        }
        assert(letters@[i as int] == letter_at(target@, guess@, i as int));
        i += 1;
    }
    letters
}

/// Scores `guess` against `target`, letter by letter.
pub(crate) fn assess_letters(target: &Vec<char>, guess: &Vec<char>) -> (letters: Vec<Letter>)
    requires
        target.len() == guess.len(),
    ensures
        letters@ == assessment(target@, guess@),
{
    let spare_copies = first_pass(target, guess);
    second_pass(target, guess, spare_copies)
}

} // verus!
