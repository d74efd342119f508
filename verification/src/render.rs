//! How a board is written out for the player.

use crate::letter::Letter;
use crate::text::{ascii_upper, is_char_code};
use crate::wordle::Game;
use vstd::prelude::*;
use vstd::string::StringExecFns;

verus! {

/// The code point of the regional indicator symbol for the letter `A`.
pub const REGIONAL_INDICATOR_A: u32 = 0x1F1E6;

/// The code point that stands as far from the regional indicator `A` as
/// the ASCII upper-case form of `l` stands from the letter `A`.
pub open spec fn emoji_code(l: char) -> int {
    REGIONAL_INDICATOR_A + ascii_upper(l) as u32 - 'A' as u32
}

/// The symbol that a letter is shown as when it is in its place: for `A`
/// to `Z`, in either case, the regional indicator symbol of the letter;
/// for any other character the one that lies as far from the indicator `A`
/// as it lies from `A`, or `?` where there is none.
pub open spec fn emoji_of(l: char) -> char {
    if 0 <= emoji_code(l) <= u32::MAX && is_char_code(emoji_code(l) as u32) {
        emoji_code(l) as char
    } else {
        '?'
    }
}

/// The symbol that the letter `l` is shown as when it is in its place.
pub fn emoji_letter(l: char) -> (symbol: char)
    ensures
        symbol == emoji_of(l),
{
    let base: u32 = REGIONAL_INDICATOR_A;
    let a: u32 = 'A' as u32;
    let target: u32 = l.to_ascii_uppercase() as u32;
    match core::char::from_u32(base + target - a) {
        Some(symbol) => symbol,
        None => '?',
    }
}

/// How one verdict is written.
pub open spec fn rendered_letter(letter: Letter) -> Seq<char> {
    match letter {
        Letter::Correct(c) => " "@.push(emoji_of(c)),
        Letter::CorrectButWrongPosition(c) => " * `"@.push(c) + "` *  "@,
        Letter::Wrong(c) => " || ~"@.push(c) + "~ ||  "@,
    }
}

/// How the first `n` verdicts of a row are written, one after the other.
pub open spec fn rendered_letters(row: Seq<Letter>, n: int) -> Seq<char>
    decreases n,
{
    if n <= 0 {
        Seq::empty()
    } else {
        rendered_letters(row, n - 1) + rendered_letter(row[n - 1])
    }
}

/// How the heading and the first `n` rows are written: each row is followed
/// by an empty line.
pub open spec fn rendered_rows(rows: Seq<Seq<Letter>>, n: int) -> Seq<char>
    decreases n,
{
    if n <= 0 {
        "Your attempts:\n\n"@
    } else {
        rendered_rows(rows, n - 1) + rendered_letters(rows[n - 1], rows[n - 1].len() as int)
            + "\n\n"@
    }
}

/// How a board is written: the heading, then every row.
pub open spec fn rendered(rows: Seq<Seq<Letter>>) -> Seq<char> {
    rendered_rows(rows, rows.len() as int)
}

/// Writes out the attempts of `game`, one row per attempt.
pub fn render_game(game: &Game) -> (s: String)
    ensures
        s@ == rendered(game@.rows),
{
    let mut s = String::from_str("Your attempts:\n\n");
    let mut i: usize = 0;
    while i < game.attempts.len()
        invariant
            i <= game.attempts.len(),
            s@ == rendered_rows(game@.rows, i as int),
        decreases game.attempts.len() - i,
    {
        let attempt = &game.attempts[i];
        let ghost start = s@;
        let mut j: usize = 0;
        while j < attempt.len()
            invariant
                j <= attempt.len(),
                s@ == start + rendered_letters(attempt@, j as int),
            decreases attempt.len() - j,
        {
            match attempt[j] {
                Letter::Correct(c) => {
                    s.append(" ");
                    s.push(emoji_letter(c));
                },
                Letter::CorrectButWrongPosition(c) => {
                    s.append(" * `");
                    s.push(c);
                    s.append("` *  ");
                },
                Letter::Wrong(c) => {
                    s.append(" || ~");
                    s.push(c);
                    s.append("~ ||  ");
                },
            }
            j += 1;
        }
        s.append("\n\n");
        i += 1;
    }
    s
}

} // verus!
