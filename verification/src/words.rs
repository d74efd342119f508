//! Lists of words in which each word is held once.
//!
//! The lists are ordinary vectors; what makes them sets is that a word is
//! only added where it is not yet listed. They are compared by the text of
//! the words.

use vstd::prelude::*;

verus! {

/// The texts of a list of words, in order.
pub open spec fn texts(words: Seq<String>) -> Seq<Seq<char>> {
    Seq::new(words.len(), |i: int| words[i]@)
}

/// The list with `word` added at the end, unless it is listed already.
pub open spec fn with_word(list: Seq<Seq<char>>, word: Seq<char>) -> Seq<Seq<char>> {
    if list.contains(word) {
        list
    } else {
        list.push(word)
    }
}

/// The list with every word that occurred earlier in it left out.
pub open spec fn without_repeats(list: Seq<Seq<char>>) -> Seq<Seq<char>>
    decreases list.len(),
{
    if list.len() == 0 {
        Seq::empty()
    } else {
        with_word(without_repeats(list.drop_last()), list.last())
    }
}

/// Adding a word keeps a list free of repeats, and lists the word next to
/// what was listed before.
pub proof fn lemma_with_word(list: Seq<Seq<char>>, word: Seq<char>)
    ensures
        list.no_duplicates() ==> with_word(list, word).no_duplicates(),
        forall|w: Seq<char>| with_word(list, word).contains(w) <==> (list.contains(w) || w == word),
{
    let added = with_word(list, word);
    assert forall|w: Seq<char>| added.contains(w) <==> (list.contains(w) || w == word) by {
        if list.contains(word) {
        } else {
            if added.contains(w) {
                let i = choose|i: int| 0 <= i < added.len() && added[i] == w;
                if i < list.len() {
                    assert(list[i] == w);
                }
            }
            if list.contains(w) {
                let i = choose|i: int| 0 <= i < list.len() && list[i] == w;
                assert(added[i] == w);
            }
            if w == word {
                assert(added[list.len() as int] == w);
            }
        }
    }
}

/// Leaving out the repeats gives a list free of repeats that lists the same
/// words.
pub proof fn lemma_without_repeats(list: Seq<Seq<char>>)
    ensures
        without_repeats(list).no_duplicates(),
        forall|w: Seq<char>| without_repeats(list).contains(w) <==> list.contains(w),
    decreases list.len(),
{
    if list.len() > 0 {
        let front = list.drop_last();
        lemma_without_repeats(front);
        lemma_with_word(without_repeats(front), list.last());
        assert forall|w: Seq<char>| without_repeats(list).contains(w) <==> list.contains(w) by {
            if list.contains(w) {
                let i = choose|i: int| 0 <= i < list.len() && list[i] == w;
                if i < front.len() {
                    assert(front[i] == w);
                }
            }
            if front.contains(w) {
                let i = choose|i: int| 0 <= i < front.len() && front[i] == w;
                assert(list[i] == w);
            }
            if w == list.last() {
                assert(list[list.len() - 1] == w);
            }
        }
    }
}

/// Whether `words` lists `word`.
pub fn contains_word(words: &Vec<String>, word: &String) -> (found: bool)
    ensures
        found == texts(words@).contains(word@),
{
    let mut i: usize = 0;
    while i < words.len()
        invariant
            i <= words.len(),
            forall|j: int| 0 <= j < i ==> texts(words@)[j] != word@,
        decreases words.len() - i,
    {
        if words[i] == *word {
            assert(texts(words@)[i as int] == word@);
            return true;
        }
        i += 1;
    }
    false
}

/// Adds `word` to `words`, unless it is listed already.
pub fn insert_word(words: &mut Vec<String>, word: String)
    ensures
        texts(final(words)@) == with_word(texts(old(words)@), word@),
{
    if !contains_word(words, &word) {
        words.push(word);
    }
}

/// The words of `words` in the order in which they first occur, each once.
pub fn distinct_words(words: &Vec<String>) -> (distinct: Vec<String>)
    ensures
        texts(distinct@) == without_repeats(texts(words@)),
{
    let mut distinct: Vec<String> = Vec::new();
    let mut i: usize = 0;
    while i < words.len()
        invariant
            i <= words.len(),
            texts(distinct@) == without_repeats(texts(words@).take(i as int)),
        decreases words.len() - i,
    {
        let ghost prefix = texts(words@).take(i + 1);
        assert(prefix.drop_last() =~= texts(words@).take(i as int));
        insert_word(&mut distinct, words[i].clone());
        i += 1;
    }
    assert(texts(words@).take(i as int) =~= texts(words@));
    distinct
}

} // verus!
