//! The letters a player has tried so far.

use crate::letter::Letter;
use vstd::prelude::*;

verus! {

/// Whether some verdict of `rows` is about the letter `c`.
pub open spec fn appears(rows: Seq<Seq<Letter>>, c: char) -> bool {
    exists|i: int, j: int|
        0 <= i < rows.len() && 0 <= j < rows[i].len() && (#[trigger] rows[i][j]).symbol() == c
}

/// Whether `s` is in strictly ascending order, so that no letter repeats.
pub open spec fn ascending(s: Seq<char>) -> bool {
    forall|i: int, j: int| 0 <= i < j < s.len() ==> s[i] < s[j]
}

/// Whether `s` lists, in ascending order and once each, exactly the letters
/// that `rows` has a verdict about.
pub open spec fn is_summary(s: Seq<char>, rows: Seq<Seq<Letter>>) -> bool {
    &&& ascending(s)
    &&& forall|c: char| s.contains(c) <==> appears(rows, c)
}

/// Two ascending lists with the same letters agree on their first `n`
/// positions.
proof fn lemma_same_prefix(a: Seq<char>, b: Seq<char>, n: int)
    requires
        ascending(a),
        ascending(b),
        forall|c: char| a.contains(c) <==> b.contains(c),
        0 <= n <= a.len(),
        n <= b.len(),
    ensures
        forall|k: int| 0 <= k < n ==> a[k] == b[k],
    decreases n,
{
    if n > 0 {
        lemma_same_prefix(a, b, n - 1);
        let k = n - 1;
        // a[k] occurs in b, and not before k, where b agrees with a
        assert(a.contains(a[k]));
        let p = choose|p: int| 0 <= p < b.len() && b[p] == a[k];
        assert(b.contains(b[k]));
        let q = choose|q: int| 0 <= q < a.len() && a[q] == b[k];
        if p < k {
            assert(a[p] == b[p]);
        }
        if q < k {
            assert(a[q] == b[q]);
        }
        if a[k] != b[k] {
            if a[k] < b[k] {
                assert(p > k);
            } else {
                assert(q > k);
            }
        }
    }
}

/// Two ascending lists with the same letters have the same length.
proof fn lemma_same_length(a: Seq<char>, b: Seq<char>)
    requires
        ascending(a),
        ascending(b),
        forall|c: char| a.contains(c) <==> b.contains(c),
        a.len() <= b.len(),
    ensures
        a.len() == b.len(),
{
    lemma_same_prefix(a, b, a.len() as int);
    if a.len() < b.len() {
        let extra = b[a.len() as int];
        assert(b.contains(extra));
        let q = choose|q: int| 0 <= q < a.len() && a[q] == extra;
        assert(a[q] == b[q]);
    }
}

/// The rows decide the summary: there is only one list that is a summary of
/// them.
pub proof fn lemma_summary_unique(a: Seq<char>, b: Seq<char>, rows: Seq<Seq<Letter>>)
    requires
        is_summary(a, rows),
        is_summary(b, rows),
    ensures
        a == b,
{
    if a.len() <= b.len() {
        lemma_same_length(a, b);
    } else {
        lemma_same_length(b, a);
    }
    lemma_same_prefix(a, b, a.len() as int);
}

/// A letter put between the smaller and the larger letters of an ascending
/// list leaves the list ascending.
proof fn lemma_insert_keeps_order(s: Seq<char>, p: int, c: char)
    requires
        ascending(s),
        0 <= p <= s.len(),
        forall|k: int| 0 <= k < p ==> s[k] < c,
        forall|k: int| p <= k < s.len() ==> c < s[k],
    ensures
        ascending(s.insert(p, c)),
{
    let t = s.insert(p, c);
    assert forall|i: int, j: int| 0 <= i < j < t.len() implies t[i] < t[j] by {
        let x = if i < p {
            i
        } else {
            i - 1
        };
        let y = if j < p {
            j
        } else {
            j - 1
        };
        if i != p && j != p {
            assert(t[i] == s[x] && t[j] == s[y]);
            assert(s[x] < s[y]);
        } else if i == p {
            assert(t[j] == s[y]);
        } else {
            assert(t[i] == s[x]);
        }
    }
}

/// A list that a letter is put into holds that letter and what it held
/// before, and nothing else.
proof fn lemma_insert_adds_one(s: Seq<char>, p: int, c: char, d: char)
    requires
        0 <= p <= s.len(),
    ensures
        s.insert(p, c).contains(d) <==> (s.contains(d) || d == c),
{
    let t = s.insert(p, c);
    if t.contains(d) {
        let k = choose|k: int| 0 <= k < t.len() && t[k] == d;
        if k < p {
            assert(s[k] == d);
        } else if k > p {
            assert(s[k - 1] == d);
        }
    }
    if s.contains(d) {
        let k = choose|k: int| 0 <= k < s.len() && s[k] == d;
        if k < p {
            assert(t[k] == d);
        } else {
            assert(t[k + 1] == d);
        }
    }
    if d == c {
        assert(t[p] == d);
    }
}

/// Adds `c` to the ascending list `v` at its place, unless it is there
/// already.
fn insert_letter(v: &mut Vec<char>, c: char)
    requires
        ascending(old(v)@),
    ensures
        ascending(final(v)@),
        forall|d: char| final(v)@.contains(d) <==> (old(v)@.contains(d) || d == c),
{
    let mut p: usize = 0;
    while p < v.len() && v[p] < c
        invariant
            p <= v.len(),
            v@ == old(v)@,
            forall|k: int| 0 <= k < p ==> v@[k] < c,
        decreases v.len() - p,
    {
        p += 1;
    }
    if p < v.len() && v[p] == c {
        assert(v@[p as int] == c);
        assert(v@.contains(c));
        assert forall|d: char| v@.contains(d) <==> (old(v)@.contains(d) || d == c) by {}
    } else {
        proof {
            assert forall|k: int| p <= k < v@.len() implies c < v@[k] by {
                assert(v@[p as int] <= v@[k]);
            }
            lemma_insert_keeps_order(v@, p as int, c);
        }
        v.insert(p, c);
        assert(v@ == old(v)@.insert(p as int, c));
        assert forall|d: char| v@.contains(d) <==> (old(v)@.contains(d) || d == c) by {
            lemma_insert_adds_one(old(v)@, p as int, c, d);
        }
    }
}

/// The letters of all the verdicts in `rows`, in ascending order and once
/// each.
pub(crate) fn letters_of(rows: &Vec<Vec<Letter>>) -> (letters: Vec<char>)
    ensures
        is_summary(letters@, Seq::new(rows@.len(), |i: int| rows@[i]@)),
{
    let ghost all = Seq::new(rows@.len(), |i: int| rows@[i]@);
    let mut letters: Vec<char> = Vec::new();
    let mut i: usize = 0;
    while i < rows.len()
        invariant
            i <= rows.len(),
            all == Seq::new(rows@.len(), |i: int| rows@[i]@),
            ascending(letters@),
            forall|c: char| letters@.contains(c) <==> appears(all.take(i as int), c),
        decreases rows.len() - i,
    {
        let row = &rows[i];
        let mut j: usize = 0;
        while j < row.len()
            invariant
                i < rows.len(),
                j <= row.len(),
                *row == rows@[i as int],
                all == Seq::new(rows@.len(), |i: int| rows@[i]@),
                ascending(letters@),
                forall|c: char|
                    letters@.contains(c) <==> (appears(all.take(i as int), c) || exists|k: int|
                        0 <= k < j && (#[trigger] row@[k]).symbol() == c),
            decreases row.len() - j,
        {
            let c = row[j].character();
            insert_letter(&mut letters, c);
            j += 1;
        }
        proof {
            let done = all.take(i as int);
            let next = all.take(i + 1);
            assert forall|c: char| letters@.contains(c) <==> appears(next, c) by {
                if appears(next, c) {
                    let (a, b) = choose|a: int, b: int|
                        0 <= a < next.len() && 0 <= b < next[a].len() && (
                        #[trigger] next[a][b]).symbol() == c;
                    if a < i {
                        assert(done[a][b].symbol() == c);
                    } else {
                        assert(row@[b].symbol() == c);
                    }
                }
                if appears(done, c) {
                    let (a, b) = choose|a: int, b: int|
                        0 <= a < done.len() && 0 <= b < done[a].len() && (
                        #[trigger] done[a][b]).symbol() == c;
                    assert(next[a][b].symbol() == c);
                }
                if exists|k: int| 0 <= k < j && (#[trigger] row@[k]).symbol() == c {
                    let k = choose|k: int| 0 <= k < j && (#[trigger] row@[k]).symbol() == c;
                    assert(next[i as int][k].symbol() == c);
                }
            }
        }
        i += 1;
    }
    assert(all.take(i as int) =~= all);
    letters
}

} // verus!
