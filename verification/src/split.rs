//! Splitting text into fields, words and lines.
use vstd::prelude::*;
use crate::text::{find_char, index_of, is_space, is_space_char, rows, slice_of};

verus! {

/// The pieces of `s` between occurrences of `c`. There is always at least one
/// piece; an occurrence at the start or the end gives an empty piece.
pub open spec fn split_on(s: Seq<char>, c: char) -> Seq<Seq<char>>
    decreases s.len(),
{
    let i = index_of(s, c);
    if i < s.len() {
        seq![s.take(i as int)] + split_on(s.skip(i as int + 1), c)
    } else {
        seq![s]
    }
}

/// Splitting gives at least one piece.
pub proof fn lemma_split_on_len(s: Seq<char>, c: char)
    ensures
        split_on(s, c).len() >= 1,
    decreases s.len(),
{
    let i = index_of(s, c);
    if i < s.len() {
        lemma_split_on_len(s.skip(i as int + 1), c);
    }
}

pub fn split_chars(v: &[char], c: char) -> (r: Vec<Vec<char>>)
    ensures
        rows(r@) == split_on(v@, c),
        r@.len() >= 1,
{
    proof {
        lemma_split_on_len(v@, c);
    }
    let mut r: Vec<Vec<char>> = Vec::new();
    assert(rows(r@) =~= Seq::<Seq<char>>::empty());
    assert(v@.skip(0) =~= v@);
    assert(rows(r@) + split_on(v@, c) =~= split_on(v@, c));
    let mut start: usize = 0;
    loop
        invariant
            start <= v.len(),
            split_on(v@, c) == rows(r@) + split_on(v@.skip(start as int), c),
        decreases v.len() - start,
    {
        let ghost rest = v@.skip(start as int);
        let i = find_char(v, start, c);
        let piece = slice_of(v, start, i);
        assert(piece@ =~= rest.take(i - start));
        let ghost before = rows(r@);
        r.push(piece);
        assert(rows(r@) =~= before + seq![piece@]);
        if i >= v.len() {
            assert(rest.take(i - start) =~= rest);
            return r;
        }
        assert(rest.skip(i - start + 1) =~= v@.skip(i + 1));
        start = i + 1;
    }
}

/// The length of the leading run of non-whitespace characters of `s`.
pub open spec fn word_len(s: Seq<char>) -> nat
    decreases s.len(),
{
    if s.len() == 0 || is_space(s[0]) {
        0
    } else {
        1 + word_len(s.skip(1))
    }
}

pub proof fn lemma_word_len(s: Seq<char>)
    ensures
        word_len(s) <= s.len(),
        word_len(s) < s.len() ==> is_space(s[word_len(s) as int]),
        forall|j: int| 0 <= j < word_len(s) ==> !is_space(#[trigger] s[j]),
    decreases s.len(),
{
    if s.len() == 0 || is_space(s[0]) {
    } else {
        lemma_word_len(s.skip(1));
        assert forall|j: int| 0 <= j < word_len(s) implies !is_space(#[trigger] s[j]) by {
            if j > 0 {
                assert(s[j] == s.skip(1)[j - 1]);
            }
        }
    }
}

pub proof fn lemma_word_len_unique(s: Seq<char>, n: int)
    requires
        0 <= n <= s.len(),
        n < s.len() ==> is_space(s[n]),
        forall|j: int| 0 <= j < n ==> !is_space(#[trigger] s[j]),
    ensures
        word_len(s) == n,
{
    lemma_word_len(s);
    let k = word_len(s) as int;
    if k < n {
        assert(!is_space(s[k]));
    } else if n < k {
        assert(!is_space(s[n]));
    }
}

/// The maximal runs of non-whitespace characters of `s`, in order.
pub open spec fn words(s: Seq<char>) -> Seq<Seq<char>>
    decreases s.len(),
{
    if s.len() == 0 {
        seq![]
    } else if is_space(s[0]) {
        words(s.skip(1))
    } else {
        let n = word_len(s);
        if 0 < n <= s.len() {
            seq![s.take(n as int)] + words(s.skip(n as int))
        } else {
            seq![]
        }
    }
}

pub fn split_words(v: &[char]) -> (r: Vec<Vec<char>>)
    ensures
        rows(r@) == words(v@),
{
    let mut r: Vec<Vec<char>> = Vec::new();
    assert(rows(r@) =~= Seq::<Seq<char>>::empty());
    assert(v@.skip(0) =~= v@);
    assert(rows(r@) + words(v@) =~= words(v@));
    let mut i: usize = 0;
    while i < v.len()
        invariant
            i <= v.len(),
            words(v@) == rows(r@) + words(v@.skip(i as int)),
        decreases v.len() - i,
    {
        let ghost rest = v@.skip(i as int);
        if is_space_char(v[i]) {
            assert(rest.skip(1) =~= v@.skip(i + 1));
            i += 1;
        } else {
            let mut j: usize = i + 1;
            while j < v.len() && !is_space_char(v[j])
                invariant
                    i < j <= v.len(),
                    forall|k: int| i <= k < j ==> !is_space(#[trigger] v@[k]),
                decreases v.len() - j,
            {
                j += 1;
            }
            proof {
                lemma_word_len_unique(rest, j - i);
            }
            let piece = slice_of(v, i, j);
            assert(piece@ =~= rest.take(j - i));
            let ghost before = rows(r@);
            r.push(piece);
            assert(rows(r@) =~= before + seq![piece@]);
            assert(rest.skip(j - i) =~= v@.skip(j as int));
            i = j;
        }
    }
    assert(words(v@.skip(v.len() as int)) =~= Seq::<Seq<char>>::empty());
    assert(rows(r@) + Seq::<Seq<char>>::empty() =~= rows(r@));
    r
}

/// `l` without one trailing carriage return.
pub open spec fn strip_cr(l: Seq<char>) -> Seq<char> {
    if l.len() > 0 && l.last() == '\r' {
        l.drop_last()
    } else {
        l
    }
}

/// The lines of `s`. A line ends at a line feed; a carriage return just
/// before that line feed belongs to the line ending. The last line needs no
/// line ending, and a final line ending starts no further line.
pub open spec fn lines(s: Seq<char>) -> Seq<Seq<char>>
    decreases s.len(),
{
    if s.len() == 0 {
        seq![]
    } else {
        let i = index_of(s, '\n');
        if i < s.len() {
            seq![strip_cr(s.take(i as int))] + lines(s.skip(i as int + 1))
        } else {
            seq![s]
        }
    }
}

pub fn split_lines(v: &[char]) -> (r: Vec<Vec<char>>)
    ensures
        rows(r@) == lines(v@),
{
    let mut r: Vec<Vec<char>> = Vec::new();
    assert(rows(r@) =~= Seq::<Seq<char>>::empty());
    assert(v@.skip(0) =~= v@);
    assert(rows(r@) + lines(v@) =~= lines(v@));
    let mut start: usize = 0;
    while start < v.len()
        invariant
            start <= v.len(),
            lines(v@) == rows(r@) + lines(v@.skip(start as int)),
        decreases v.len() - start,
    {
        let ghost rest = v@.skip(start as int);
        let i = find_char(v, start, '\n');
        let ghost before = rows(r@);
        if i >= v.len() {
            let piece = slice_of(v, start, i);
            assert(piece@ =~= rest);
            r.push(piece);
            assert(rows(r@) =~= before + seq![piece@]);
            return r;
        }
        let end: usize = if i > start && v[i - 1] == '\r' {
            i - 1
        } else {
            i
        };
        let piece = slice_of(v, start, end);
        assert(piece@ =~= strip_cr(rest.take(i - start))) by {
            assert(rest.take(i - start) =~= v@.subrange(start as int, i as int));
        }
        r.push(piece);
        assert(rows(r@) =~= before + seq![piece@]);
        assert(rest.skip(i - start + 1) =~= v@.skip(i + 1));
        start = i + 1;
    }
    assert(lines(v@.skip(v.len() as int)) =~= Seq::<Seq<char>>::empty());
    assert(rows(r@) + Seq::<Seq<char>>::empty() =~= rows(r@));
    r
}

} // verus!
