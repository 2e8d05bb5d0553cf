//! Byte strings: searching, and decoding to text.
use vstd::prelude::*;
use vstd::utf8::{decode_utf8, valid_utf8};

verus! {

/// Whether `p` occurs in `b` at index `i`.
pub open spec fn occurs_at(b: Seq<u8>, p: Seq<u8>, i: int) -> bool {
    0 <= i && i + p.len() <= b.len() && b.subrange(i, i + p.len()) == p
}

/// The index of the first occurrence of `p` in `b`; where there is none, an
/// index too close to the end of `b` for `p` to fit.
pub open spec fn run_index(b: Seq<u8>, p: Seq<u8>) -> nat
    decreases b.len(),
{
    if b.len() == 0 || p.is_prefix_of(b) {
        0
    } else {
        1 + run_index(b.skip(1), p)
    }
}

/// Whether `p` occurs in `b`.
pub open spec fn has_bytes(b: Seq<u8>, p: Seq<u8>) -> bool {
    run_index(b, p) + p.len() <= b.len()
}

pub proof fn lemma_run_index(b: Seq<u8>, p: Seq<u8>)
    ensures
        run_index(b, p) <= b.len(),
        has_bytes(b, p) ==> occurs_at(b, p, run_index(b, p) as int),
        forall|j: int| 0 <= j < run_index(b, p) ==> !occurs_at(b, p, j),
    decreases b.len(),
{
    if b.len() == 0 {
        if p.len() == 0 {
            assert(b.subrange(0, 0) =~= p);
        }
    } else if p.is_prefix_of(b) {
        assert(b.subrange(0, p.len() as int) =~= p);
    } else {
        let t = b.skip(1);
        lemma_run_index(t, p);
        let r = run_index(t, p) as int;
        if has_bytes(b, p) {
            assert(t.subrange(r, r + p.len()) =~= b.subrange(r + 1, r + 1 + p.len()));
        }
        assert forall|j: int| 0 <= j < run_index(b, p) implies !occurs_at(b, p, j) by {
            if j == 0 {
                if occurs_at(b, p, 0) {
                    assert(b.subrange(0, p.len() as int) =~= b.take(p.len() as int));
                    assert(p.is_prefix_of(b));
                }
            } else {
                assert(!occurs_at(t, p, j - 1));
                if j + p.len() <= b.len() {
                    assert(t.subrange(j - 1, j - 1 + p.len()) =~= b.subrange(j, j + p.len()));
                }
            }
        }
    }
}

/// An occurrence with none before it is the first occurrence.
pub proof fn lemma_run_index_unique(b: Seq<u8>, p: Seq<u8>, i: int)
    requires
        occurs_at(b, p, i),
        forall|j: int| 0 <= j < i ==> !occurs_at(b, p, j),
    ensures
        run_index(b, p) == i,
        has_bytes(b, p),
{
    lemma_run_index(b, p);
    let r = run_index(b, p) as int;
    if i < r {
        assert(!occurs_at(b, p, i));
    } else if r < i {
        assert(r + p.len() <= b.len());
        assert(occurs_at(b, p, r));
    }
}

/// Without any occurrence, `p` is not in `b`.
pub proof fn lemma_run_index_absent(b: Seq<u8>, p: Seq<u8>)
    requires
        forall|j: int| 0 <= j ==> !occurs_at(b, p, j),
    ensures
        !has_bytes(b, p),
{
    lemma_run_index(b, p);
}

/// The first occurrence of `p` in `a` is also its first occurrence in `a`
/// followed by anything.
pub proof fn lemma_run_index_extend(a: Seq<u8>, b: Seq<u8>, p: Seq<u8>)
    requires
        has_bytes(a, p),
    ensures
        has_bytes(a + b, p),
        run_index(a + b, p) == run_index(a, p),
{
    lemma_run_index(a, p);
    let i = run_index(a, p) as int;
    let ab = a + b;
    assert(ab.subrange(i, i + p.len()) =~= a.subrange(i, i + p.len()));
    assert forall|j: int| 0 <= j < i implies !occurs_at(ab, p, j) by {
        assert(!occurs_at(a, p, j));
        assert(j + p.len() <= a.len());
        assert(ab.subrange(j, j + p.len()) =~= a.subrange(j, j + p.len()));
    }
    lemma_run_index_unique(ab, p, i);
}

/// Find a byte sequence in a buffer.
pub fn find_sequence(buffer: &[u8], pattern: &[u8]) -> (r: Option<usize>)
    ensures
        match r {
            Some(i) => has_bytes(buffer@, pattern@) && i == run_index(buffer@, pattern@),
            None => !has_bytes(buffer@, pattern@),
        },
{
    if pattern.len() > buffer.len() {
        proof {
            lemma_run_index_absent(buffer@, pattern@);
        }
        return None;
    }
    let last: usize = buffer.len() - pattern.len();
    let mut i: usize = 0;
    loop
        invariant
            i <= last,
            last == buffer.len() - pattern.len(),
            forall|j: int| 0 <= j < i ==> !occurs_at(buffer@, pattern@, j),
        decreases last - i,
    {
        let mut k: usize = 0;
        while k < pattern.len() && buffer[i + k] == pattern[k]
            invariant
                k <= pattern.len(),
                i <= last,
                last == buffer.len() - pattern.len(),
                buffer@.subrange(i as int, i + k) =~= pattern@.take(k as int),
            decreases pattern.len() - k,
        {
            assert(buffer@.subrange(i as int, i + k + 1) =~= buffer@.subrange(i as int, i + k).push(
                buffer@[i + k],
            ));
            assert(pattern@.take(k + 1) =~= pattern@.take(k as int).push(pattern@[k as int]));
            k += 1;
        }
        if k == pattern.len() {
            proof {
                assert(pattern@.take(k as int) =~= pattern@);
                lemma_run_index_unique(buffer@, pattern@, i as int);
            }
            return Some(i);
        }
        assert(!occurs_at(buffer@, pattern@, i as int)) by {
            if occurs_at(buffer@, pattern@, i as int) {
                assert(buffer@.subrange(i as int, i + pattern.len())[k as int] == pattern@[k as int]);
            }
        }
        if i == last {
            proof {
                lemma_run_index_absent(buffer@, pattern@);
            }
            return None;
        }
        i += 1;
    }
}

/// The text that UTF-8 bytes encode; `None` for bytes that are not UTF-8.
///
/// Trusted: states that `std::str::from_utf8` succeeds exactly on
/// well-formed UTF-8 and then gives the characters that the bytes encode.
#[verifier::external_body]
pub(crate) fn utf8_text(bytes: &[u8]) -> (r: Option<String>)
    ensures
        r is Some <==> valid_utf8(bytes@),
        r is Some ==> r->0@ == decode_utf8(bytes@),
{
    match std::str::from_utf8(bytes) {
        Ok(s) => Some(s.to_string()),
        Err(_) => None,
    }
}

/// What lossy decoding makes of a byte string: each ill-formed part is
/// replaced by U+FFFD.
pub uninterp spec fn lossy_text(bytes: Seq<u8>) -> Seq<char>;

/// The text of the bytes, with U+FFFD in the place of what is not UTF-8.
///
/// Trusted: names the result of `String::from_utf8_lossy`, and states that
/// on well-formed UTF-8 it is the text that the bytes encode.
#[verifier::external_body]
pub(crate) fn utf8_text_lossy(bytes: &[u8]) -> (r: String)
    ensures
        r@ == lossy_text(bytes@),
        valid_utf8(bytes@) ==> r@ == decode_utf8(bytes@),
{
    String::from_utf8_lossy(bytes).into_owned()
}

/// A copy of `b[from..to]`.
pub fn bytes_of(b: &[u8], from: usize, to: usize) -> (r: Vec<u8>)
    requires
        from <= to <= b.len(),
    ensures
        r@ == b@.subrange(from as int, to as int),
{
    let mut r: Vec<u8> = Vec::new();
    let mut i: usize = from;
    while i < to
        invariant
            from <= i <= to <= b.len(),
            r@ =~= b@.subrange(from as int, i as int),
        decreases to - i,
    {
        r.push(b[i]);
        i += 1;
    }
    r
}

} // verus!
