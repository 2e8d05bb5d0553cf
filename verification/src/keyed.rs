//! Sequences of records that are found by a key.
//!
//! The registries of this crate are short vectors searched from the front.
//! This module states what searching, replacing and removing by key mean on
//! the sequence of records, and what a later search finds.
use vstd::prelude::*;

verus! {

/// A record with a key.
pub trait Keyed {
    type Key;

    spec fn key(&self) -> Self::Key;
}

/// The index of the first record with key `k`, or `s.len()` where there is none.
pub open spec fn find_key<T: Keyed>(s: Seq<T>, k: T::Key) -> nat
    decreases s.len(),
{
    if s.len() == 0 || s[0].key() == k {
        0
    } else {
        1 + find_key(s.skip(1), k)
    }
}

pub open spec fn holds_key<T: Keyed>(s: Seq<T>, k: T::Key) -> bool {
    find_key(s, k) < s.len()
}

/// The record with key `k`.
pub open spec fn record_of<T: Keyed>(s: Seq<T>, k: T::Key) -> Option<T> {
    if holds_key(s, k) {
        Some(s[find_key(s, k) as int])
    } else {
        None
    }
}

/// No two records share a key.
pub open spec fn distinct_keys<T: Keyed>(s: Seq<T>) -> bool {
    forall|i: int, j: int|
        0 <= i < j < s.len() ==> (#[trigger] s[i]).key() != (#[trigger] s[j]).key()
}

/// `s` with `x` in the place of the record that has its key, or at the end
/// where no record has it.
pub open spec fn upsert<T: Keyed>(s: Seq<T>, x: T) -> Seq<T> {
    if holds_key(s, x.key()) {
        s.update(find_key(s, x.key()) as int, x)
    } else {
        s.push(x)
    }
}

/// `s` without the record that has key `k`.
pub open spec fn delete<T: Keyed>(s: Seq<T>, k: T::Key) -> Seq<T> {
    if holds_key(s, k) {
        s.remove(find_key(s, k) as int)
    } else {
        s
    }
}

pub proof fn lemma_find_key<T: Keyed>(s: Seq<T>, k: T::Key)
    ensures
        find_key(s, k) <= s.len(),
        find_key(s, k) < s.len() ==> s[find_key(s, k) as int].key() == k,
        forall|j: int| 0 <= j < find_key(s, k) ==> (#[trigger] s[j]).key() != k,
    decreases s.len(),
{
    if s.len() == 0 || s[0].key() == k {
    } else {
        lemma_find_key(s.skip(1), k);
        assert forall|j: int| 0 <= j < find_key(s, k) implies (#[trigger] s[j]).key() != k by {
            if j > 0 {
                assert(s[j] == s.skip(1)[j - 1]);
            }
        }
    }
}

pub proof fn lemma_find_key_unique<T: Keyed>(s: Seq<T>, k: T::Key, i: int)
    requires
        0 <= i <= s.len(),
        i < s.len() ==> s[i].key() == k,
        forall|j: int| 0 <= j < i ==> (#[trigger] s[j]).key() != k,
    ensures
        find_key(s, k) == i,
{
    lemma_find_key(s, k);
    let n = find_key(s, k) as int;
    if n < i {
        assert(s[n].key() != k);
    } else if i < n {
        assert(s[i].key() != k);
    }
}

/// In a sequence with distinct keys, a record is found under its own key.
pub proof fn lemma_found_at<T: Keyed>(s: Seq<T>, i: int)
    requires
        distinct_keys(s),
        0 <= i < s.len(),
    ensures
        find_key(s, s[i].key()) == i,
        record_of(s, s[i].key()) == Some(s[i]),
{
    lemma_find_key(s, s[i].key());
    let n = find_key(s, s[i].key()) as int;
    if n < i {
        assert(s[n].key() != s[i].key());
    }
}

/// What a search finds after a record was written.
pub proof fn lemma_upsert<T: Keyed>(s: Seq<T>, x: T, q: T::Key)
    requires
        distinct_keys(s),
    ensures
        distinct_keys(upsert(s, x)),
        record_of(upsert(s, x), q) == if q == x.key() {
            Some(x)
        } else {
            record_of(s, q)
        },
        holds_key(upsert(s, x), q) == (q == x.key() || holds_key(s, q)),
        upsert(s, x).len() == if holds_key(s, x.key()) {
            s.len()
        } else {
            s.len() + 1
        },
{
    let k = x.key();
    lemma_find_key(s, k);
    lemma_find_key(s, q);
    let t = upsert(s, x);
    let i = find_key(s, k) as int;
    if holds_key(s, k) {
        if q == k {
            lemma_find_key_unique(t, q, i);
        } else {
            lemma_find_key_unique(t, q, find_key(s, q) as int);
        }
    } else {
        if q == k {
            lemma_find_key_unique(t, q, s.len() as int);
        } else {
            let n = find_key(s, q) as int;
            if n < s.len() {
                lemma_find_key_unique(t, q, n);
            } else {
                lemma_find_key_unique(t, q, t.len() as int);
            }
        }
    }
}

/// What a search finds after a record was removed.
pub proof fn lemma_delete<T: Keyed>(s: Seq<T>, k: T::Key, q: T::Key)
    requires
        distinct_keys(s),
    ensures
        distinct_keys(delete(s, k)),
        record_of(delete(s, k), q) == if q == k {
            None
        } else {
            record_of(s, q)
        },
        holds_key(delete(s, k), q) == (q != k && holds_key(s, q)),
        delete(s, k).len() == if holds_key(s, k) {
            s.len() - 1
        } else {
            s.len() as int
        },
{
    lemma_find_key(s, k);
    lemma_find_key(s, q);
    let t = delete(s, k);
    let i = find_key(s, k) as int;
    if holds_key(s, k) {
        assert forall|a: int, b: int| 0 <= a < b < t.len() implies (#[trigger] t[a]).key() != (
        #[trigger] t[b]).key() by {
            let a0 = if a < i { a } else { a + 1 };
            let b0 = if b < i { b } else { b + 1 };
            assert(t[a] == s[a0]);
            assert(t[b] == s[b0]);
        }
        if q == k {
            assert forall|j: int| 0 <= j < t.len() implies (#[trigger] t[j]).key() != k by {
                let j0 = if j < i { j } else { j + 1 };
                assert(t[j] == s[j0]);
            }
            lemma_find_key_unique(t, q, t.len() as int);
        } else {
            let n = find_key(s, q) as int;
            let m = if n < i { n } else { n - 1 };
            assert forall|j: int| 0 <= j < m implies (#[trigger] t[j]).key() != q by {
                let j0 = if j < i { j } else { j + 1 };
                assert(t[j] == s[j0]);
            }
            if n < s.len() {
                assert(t[m] == s[n]);
            }
            lemma_find_key_unique(t, q, m);
        }
    }
}

/// The records of `s` that satisfy `p`, in their order.
pub open spec fn keep<T>(s: Seq<T>, p: spec_fn(T) -> bool) -> Seq<T>
    decreases s.len(),
{
    if s.len() == 0 {
        Seq::<T>::empty()
    } else {
        let r = keep(s.drop_last(), p);
        if p(s.last()) {
            r.push(s.last())
        } else {
            r
        }
    }
}

/// Keeping by `p` keeps exactly the records that satisfy `p`.
pub proof fn lemma_keep<T>(s: Seq<T>, p: spec_fn(T) -> bool)
    ensures
        keep(s, p).len() <= s.len(),
        forall|j: int| 0 <= j < keep(s, p).len() ==> p(#[trigger] keep(s, p)[j]),
        forall|j: int| 0 <= j < keep(s, p).len() ==> s.contains(#[trigger] keep(s, p)[j]),
        forall|i: int| 0 <= i < s.len() && p(s[i]) ==> keep(s, p).contains(#[trigger] s[i]),
    decreases s.len(),
{
    if s.len() > 0 {
        let init = s.drop_last();
        lemma_keep(init, p);
        let r = keep(init, p);
        let t = keep(s, p);
        assert forall|j: int| 0 <= j < t.len() implies s.contains(#[trigger] t[j]) by {
            if j < r.len() {
                assert(t[j] == r[j]);
                assert(init.contains(r[j]));
                let i = choose|i: int| 0 <= i < init.len() && init[i] == r[j];
                assert(s[i] == r[j]);
            } else {
                assert(s[s.len() - 1] == t[j]);
            }
        }
        assert forall|i: int| 0 <= i < s.len() && p(s[i]) implies t.contains(#[trigger] s[i]) by {
            if i < init.len() {
                assert(init[i] == s[i]);
                assert(r.contains(init[i]));
                let j = choose|j: int| 0 <= j < r.len() && r[j] == init[i];
                assert(t[j] == s[i]);
            } else {
                assert(t[t.len() - 1] == s[i]);
            }
        }
    }
}

/// Keeping some records of a sequence with distinct keys leaves the keys distinct.
pub proof fn lemma_keep_distinct<T: Keyed>(s: Seq<T>, p: spec_fn(T) -> bool)
    requires
        distinct_keys(s),
    ensures
        distinct_keys(keep(s, p)),
    decreases s.len(),
{
    if s.len() > 0 {
        let init = s.drop_last();
        assert forall|i: int, j: int| 0 <= i < j < init.len() implies (#[trigger] init[i]).key() != (
        #[trigger] init[j]).key() by {
            assert(init[i] == s[i] && init[j] == s[j]);
        }
        lemma_keep_distinct(init, p);
        lemma_keep(init, p);
        let r = keep(init, p);
        let t = keep(s, p);
        if p(s.last()) {
            assert forall|a: int, b: int| 0 <= a < b < t.len() implies (#[trigger] t[a]).key() != (
            #[trigger] t[b]).key() by {
                if b < r.len() {
                    assert(t[a] == r[a] && t[b] == r[b]);
                } else {
                    assert(t[a] == r[a]);
                    assert(init.contains(r[a]));
                    let i = choose|i: int| 0 <= i < init.len() && init[i] == r[a];
                    assert(s[i] == r[a]);
                    assert(s[i].key() != s[s.len() - 1].key());
                }
            }
        }
    }
}

/// A record that is found under a key has that key.
pub proof fn lemma_record_key<T: Keyed>(s: Seq<T>, k: T::Key)
    ensures
        record_of(s, k) matches Some(x) ==> x.key() == k && holds_key(s, k),
        record_of(s, k) is None ==> !holds_key(s, k),
{
    lemma_find_key(s, k);
}

/// Writing a record twice under one key leaves what the second writing
/// alone would have left.
pub proof fn lemma_upsert_upsert<T: Keyed>(s: Seq<T>, x: T, y: T)
    requires
        distinct_keys(s),
        x.key() == y.key(),
    ensures
        upsert(upsert(s, x), y) == upsert(s, y),
{
    let k = x.key();
    lemma_find_key(s, k);
    let i = find_key(s, k) as int;
    let t = upsert(s, x);
    lemma_find_key_unique(t, k, i);
    assert(upsert(t, y) =~= upsert(s, y));
}

/// Removing a record that was just written leaves what removing it before
/// would have left.
pub proof fn lemma_delete_upsert<T: Keyed>(s: Seq<T>, x: T)
    requires
        distinct_keys(s),
    ensures
        delete(upsert(s, x), x.key()) == delete(s, x.key()),
{
    let k = x.key();
    lemma_find_key(s, k);
    let i = find_key(s, k) as int;
    let t = upsert(s, x);
    lemma_find_key_unique(t, k, i);
    assert(t.remove(i) =~= delete(s, k));
}

} // verus!
