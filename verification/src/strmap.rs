//! An insertion-ordered map from text to text.
//!
//! Header sets, query parameters and environment tables are small, and the
//! order in which their entries were first written is observable (it is the
//! order on the wire). `StrMap` keeps entries in that order and never holds
//! a key twice.
use vstd::prelude::*;
use crate::text::{chars_eq, chars_of};

verus! {

/// The model of a map: its entries in order.
pub type Pairs = Seq<(Seq<char>, Seq<char>)>;

/// The index of the first entry with key `k`, or `s.len()` where there is none.
pub open spec fn key_index(s: Pairs, k: Seq<char>) -> nat
    decreases s.len(),
{
    if s.len() == 0 || s[0].0 == k {
        0
    } else {
        1 + key_index(s.skip(1), k)
    }
}

pub open spec fn has_key(s: Pairs, k: Seq<char>) -> bool {
    key_index(s, k) < s.len()
}

/// The value stored under `k`.
pub open spec fn value_of(s: Pairs, k: Seq<char>) -> Option<Seq<char>> {
    if has_key(s, k) {
        Some(s[key_index(s, k) as int].1)
    } else {
        None
    }
}

/// `s` with `k` bound to `v`: in place where `k` was bound, else at the end.
pub open spec fn put(s: Pairs, k: Seq<char>, v: Seq<char>) -> Pairs {
    if has_key(s, k) {
        s.update(key_index(s, k) as int, (k, v))
    } else {
        s.push((k, v))
    }
}

/// `s` without the entry for `k`.
pub open spec fn without(s: Pairs, k: Seq<char>) -> Pairs {
    if has_key(s, k) {
        s.remove(key_index(s, k) as int)
    } else {
        s
    }
}

pub open spec fn unique_keys(s: Pairs) -> bool {
    forall|i: int, j: int| 0 <= i < j < s.len() ==> (#[trigger] s[i]).0 != (#[trigger] s[j]).0
}

pub proof fn lemma_key_index(s: Pairs, k: Seq<char>)
    ensures
        key_index(s, k) <= s.len(),
        key_index(s, k) < s.len() ==> s[key_index(s, k) as int].0 == k,
        forall|j: int| 0 <= j < key_index(s, k) ==> (#[trigger] s[j]).0 != k,
    decreases s.len(),
{
    if s.len() == 0 || s[0].0 == k {
    } else {
        lemma_key_index(s.skip(1), k);
        assert forall|j: int| 0 <= j < key_index(s, k) implies (#[trigger] s[j]).0 != k by {
            if j > 0 {
                assert(s[j] == s.skip(1)[j - 1]);
            }
        }
    }
}

pub proof fn lemma_key_index_unique(s: Pairs, k: Seq<char>, i: int)
    requires
        0 <= i <= s.len(),
        i < s.len() ==> s[i].0 == k,
        forall|j: int| 0 <= j < i ==> (#[trigger] s[j]).0 != k,
    ensures
        key_index(s, k) == i,
{
    lemma_key_index(s, k);
    let n = key_index(s, k) as int;
    if n < i {
        assert(s[n].0 != k);
    } else if i < n {
        assert(s[i].0 != k);
    }
}

/// What a lookup finds after a binding was written.
pub proof fn lemma_put(s: Pairs, k: Seq<char>, v: Seq<char>, q: Seq<char>)
    requires
        unique_keys(s),
    ensures
        unique_keys(put(s, k, v)),
        value_of(put(s, k, v), q) == if q == k {
            Some(v)
        } else {
            value_of(s, q)
        },
        has_key(put(s, k, v), q) == (q == k || has_key(s, q)),
        put(s, k, v).len() == if has_key(s, k) {
            s.len()
        } else {
            s.len() + 1
        },
{
    lemma_key_index(s, k);
    lemma_key_index(s, q);
    let t = put(s, k, v);
    let i = key_index(s, k) as int;
    if has_key(s, k) {
        if q == k {
            lemma_key_index_unique(t, q, i);
        } else {
            lemma_key_index_unique(t, q, key_index(s, q) as int);
        }
    } else {
        if q == k {
            lemma_key_index_unique(t, q, s.len() as int);
        } else {
            let n = key_index(s, q) as int;
            if n < s.len() {
                lemma_key_index_unique(t, q, n);
            } else {
                lemma_key_index_unique(t, q, t.len() as int);
            }
        }
    }
}

/// What a lookup finds after a binding was removed.
pub proof fn lemma_without(s: Pairs, k: Seq<char>, q: Seq<char>)
    requires
        unique_keys(s),
    ensures
        unique_keys(without(s, k)),
        value_of(without(s, k), q) == if q == k {
            None
        } else {
            value_of(s, q)
        },
        has_key(without(s, k), q) == (q != k && has_key(s, q)),
        without(s, k).len() == if has_key(s, k) {
            s.len() - 1
        } else {
            s.len() as int
        },
{
    lemma_key_index(s, k);
    lemma_key_index(s, q);
    let t = without(s, k);
    let i = key_index(s, k) as int;
    if has_key(s, k) {
        assert forall|a: int, b: int| 0 <= a < b < t.len() implies (#[trigger] t[a]).0 != (
        #[trigger] t[b]).0 by {
            let a0 = if a < i { a } else { a + 1 };
            let b0 = if b < i { b } else { b + 1 };
            assert(t[a] == s[a0]);
            assert(t[b] == s[b0]);
        }
        if q == k {
            assert forall|j: int| 0 <= j < t.len() implies (#[trigger] t[j]).0 != k by {
                let j0 = if j < i { j } else { j + 1 };
                assert(t[j] == s[j0]);
            }
            lemma_key_index_unique(t, q, t.len() as int);
        } else {
            let n = key_index(s, q) as int;
            let m = if n < i { n } else { n - 1 };
            assert forall|j: int| 0 <= j < m implies (#[trigger] t[j]).0 != q by {
                let j0 = if j < i { j } else { j + 1 };
                assert(t[j] == s[j0]);
            }
            if n < s.len() {
                assert(t[m] == s[n]);
            }
            lemma_key_index_unique(t, q, m);
        }
    }
}

/// An insertion-ordered map from text to text.
#[derive(Debug)]
pub struct StrMap {
    entries: Vec<(String, String)>,
}

/// The model of a vector of entries.
pub open spec fn pairs_of(entries: Seq<(String, String)>) -> Pairs {
    Seq::new(entries.len(), |i: int| (entries[i].0@, entries[i].1@))
}

impl View for StrMap {
    type V = Pairs;

    closed spec fn view(&self) -> Pairs {
        pairs_of(self.entries@)
    }
}

impl StrMap {
    #[verifier::type_invariant]
    spec fn inv(self) -> bool {
        unique_keys(self@)
    }

    /// No key is bound twice. Calling this makes that known to the caller's
    /// proof; it does nothing at run time.
    pub fn keys_are_unique(&self)
        ensures
            unique_keys(self@),
    {
        proof {
            use_type_invariant(self);
        }
    }

    /// Moves the entries out, leaving the map empty.
    fn take_entries(&mut self) -> (e: Vec<(String, String)>)
        ensures
            pairs_of(e@) == old(self)@,
            final(self)@ == Seq::<(Seq<char>, Seq<char>)>::empty(),
    {
        let mut e: Vec<(String, String)> = Vec::new();
        assert(pairs_of(e@) =~= Seq::<(Seq<char>, Seq<char>)>::empty());
        core::mem::swap(&mut self.entries, &mut e);
        e
    }

    /// Installs the given entries in an empty map.
    fn set_entries(&mut self, e: Vec<(String, String)>)
        requires
            unique_keys(pairs_of(e@)),
        ensures
            final(self)@ == pairs_of(e@),
    {
        let mut e = e;
        core::mem::swap(&mut self.entries, &mut e);
    }

    pub fn new() -> (m: StrMap)
        ensures
            m@ == Seq::<(Seq<char>, Seq<char>)>::empty(),
    {
        let m = StrMap { entries: Vec::new() };
        assert(m@ =~= Seq::<(Seq<char>, Seq<char>)>::empty());
        m
    }

    pub fn len(&self) -> (n: usize)
        ensures
            n == self@.len(),
    {
        self.entries.len()
    }

    pub fn is_empty(&self) -> (b: bool)
        ensures
            b == (self@.len() == 0),
    {
        self.entries.len() == 0
    }

    /// The position of `key` among the entries, or `len()`.
    pub fn position(&self, key: &str) -> (i: usize)
        ensures
            i == key_index(self@, key@),
            i <= self@.len(),
    {
        let k = chars_of(key);
        let mut i: usize = 0;
        while i < self.entries.len()
            invariant
                i <= self.entries.len(),
                k@ == key@,
                forall|j: int| 0 <= j < i ==> (#[trigger] self@[j]).0 != key@,
            decreases self.entries.len() - i,
        {
            let e = chars_of(self.entries[i].0.as_str());
            if chars_eq(e.as_slice(), k.as_slice()) {
                proof {
                    lemma_key_index_unique(self@, key@, i as int);
                }
                return i;
            }
            i += 1;
        }
        proof {
            lemma_key_index_unique(self@, key@, i as int);
        }
        i
    }

    pub fn contains_key(&self, key: &str) -> (b: bool)
        ensures
            b == has_key(self@, key@),
    {
        self.position(key) < self.entries.len()
    }

    pub fn get(&self, key: &str) -> (r: Option<&String>)
        ensures
            match r {
                Some(v) => value_of(self@, key@) == Some(v@),
                None => value_of(self@, key@) is None,
            },
    {
        let i = self.position(key);
        if i < self.entries.len() {
            Some(&self.entries[i].1)
        } else {
            None
        }
    }

    /// The key of the `i`-th entry.
    pub fn key_at(&self, i: usize) -> (k: &String)
        requires
            i < self@.len(),
        ensures
            k@ == self@[i as int].0,
    {
        &self.entries[i].0
    }

    /// The value of the `i`-th entry.
    pub fn value_at(&self, i: usize) -> (v: &String)
        requires
            i < self@.len(),
        ensures
            v@ == self@[i as int].1,
    {
        &self.entries[i].1
    }

    /// Binds `key` to `value`; returns what `key` was bound to before.
    pub fn insert(&mut self, key: String, value: String) -> (r: Option<String>)
        ensures
            final(self)@ == put(old(self)@, key@, value@),
            match r {
                Some(v) => value_of(old(self)@, key@) == Some(v@),
                None => value_of(old(self)@, key@) is None,
            },
    {
        proof {
            use_type_invariant(&*self);
            lemma_put(self@, key@, value@, key@);
        }
        let i = self.position(key.as_str());
        let ghost before = self@;
        let mut e = self.take_entries();
        if i < e.len() {
            let old_entry = e.remove(i);
            e.insert(i, (key, value));
            assert(pairs_of(e@) =~= put(before, key@, value@));
            self.set_entries(e);
            Some(old_entry.1)
        } else {
            e.push((key, value));
            assert(pairs_of(e@) =~= put(before, key@, value@));
            self.set_entries(e);
            None
        }
    }

    /// Puts a binding in the place of the `i`-th entry.
    pub fn replace_at(&mut self, i: usize, key: String, value: String)
        requires
            i < old(self)@.len(),
            forall|j: int| 0 <= j < old(self)@.len() && j != i ==> (#[trigger] old(self)@[j]).0 != key@,
        ensures
            final(self)@ == old(self)@.update(i as int, (key@, value@)),
    {
        proof {
            use_type_invariant(&*self);
        }
        let ghost before = self@;
        let mut e = self.take_entries();
        let _ = e.remove(i);
        e.insert(i, (key, value));
        assert(pairs_of(e@) =~= before.update(i as int, (key@, value@)));
        self.set_entries(e);
    }

    /// Adds a binding at the end, for a key that is not bound.
    pub fn push(&mut self, key: String, value: String)
        requires
            !has_key(old(self)@, key@),
        ensures
            final(self)@ == old(self)@.push((key@, value@)),
    {
        proof {
            use_type_invariant(&*self);
            lemma_key_index(self@, key@);
        }
        let ghost before = self@;
        let mut e = self.take_entries();
        e.push((key, value));
        assert(pairs_of(e@) =~= before.push((key@, value@)));
        self.set_entries(e);
    }

    /// Removes the `i`-th entry.
    pub fn remove_at(&mut self, i: usize)
        requires
            i < old(self)@.len(),
        ensures
            final(self)@ == old(self)@.remove(i as int),
    {
        proof {
            use_type_invariant(&*self);
        }
        let ghost before = self@;
        let mut e = self.take_entries();
        let _ = e.remove(i);
        assert(pairs_of(e@) =~= before.remove(i as int));
        assert forall|a: int, b: int| 0 <= a < b < pairs_of(e@).len() implies (
        #[trigger] pairs_of(e@)[a]).0 != (#[trigger] pairs_of(e@)[b]).0 by {
            let a0 = if a < i { a } else { a + 1 };
            let b0 = if b < i { b } else { b + 1 };
            assert(pairs_of(e@)[a] == before[a0]);
            assert(pairs_of(e@)[b] == before[b0]);
        }
        self.set_entries(e);
    }

    /// Removes the binding of `key`; returns what it was bound to.
    pub fn remove(&mut self, key: &str) -> (r: Option<String>)
        ensures
            final(self)@ == without(old(self)@, key@),
            match r {
                Some(v) => value_of(old(self)@, key@) == Some(v@),
                None => value_of(old(self)@, key@) is None,
            },
    {
        proof {
            use_type_invariant(&*self);
            lemma_without(self@, key@, key@);
        }
        let i = self.position(key);
        let ghost before = self@;
        if i < self.entries.len() {
            let mut e = self.take_entries();
            let old_entry = e.remove(i);
            assert(pairs_of(e@) =~= without(before, key@));
            self.set_entries(e);
            Some(old_entry.1)
        } else {
            None
        }
    }

    pub fn clear(&mut self)
        ensures
            final(self)@ == Seq::<(Seq<char>, Seq<char>)>::empty(),
    {
        let _ = self.take_entries();
    }

    /// The keys, in entry order.
    pub fn keys(&self) -> (r: Vec<&String>)
        ensures
            r@.len() == self@.len(),
            forall|i: int| 0 <= i < r@.len() ==> (#[trigger] r@[i])@ == self@[i].0,
    {
        let mut r: Vec<&String> = Vec::new();
        let mut i: usize = 0;
        while i < self.entries.len()
            invariant
                i <= self.entries.len(),
                r@.len() == i,
                forall|j: int| 0 <= j < i ==> (#[trigger] r@[j])@ == self@[j].0,
            decreases self.entries.len() - i,
        {
            r.push(&self.entries[i].0);
            i += 1;
        }
        r
    }
}

impl Clone for StrMap {
    fn clone(&self) -> (r: Self)
        ensures
            r@ == self@,
    {
        proof {
            use_type_invariant(self);
        }
        let mut entries: Vec<(String, String)> = Vec::new();
        let mut i: usize = 0;
        while i < self.entries.len()
            invariant
                i <= self.entries.len(),
                entries@.len() == i,
                forall|j: int|
                    0 <= j < i ==> (#[trigger] entries@[j]).0@ == self@[j].0 && entries@[j].1@
                        == self@[j].1,
            decreases self.entries.len() - i,
        {
            entries.push((self.entries[i].0.clone(), self.entries[i].1.clone()));
            i += 1;
        }
        let r = StrMap { entries };
        assert(r@ =~= self@);
        r
    }
}

impl Default for StrMap {
    fn default() -> (m: Self)
        ensures
            m@ == Seq::<(Seq<char>, Seq<char>)>::empty(),
    {
        StrMap::new()
    }
}

} // verus!
