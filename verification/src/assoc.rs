//! Association lists: small ordered maps that iterate in insertion order.
//!
//! The mathematical model of an association list is the sequence of its
//! entries. Lookups take the first entry under a key, insertion replaces that
//! entry in place or appends a new one, and removal takes out every entry under
//! the key, so a key is gone after its removal whatever the list held before.

use vstd::prelude::*;

verus! {

/// Values that serve as keys.
pub trait Key: Copy {
    /// Whether the two keys are the same value.
    fn same(&self, other: &Self) -> (r: bool)
        ensures
            r == (*self == *other),
    ;
}

/// Whether two byte arrays hold the same bytes.
pub fn same_bytes<const N: usize>(a: &[u8; N], b: &[u8; N]) -> (r: bool)
    ensures
        r == (*a == *b),
{
    let mut i: usize = 0;
    while i < N
        invariant
            i <= N,
            forall|j: int| 0 <= j < i ==> a@[j] == b@[j],
        decreases N - i,
    {
        if a[i] != b[i] {
            assert(a@[i as int] != b@[i as int]);
            return false;
        }
        i = i + 1;
    }
    assert(*a =~= *b);
    true
}

impl Key for [u8; 16] {
    fn same(&self, other: &Self) -> (r: bool) {
        same_bytes(self, other)
    }
}

impl Key for [u8; 32] {
    fn same(&self, other: &Self) -> (r: bool) {
        same_bytes(self, other)
    }
}

/// A Resource hash on one Link.
#[derive(Clone, Copy, Debug)]
pub struct ResourceKey {
    pub link_id: [u8; 16],
    pub hash: [u8; 32],
}

impl Key for ResourceKey {
    fn same(&self, other: &Self) -> (r: bool) {
        same_bytes(&self.link_id, &other.link_id) && same_bytes(&self.hash, &other.hash)
    }
}

impl Key for u64 {
    fn same(&self, other: &Self) -> (r: bool) {
        *self == *other
    }
}

/// Index of the first entry under `k`, or the length of `s` when there is none.
pub open spec fn position<K, V>(s: Seq<(K, V)>, k: K) -> int
    decreases s.len(),
{
    if s.len() == 0 {
        0
    } else {
        let p = position(s.drop_last(), k);
        if p < s.len() - 1 {
            p
        } else if s.last().0 == k {
            s.len() - 1
        } else {
            s.len() as int
        }
    }
}

/// The value of the first entry under `k`.
#[verifier::opaque]
pub open spec fn find<K, V>(s: Seq<(K, V)>, k: K) -> Option<V> {
    let p = position(s, k);
    if p < s.len() {
        Some(s[p].1)
    } else {
        None
    }
}

/// `s` with `v` under `k`: in the place of the first entry under `k`, or at the end.
#[verifier::opaque]
pub open spec fn put<K, V>(s: Seq<(K, V)>, k: K, v: V) -> Seq<(K, V)> {
    let p = position(s, k);
    if p < s.len() {
        s.update(p, (k, v))
    } else {
        s.push((k, v))
    }
}

/// `s` without the entries under `k`.
#[verifier::opaque]
pub open spec fn cut<K, V>(s: Seq<(K, V)>, k: K) -> Seq<(K, V)> {
    s.filter(|e: (K, V)| e.0 != k)
}

/// A choice among the entries of an association list.
pub trait Select<K, V>: Sized {
    spec fn selects(self, e: (K, V)) -> bool;

    fn keep(&self, k: &K, v: &V) -> (r: bool)
        ensures
            r == self.selects((*k, *v)),
    ;
}

/// The entries of `s` that `selection` selects, in order.
#[verifier::opaque]
pub open spec fn select<K, V, S: Select<K, V>>(s: Seq<(K, V)>, selection: S) -> Seq<(K, V)> {
    s.filter(|e: (K, V)| selection.selects(e))
}

/// Whether `s` has an entry under `k`.
pub open spec fn present<K, V>(s: Seq<(K, V)>, k: K) -> bool {
    find(s, k) is Some
}

/// Whether no key occurs twice.
#[verifier::opaque]
pub open spec fn unique<K, V>(s: Seq<(K, V)>) -> bool {
    forall|i: int, j: int| 0 <= i < j < s.len() ==> (#[trigger] s[i]).0 != (#[trigger] s[j]).0
}

/// What [`position`] is: the first index that holds the key, if any holds it.
pub proof fn lemma_position<K, V>(s: Seq<(K, V)>, k: K)
    ensures
        0 <= position(s, k) <= s.len(),
        position(s, k) < s.len() ==> s[position(s, k)].0 == k,
        forall|j: int| 0 <= j < position(s, k) ==> (#[trigger] s[j]).0 != k,
    decreases s.len(),
{
    if s.len() > 0 {
        let t = s.drop_last();
        lemma_position(t, k);
        assert forall|j: int| 0 <= j < position(s, k) implies (#[trigger] s[j]).0 != k by {
            if j < t.len() {
                assert(t[j] == s[j]);
            }
        }
        if position(t, k) < t.len() {
            assert(t[position(t, k)] == s[position(t, k)]);
        }
    }
}

/// Reading after an insertion.
pub proof fn lemma_find_put<K, V>(s: Seq<(K, V)>, k: K, v: V, other: K)
    ensures
        find(put(s, k, v), other) == (if other == k {
            Some(v)
        } else {
            find(s, other)
        }),
{
    reveal(find);
    reveal(put);
    let t = put(s, k, v);
    lemma_position(s, k);
    lemma_position(s, other);
    lemma_position(t, k);
    lemma_position(t, other);
    let p = position(s, k);
    assert(t[p] == (k, v));
    assert forall|j: int| 0 <= j < s.len() && j != p implies t[j] == s[j] by {}
    if other == k {
        if position(t, k) < p {
            assert(t[position(t, k)] == s[position(t, k)]);
        }
    } else {
        let q = position(s, other);
        let r = position(t, other);
        if q < s.len() {
            assert(t[q] == s[q]);
            if r < q {
                assert(t[r].0 == other);
                assert(r != p);
                assert(s[r].0 == other);
            }
        } else if r < t.len() {
            assert(t[r].0 == other);
            assert(r != p);
            assert(s[r].0 == other);
        }
    }
}

/// The first entry under a key when one entry is appended.
proof fn lemma_find_push<K, V>(s: Seq<(K, V)>, e: (K, V), k: K)
    ensures
        find(s.push(e), k) == (if find(s, k) is Some {
            find(s, k)
        } else if e.0 == k {
            Some(e.1)
        } else {
            None
        }),
{
    reveal(find);
    let t = s.push(e);
    assert(t.drop_last() =~= s);
    lemma_position(s, k);
}

/// Reading after a removal.
pub proof fn lemma_find_cut<K, V>(s: Seq<(K, V)>, k: K, other: K)
    ensures
        find(cut(s, k), other) == (if other == k {
            None
        } else {
            find(s, other)
        }),
    decreases s.len(),
{
    reveal(cut);
    reveal_with_fuel(Seq::filter, 2);
    if s.len() == 0 {
        reveal(find);
    } else {
        lemma_find_cut(s.drop_last(), k, other);
        lemma_find_push(s.drop_last(), s.last(), other);
        lemma_find_push(cut(s.drop_last(), k), s.last(), other);
        assert(s =~= s.drop_last().push(s.last()));
    }
}

/// A selection keeps only entries that satisfy it, and each comes from the list.
pub proof fn lemma_filter_member<K, V>(s: Seq<(K, V)>, p: spec_fn((K, V)) -> bool, i: int)
    requires
        0 <= i < s.filter(p).len(),
    ensures
        p(s.filter(p)[i]),
        exists|j: int| 0 <= j < s.len() && s[j] == s.filter(p)[i],
    decreases s.len(),
{
    reveal_with_fuel(Seq::filter, 2);
    if s.len() > 0 {
        let t = s.drop_last();
        let sub = t.filter(p);
        if i < sub.len() {
            lemma_filter_member(t, p, i);
            let j = choose|j: int| 0 <= j < t.len() && t[j] == sub[i];
            assert(s[j] == s.filter(p)[i]);
        } else {
            assert(s[s.len() - 1] == s.filter(p)[i]);
        }
    }
}

/// A selection that keeps what is found under a key changes nothing about the key.
pub proof fn lemma_filter_find<K, V>(s: Seq<(K, V)>, p: spec_fn((K, V)) -> bool, k: K)
    requires
        find(s, k) is Some ==> p((k, find(s, k)->0)),
    ensures
        find(s.filter(p), k) == find(s, k),
    decreases s.len(),
{
    reveal_with_fuel(Seq::filter, 2);
    if s.len() == 0 {
        reveal(find);
    } else {
        let t = s.drop_last();
        lemma_find_push(t, s.last(), k);
        lemma_find_push(t.filter(p), s.last(), k);
        assert(s =~= t.push(s.last()));
        lemma_filter_find(t, p, k);
    }
}

/// Selection keeps keys unique.
pub proof fn lemma_filter_unique<K, V>(s: Seq<(K, V)>, p: spec_fn((K, V)) -> bool)
    requires
        unique(s),
    ensures
        unique(s.filter(p)),
    decreases s.len(),
{
    reveal(unique);
    reveal_with_fuel(Seq::filter, 2);
    if s.len() > 0 {
        let t = s.drop_last();
        assert(unique(t)) by {
            assert forall|i: int, j: int| 0 <= i < j < t.len() implies (#[trigger] t[i]).0 != (
            #[trigger] t[j]).0 by {
                assert(t[i] == s[i] && t[j] == s[j]);
            }
        }
        lemma_filter_unique(t, p);
        let u = s.filter(p);
        assert forall|i: int, j: int| 0 <= i < j < u.len() implies (#[trigger] u[i]).0 != (
        #[trigger] u[j]).0 by {
            let sub = t.filter(p);
            if j < sub.len() {
                assert(u[i] == sub[i] && u[j] == sub[j]);
            } else {
                lemma_filter_member(t, p, i);
                let m = choose|m: int| 0 <= m < t.len() && t[m] == sub[i];
                assert(s[m] == u[i]);
                assert(s[s.len() - 1] == u[j]);
            }
        }
    }
}

/// Insertion keeps keys unique.
pub proof fn lemma_put_unique<K, V>(s: Seq<(K, V)>, k: K, v: V)
    requires
        unique(s),
    ensures
        unique(put(s, k, v)),
{
    reveal(unique);
    reveal(put);
    lemma_position(s, k);
    let t = put(s, k, v);
    let p = position(s, k);
    assert forall|i: int, j: int| 0 <= i < j < t.len() implies (#[trigger] t[i]).0 != (
    #[trigger] t[j]).0 by {
        if i != p && j != p {
            assert(t[i] == s[i] && t[j] == s[j]);
        } else if i != p {
            assert(t[i] == s[i]);
            if p < s.len() {
                assert(s[p].0 == k);
            }
        } else {
            assert(t[j] == s[j]);
            assert(s[p].0 == k);
        }
    }
}

/// Removal keeps keys unique.
pub proof fn lemma_cut_unique<K, V>(s: Seq<(K, V)>, k: K)
    requires
        unique(s),
    ensures
        unique(cut(s, k)),
{
    reveal(cut);
    lemma_filter_unique(s, |e: (K, V)| e.0 != k);
}

/// Removing a key that is not there changes nothing.
pub proof fn lemma_cut_absent<K, V>(s: Seq<(K, V)>, k: K)
    requires
        !present(s, k),
    ensures
        cut(s, k) == s,
    decreases s.len(),
{
    reveal(cut);
    reveal(find);
    reveal_with_fuel(Seq::filter, 2);
    lemma_position(s, k);
    if s.len() > 0 {
        let t = s.drop_last();
        lemma_position(t, k);
        assert(!present(t, k)) by {
            if present(t, k) {
                assert(s[position(t, k)] == t[position(t, k)]);
            }
        }
        lemma_cut_absent(t, k);
        assert(s[s.len() - 1].0 != k);
        assert(t.push(s.last()) =~= s);
    }
}

/// A choice among entries keeps keys unique.
pub proof fn lemma_select_unique<K, V, S: Select<K, V>>(s: Seq<(K, V)>, selection: S)
    requires
        unique(s),
    ensures
        unique(select(s, selection)),
{
    reveal(select);
    lemma_filter_unique(s, |e: (K, V)| selection.selects(e));
}

/// What is under a key after a selection was under it before.
pub proof fn lemma_filter_present<K, V>(s: Seq<(K, V)>, p: spec_fn((K, V)) -> bool, k: K)
    requires
        present(s.filter(p), k),
    ensures
        present(s, k),
{
    let i = lemma_find_member(s.filter(p), k);
    lemma_filter_member(s, p, i);
    let j = choose|j: int| 0 <= j < s.len() && s[j] == s.filter(p)[i];
    lemma_has_member(s, j);
}

/// A member's key is present.
pub proof fn lemma_has_member<K, V>(s: Seq<(K, V)>, i: int)
    requires
        0 <= i < s.len(),
    ensures
        present(s, s[i].0),
{
    reveal(find);
    lemma_position(s, s[i].0);
}

/// What is found is a member.
pub proof fn lemma_find_member<K, V>(s: Seq<(K, V)>, k: K) -> (i: int)
    requires
        present(s, k),
    ensures
        0 <= i < s.len(),
        s[i] == (k, find(s, k)->0),
{
    reveal(find);
    lemma_position(s, k);
    position(s, k)
}

/// An ordered association list.
pub struct Assoc<K, V> {
    pub entries: Vec<(K, V)>,
}

impl<K, V> View for Assoc<K, V> {
    type V = Seq<(K, V)>;

    open spec fn view(&self) -> Seq<(K, V)> {
        self.entries@
    }
}

impl<K: Key, V> Assoc<K, V> {
    pub fn new() -> (r: Self)
        ensures
            r@ == Seq::<(K, V)>::empty(),
            unique(r@),
    {
        proof {
            reveal(unique);
        }
        Assoc { entries: Vec::new() }
    }

    pub fn len(&self) -> (r: usize)
        ensures
            r == self@.len(),
    {
        self.entries.len()
    }

    pub fn is_empty(&self) -> (r: bool)
        ensures
            r == (self@.len() == 0),
    {
        self.entries.len() == 0
    }

    /// Index of the first entry under `k`.
    pub fn locate(&self, k: &K) -> (r: usize)
        ensures
            r == position(self@, *k),
            r <= self@.len(),
    {
        let mut i: usize = 0;
        proof {
            lemma_position(self@, *k);
        }
        while i < self.entries.len()
            invariant
                i <= self@.len(),
                forall|j: int| 0 <= j < i ==> (#[trigger] self@[j]).0 != *k,
                0 <= position(self@, *k) <= self@.len(),
                position(self@, *k) < self@.len() ==> self@[position(self@, *k)].0 == *k,
                forall|j: int| 0 <= j < position(self@, *k) ==> (#[trigger] self@[j]).0 != *k,
            decreases self@.len() - i,
        {
            if self.entries[i].0.same(k) {
                assert(self@[i as int].0 == *k);
                return i;
            }
            i = i + 1;
        }
        i
    }

    pub fn contains(&self, k: &K) -> (r: bool)
        ensures
            r == present(self@, *k),
    {
        proof {
            reveal(find);
        }
        self.locate(k) < self.entries.len()
    }

    pub fn get(&self, k: &K) -> (r: Option<&V>)
        ensures
            match r {
                Some(v) => find(self@, *k) == Some(*v),
                None => find(self@, *k) is None,
            },
    {
        proof {
            reveal(find);
        }
        let i: usize = self.locate(k);
        if i < self.entries.len() {
            Some(&self.entries[i].1)
        } else {
            None
        }
    }

    /// A mutable borrow of the value under `k`.
    pub fn get_mut(&mut self, k: &K) -> (r: Option<&mut V>)
        ensures
            match r {
                Some(v) => find(old(self)@, *k) == Some(*v) && final(self)@ == put(
                    old(self)@,
                    *k,
                    *final(v),
                ),
                None => find(old(self)@, *k) is None && final(self)@ == old(self)@,
            },
    {
        proof {
            reveal(find);
            reveal(put);
            lemma_position(self@, *k);
        }
        let i: usize = self.locate(k);
        if i < self.entries.len() {
            Some(&mut self.entries[i].1)
        } else {
            None
        }
    }

    pub fn insert(&mut self, k: K, v: V)
        ensures
            final(self)@ == put(old(self)@, k, v),
            unique(old(self)@) ==> unique(final(self)@),
    {
        proof {
            reveal(put);
            lemma_position(self@, k);
            if unique(self@) {
                lemma_put_unique(self@, k, v);
            }
        }
        let i: usize = self.locate(&k);
        if i < self.entries.len() {
            self.entries[i].1 = v;
        } else {
            self.entries.push((k, v));
        }
    }

    /// Removes the entries under `k` and returns the value of the first of them.
    pub fn remove(&mut self, k: &K) -> (r: Option<V>)
        ensures
            r == find(old(self)@, *k),
            final(self)@ == cut(old(self)@, *k),
            unique(old(self)@) ==> unique(final(self)@),
    {
        let ghost all = self@;
        let ghost p = |e: (K, V)| e.0 != *k;
        let ghost mut done: int = 0;
        let mut found: Option<V> = None;
        let mut i: usize = 0;
        proof {
            reveal(find);
        }
        while i < self.entries.len()
            invariant
                0 <= done <= all.len(),
                i == all.take(done).filter(p).len(),
                p == (|e: (K, V)| e.0 != *k),
                self@ == all.take(done).filter(p) + all.skip(done),
                found == find(all.take(done), *k),
            decreases all.len() - done,
        {
            proof {
                reveal_with_fuel(Seq::filter, 2);
                assert(all.take(done + 1).drop_last() =~= all.take(done));
                assert(all.take(done + 1).last() == all[done]);
                assert(all.take(done + 1) =~= all.take(done).push(all[done]));
                lemma_find_push(all.take(done), all[done], *k);
                assert(self@[i as int] == all[done]);
            }
            if self.entries[i].0.same(k) {
                let e = self.entries.remove(i);
                if found.is_none() {
                    found = Some(e.1);
                }
                proof {
                    assert(self@ =~= all.take(done).filter(p) + all.skip(done + 1));
                }
            } else {
                i = i + 1;
                proof {
                    assert(self@ =~= all.take(done + 1).filter(p) + all.skip(done + 1));
                }
            }
            proof {
                done = done + 1;
            }
        }
        proof {
            reveal(cut);
            assert(all.take(done) =~= all) by {
                assert(self@.len() == i);
                assert(all.skip(done).len() == 0);
            }
            assert(self@ =~= all.filter(p));
            if unique(all) {
                lemma_cut_unique(all, *k);
            }
        }
        found
    }

    /// Keeps the entries that `selection` selects.
    pub fn retain<S: Select<K, V>>(&mut self, selection: &S)
        ensures
            final(self)@ == select(old(self)@, *selection),
            unique(old(self)@) ==> unique(final(self)@),
    {
        let ghost all = self@;
        let ghost p = |e: (K, V)| selection.selects(e);
        let ghost mut done: int = 0;
        let mut i: usize = 0;
        while i < self.entries.len()
            invariant
                0 <= done <= all.len(),
                i == all.take(done).filter(p).len(),
                self@ == all.take(done).filter(p) + all.skip(done),
                p == (|e: (K, V)| selection.selects(e)),
            decreases all.len() - done,
        {
            proof {
                reveal_with_fuel(Seq::filter, 2);
                assert(all.take(done + 1).drop_last() =~= all.take(done));
                assert(all.take(done + 1).last() == all[done]);
                assert(self@[i as int] == all[done]);
            }
            if selection.keep(&self.entries[i].0, &self.entries[i].1) {
                i = i + 1;
                proof {
                    assert(self@ =~= all.take(done + 1).filter(p) + all.skip(done + 1));
                }
            } else {
                self.entries.remove(i);
                proof {
                    assert(self@ =~= all.take(done).filter(p) + all.skip(done + 1));
                }
            }
            proof {
                done = done + 1;
            }
        }
        proof {
            reveal(select);
            assert(all.take(done) =~= all) by {
                assert(self@.len() == i);
                assert(all.skip(done).len() == 0);
            }
            assert(self@ =~= all.filter(p));
            if unique(all) {
                lemma_select_unique(all, *selection);
            }
        }
    }

    pub fn clear(&mut self)
        ensures
            final(self)@ == Seq::<(K, V)>::empty(),
            unique(final(self)@),
    {
        proof {
            reveal(unique);
        }
        self.entries.clear();
    }
}

} // verus!
