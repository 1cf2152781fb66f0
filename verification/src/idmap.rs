//! An id-keyed collection kept in id order: the project's requirements,
//! hazards, safety functions and safety requirements each live in one.
//! Iteration follows the ids' string order, and an id occurs at most once.
use vstd::prelude::*;

use crate::text::{lemma_lt_asymmetric, lemma_lt_irreflexive, lemma_lt_total, lemma_lt_transitive, seq_lt, str_eq, str_lt};

verus! {

/// An item that carries its own id.
pub trait Keyed {
    spec fn key(&self) -> Seq<char>;

    fn key_str(&self) -> (r: &str)
        ensures
            r@ == self.key(),
    ;
}

/// The keys of `s` strictly increase.
pub open spec fn keys_sorted<T: Keyed>(s: Seq<T>) -> bool {
    forall|i: int, j: int| 0 <= i < j < s.len() ==> seq_lt(#[trigger] s[i].key(), #[trigger] s[j].key())
}

/// Position of the entry with key `k`, if any.
pub open spec fn index_of_key<T: Keyed>(s: Seq<T>, k: Seq<char>) -> Option<int> {
    if exists|i: int| 0 <= i < s.len() && #[trigger] s[i].key() == k {
        Some(choose|i: int| 0 <= i < s.len() && #[trigger] s[i].key() == k)
    } else {
        None
    }
}

/// The entry with key `k`, if any.
pub open spec fn lookup<T: Keyed>(s: Seq<T>, k: Seq<char>) -> Option<T> {
    match index_of_key(s, k) {
        Some(i) => Some(s[i]),
        None => None,
    }
}

pub open spec fn has_key<T: Keyed>(s: Seq<T>, k: Seq<char>) -> bool {
    exists|i: int| 0 <= i < s.len() && #[trigger] s[i].key() == k
}

/// `new` is `old` with the entry whose key is `v`'s replaced by `v`.
pub open spec fn replaced<T: Keyed>(old: Seq<T>, new: Seq<T>, v: T) -> bool {
    &&& new.len() == old.len()
    &&& forall|x: T| #[trigger] new.contains(x) <==> (x == v || (old.contains(x) && x.key() != v.key()))
}

/// After a replacement, every other key still finds the entry it found.
pub proof fn lemma_replaced_lookup<T: Keyed>(old: Seq<T>, new: Seq<T>, v: T, k: Seq<char>)
    requires
        keys_sorted(old),
        keys_sorted(new),
        replaced(old, new, v),
        k != v.key(),
    ensures
        has_key(new, k) == has_key(old, k),
        lookup(new, k) == lookup(old, k),
{
    if has_key(new, k) {
        let i = choose|i: int| 0 <= i < new.len() && #[trigger] new[i].key() == k;
        assert(new.contains(new[i]));
        assert(old.contains(new[i]));
        let j = choose|j: int| 0 <= j < old.len() && old[j] == new[i];
        assert(old[j].key() == k);
        let j2 = choose|j: int| 0 <= j < old.len() && #[trigger] old[j].key() == k;
        lemma_sorted_unique(old, j, j2);
    }
    if has_key(old, k) {
        let j = choose|j: int| 0 <= j < old.len() && #[trigger] old[j].key() == k;
        assert(old.contains(old[j]));
        assert(new.contains(old[j]));
        let i = choose|i: int| 0 <= i < new.len() && new[i] == old[j];
        assert(new[i].key() == k);
        let i2 = choose|i: int| 0 <= i < new.len() && #[trigger] new[i].key() == k;
        lemma_sorted_unique(new, i, i2);
    }
}

/// After an insertion, every other key still finds the entry it found.
pub proof fn lemma_insert_lookup<T: Keyed>(old: Seq<T>, new: Seq<T>, v: T, k: Seq<char>)
    requires
        keys_sorted(old),
        keys_sorted(new),
        forall|x: T| #[trigger] new.contains(x) <==> (x == v || (old.contains(x) && x.key() != v.key())),
        k != v.key(),
    ensures
        lookup(new, k) == lookup(old, k),
{
    if has_key(new, k) {
        let i = choose|i: int| 0 <= i < new.len() && #[trigger] new[i].key() == k;
        assert(new.contains(new[i]));
        assert(old.contains(new[i]));
        let j = choose|j: int| 0 <= j < old.len() && old[j] == new[i];
        assert(old[j].key() == k);
        let j2 = choose|j: int| 0 <= j < old.len() && #[trigger] old[j].key() == k;
        lemma_sorted_unique(old, j, j2);
        let i2 = choose|i: int| 0 <= i < new.len() && #[trigger] new[i].key() == k;
        lemma_sorted_unique(new, i, i2);
    }
    if has_key(old, k) {
        let j = choose|j: int| 0 <= j < old.len() && #[trigger] old[j].key() == k;
        assert(old.contains(old[j]));
        assert(new.contains(old[j]));
        let i = choose|i: int| 0 <= i < new.len() && new[i] == old[j];
        assert(new[i].key() == k);
        let i2 = choose|i: int| 0 <= i < new.len() && #[trigger] new[i].key() == k;
        lemma_sorted_unique(new, i, i2);
        let j2 = choose|j: int| 0 <= j < old.len() && #[trigger] old[j].key() == k;
        lemma_sorted_unique(old, j, j2);
    }
}

/// Sorted keys are distinct.
pub proof fn lemma_sorted_unique<T: Keyed>(s: Seq<T>, i: int, j: int)
    requires
        keys_sorted(s),
        0 <= i < s.len(),
        0 <= j < s.len(),
        s[i].key() == s[j].key(),
    ensures
        i == j,
{
    if i < j {
        lemma_lt_irreflexive(s[i].key());
    } else if j < i {
        lemma_lt_irreflexive(s[i].key());
    }
}

/// Items keyed by their ids, kept in increasing id order with no id twice.
pub struct IdMap<T: Keyed> {
    entries: Vec<T>,
}

impl<T: Keyed> IdMap<T> {
    #[verifier::type_invariant]
    spec fn sorted(self) -> bool {
        keys_sorted(self.entries@)
    }

    /// The entries, in id order.
    pub closed spec fn view(&self) -> Seq<T> {
        self.entries@
    }

    /// An empty map.
    pub fn new() -> (m: Self)
        ensures
            m.view() == Seq::<T>::empty(),
    {
        IdMap { entries: Vec::new() }
    }

    /// A map holding `v`, whose ids already increase.
    pub fn from_sorted(v: Vec<T>) -> (m: Self)
        requires
            keys_sorted(v@),
        ensures
            m.view() == v@,
    {
        IdMap { entries: v }
    }

    /// The entries, in id order.
    pub fn into_entries(self) -> (v: Vec<T>)
        ensures
            v@ == self.view(),
            keys_sorted(v@),
    {
        proof {
            use_type_invariant(&self);
        }
        self.entries
    }

    /// Number of entries.
    pub fn len(&self) -> (n: usize)
        ensures
            n == self.view().len(),
            keys_sorted(self.view()),
    {
        proof {
            use_type_invariant(self);
        }
        self.entries.len()
    }

    /// Whether the map has no entries.
    pub fn is_empty(&self) -> (b: bool)
        ensures
            b == (self.view().len() == 0),
    {
        self.entries.len() == 0
    }

    /// The entry at position `i` in id order.
    pub fn at(&self, i: usize) -> (r: &T)
        requires
            i < self.view().len(),
        ensures
            *r == self.view()[i as int],
    {
        &self.entries[i]
    }

    /// Position of the entry whose id is `id`, if present.
    pub fn position(&self, id: &str) -> (r: Option<usize>)
        ensures
            match r {
                Some(i) => i < self.view().len() && self.view()[i as int].key() == id@,
                None => !has_key(self.view(), id@),
            },
    {
        let mut i: usize = 0;
        while i < self.entries.len()
            invariant
                i <= self.entries@.len(),
                forall|j: int| 0 <= j < i ==> #[trigger] self.entries@[j].key() != id@,
            decreases self.entries@.len() - i,
        {
            if str_eq(self.entries[i].key_str(), id) {
                return Some(i);
            }
            i = i + 1;
        }
        None
    }

    /// Whether an entry with id `id` exists.
    pub fn contains_key(&self, id: &str) -> (b: bool)
        ensures
            b == has_key(self.view(), id@),
    {
        self.position(id).is_some()
    }

    /// The entry whose id is `id`, if present.
    pub fn get(&self, id: &str) -> (r: Option<&T>)
        ensures
            match r {
                Some(v) => has_key(self.view(), id@) && v.key() == id@ && self.view().contains(*v)
                    && lookup(self.view(), id@) == Some(*v),
                None => !has_key(self.view(), id@) && lookup(self.view(), id@).is_none(),
            },
    {
        proof {
            use_type_invariant(self);
        }
        match self.position(id) {
            Some(i) => {
                let v = &self.entries[i];
                assert(self.view()[i as int] == *v);
                proof {
                    let j = choose|j: int| 0 <= j < self.view().len() && #[trigger] self.view()[j].key() == id@;
                    lemma_sorted_unique(self.view(), i as int, j);
                }
                Some(v)
            },
            None => None,
        }
    }

    /// Insert `v`, replacing any entry with the same id (`BTreeMap::insert`).
    pub fn insert(&mut self, v: T)
        ensures
            has_key(final(self).view(), v.key()),
            final(self).view().contains(v),
            lookup(final(self).view(), v.key()) == Some(v),
            final(self).view().len() == old(self).view().len() + (if has_key(old(self).view(), v.key()) { 0int } else { 1int }),
            forall|x: T| #[trigger] final(self).view().contains(x) <==> (x == v || (old(self).view().contains(x) && x.key() != v.key())),
    {
        proof {
            use_type_invariant(&*self);
        }
        let ghost k = v.key();
        let ghost old_s = self.entries@;
        let mut es: Vec<T> = Vec::new();
        std::mem::swap(&mut es, &mut self.entries);
        let mut i: usize = 0;
        while i < es.len() && str_lt(es[i].key_str(), v.key_str())
            invariant
                i <= es@.len(),
                es@ == old_s,
                keys_sorted(old_s),
                k == v.key(),
                forall|j: int| 0 <= j < i ==> seq_lt(#[trigger] old_s[j].key(), k),
            decreases es@.len() - i,
        {
            i = i + 1;
        }
        // Every entry from i on sorts at or after k.
        assert forall|j: int| i <= j < old_s.len() implies !seq_lt(#[trigger] old_s[j].key(), k) by {
            if seq_lt(old_s[j].key(), k) && j > i {
                lemma_lt_transitive(old_s[i as int].key(), old_s[j].key(), k);
            }
        }
        if i < es.len() && str_eq(es[i].key_str(), v.key_str()) {
            // Replace the entry with the same id.
            let ghost before = es@;
            es.set(i, v);
            proof {
                let s = es@;
                assert(s == before.update(i as int, v));
                assert forall|a: int, b: int| 0 <= a < b < s.len() implies seq_lt(#[trigger] s[a].key(), #[trigger] s[b].key()) by {
                    assert(old_s[a].key() == s[a].key() || a == i);
                }
                assert(s[i as int] == v);
                assert forall|x: T| #[trigger] s.contains(x) <==> (x == v || (old_s.contains(x) && x.key() != k)) by {
                    if s.contains(x) {
                        let p = choose|p: int| 0 <= p < s.len() && s[p] == x;
                        if p != i {
                            assert(old_s[p] == x);
                            if x.key() == k {
                                lemma_sorted_unique(old_s, p, i as int);
                            }
                        }
                    }
                    if x != v && old_s.contains(x) && x.key() != k {
                        let p = choose|p: int| 0 <= p < old_s.len() && old_s[p] == x;
                        assert(p != i);
                        assert(s[p] == x);
                    }
                }
                assert(has_key(old_s, k)) by {
                    assert(old_s[i as int].key() == k);
                }
                assert(has_key(s, k)) by {
                    assert(s[i as int].key() == k);
                }
            }
        } else {
            let ghost before = es@;
            proof {
                if i < old_s.len() {
                    lemma_lt_total(old_s[i as int].key(), k);
                }
                assert forall|j: int| 0 <= j < old_s.len() implies #[trigger] old_s[j].key() != k by {
                    if j < i {
                        lemma_lt_irreflexive(k);
                    } else if j > i {
                        assert(seq_lt(k, old_s[i as int].key()));
                        lemma_lt_transitive(k, old_s[i as int].key(), old_s[j].key());
                        lemma_lt_irreflexive(k);
                    }
                }
            }
            es.insert(i, v);
            proof {
                let s = es@;
                assert(s == before.insert(i as int, v));
                assert forall|a: int, b: int| 0 <= a < b < s.len() implies seq_lt(#[trigger] s[a].key(), #[trigger] s[b].key()) by {
                    if b == i {
                        assert(s[a] == old_s[a]);
                    } else if a == i {
                        assert(s[b] == old_s[b - 1]);
                        if b - 1 > i {
                            lemma_lt_transitive(k, old_s[i as int].key(), old_s[b - 1].key());
                        }
                    } else if a < i && b > i {
                        assert(s[a] == old_s[a]);
                        assert(s[b] == old_s[b - 1]);
                    } else if b < i {
                        assert(s[a] == old_s[a]);
                        assert(s[b] == old_s[b]);
                    } else {
                        assert(s[a] == old_s[a - 1]);
                        assert(s[b] == old_s[b - 1]);
                    }
                }
                assert(s[i as int] == v);
                assert(!has_key(old_s, k));
                assert(has_key(s, k)) by {
                    assert(s[i as int].key() == k);
                }
                assert forall|x: T| #[trigger] s.contains(x) <==> (x == v || (old_s.contains(x) && x.key() != k)) by {
                    if s.contains(x) {
                        let p = choose|p: int| 0 <= p < s.len() && s[p] == x;
                        if p < i {
                            assert(old_s[p] == x);
                        } else if p > i {
                            assert(old_s[p - 1] == x);
                        }
                    }
                    if old_s.contains(x) {
                        let p = choose|p: int| 0 <= p < old_s.len() && old_s[p] == x;
                        if p < i {
                            assert(s[p] == x);
                        } else {
                            assert(s[p + 1] == x);
                        }
                    }
                }
            }
        }
        self.entries = es;
        proof {
            let s = self.entries@;
            let p = choose|p: int| 0 <= p < s.len() && s[p] == v;
            let w = choose|j: int| 0 <= j < s.len() && #[trigger] s[j].key() == k;
            assert(s[p].key() == k);
            lemma_sorted_unique(s, p, w);
        }
    }

    /// Remove and return the entry with id `id`, if present.
    pub fn remove(&mut self, id: &str) -> (r: Option<T>)
        ensures
            match r {
                Some(v) => v.key() == id@ && has_key(old(self).view(), id@) && old(self).view().contains(v)
                    && lookup(old(self).view(), id@) == Some(v),
                None => !has_key(old(self).view(), id@),
            },
            !has_key(final(self).view(), id@),
            forall|x: T| #[trigger] final(self).view().contains(x) <==> (old(self).view().contains(x) && x.key() != id@),
            final(self).view().len() == old(self).view().len() - (if has_key(old(self).view(), id@) { 1int } else { 0int }),
    {
        proof {
            use_type_invariant(&*self);
        }
        match self.position(id) {
            None => {
                proof {
                    assert forall|x: T| #[trigger] self.view().contains(x) implies x.key() != id@ by {
                        let p = choose|p: int| 0 <= p < self.entries@.len() && self.entries@[p] == x;
                    }
                }
                None
            },
            Some(i) => {
                let ghost old_s = self.entries@;
                let mut es: Vec<T> = Vec::new();
                std::mem::swap(&mut es, &mut self.entries);
                let v = es.remove(i);
                proof {
                    let s = es@;
                    assert(s == old_s.remove(i as int));
                    assert forall|a: int, b: int| 0 <= a < b < s.len() implies seq_lt(#[trigger] s[a].key(), #[trigger] s[b].key()) by {
                        if b < i {
                            assert(s[a] == old_s[a] && s[b] == old_s[b]);
                        } else if a < i {
                            assert(s[a] == old_s[a] && s[b] == old_s[b + 1]);
                        } else {
                            assert(s[a] == old_s[a + 1] && s[b] == old_s[b + 1]);
                        }
                    }
                    assert(old_s[i as int] == v);
                    let w = choose|j: int| 0 <= j < old_s.len() && #[trigger] old_s[j].key() == id@;
                    lemma_sorted_unique(old_s, i as int, w);
                    assert forall|x: T| #[trigger] s.contains(x) <==> (old_s.contains(x) && x.key() != id@) by {
                        if s.contains(x) {
                            let p = choose|p: int| 0 <= p < s.len() && s[p] == x;
                            let q = if p < i { p } else { p + 1 };
                            assert(old_s[q] == x);
                            if x.key() == id@ {
                                lemma_sorted_unique(old_s, q, i as int);
                            }
                        }
                        if old_s.contains(x) && x.key() != id@ {
                            let p = choose|p: int| 0 <= p < old_s.len() && old_s[p] == x;
                            if p < i {
                                assert(s[p] == x);
                            } else {
                                assert(s[p - 1] == x);
                            }
                        }
                    }
                    assert forall|j: int| 0 <= j < s.len() implies #[trigger] s[j].key() != id@ by {
                        let q = if j < i { j } else { j + 1 };
                        assert(s[j] == old_s[q]);
                        if old_s[q].key() == id@ {
                            lemma_sorted_unique(old_s, q, i as int);
                        }
                    }
                    assert(has_key(old_s, id@)) by {
                        assert(old_s[i as int].key() == id@);
                    }
                }
                self.entries = es;
                Some(v)
            },
        }
    }
}

} // verus!
