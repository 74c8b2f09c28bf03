//! Finite maps kept as a vector of entries with distinct keys.

use crate::words::{Address, U256};
use vstd::prelude::*;

verus! {

/// A key type whose equality test is exact.
pub trait MapKey: Sized {
    fn same(&self, other: &Self) -> (r: bool)
        ensures
            r == (*self == *other),
    ;

    fn copy(&self) -> (r: Self)
        ensures
            r == *self,
    ;
}

impl MapKey for u32 {
    fn same(&self, other: &Self) -> (r: bool) {
        *self == *other
    }

    fn copy(&self) -> (r: Self) {
        *self
    }
}

impl MapKey for u64 {
    fn same(&self, other: &Self) -> (r: bool) {
        *self == *other
    }

    fn copy(&self) -> (r: Self) {
        *self
    }
}

impl MapKey for Address {
    fn same(&self, other: &Self) -> (r: bool) {
        *self == *other
    }

    fn copy(&self) -> (r: Self) {
        *self
    }
}

impl MapKey for U256 {
    fn same(&self, other: &Self) -> (r: bool) {
        *self == *other
    }

    fn copy(&self) -> (r: Self) {
        *self
    }
}

impl<A: MapKey, B: MapKey> MapKey for (A, B) {
    fn same(&self, other: &Self) -> (r: bool) {
        self.0.same(&other.0) && self.1.same(&other.1)
    }

    fn copy(&self) -> (r: Self) {
        (self.0.copy(), self.1.copy())
    }
}

impl<A: MapKey, B: MapKey, C: MapKey> MapKey for (A, B, C) {
    fn same(&self, other: &Self) -> (r: bool) {
        self.0.same(&other.0) && self.1.same(&other.1) && self.2.same(&other.2)
    }

    fn copy(&self) -> (r: Self) {
        (self.0.copy(), self.1.copy(), self.2.copy())
    }
}

/// The position of the entry for `k`, if there is one.
pub open spec fn entry_of<K, V>(s: Seq<(K, V)>, k: K) -> Option<int> {
    if exists|i: int| 0 <= i < s.len() && (#[trigger] s[i]).0 == k {
        Some(choose|i: int| 0 <= i < s.len() && (#[trigger] s[i]).0 == k)
    } else {
        None
    }
}

pub open spec fn distinct_keys<K, V>(s: Seq<(K, V)>) -> bool {
    forall|i: int, j: int|
        0 <= i < s.len() && 0 <= j < s.len() && (#[trigger] s[i]).0 == (#[trigger] s[j]).0 ==> i == j
}

pub open spec fn map_of<K, V>(s: Seq<(K, V)>) -> Map<K, V> {
    Map::new(|k: K| entry_of(s, k) is Some, |k: K| s[entry_of(s, k)->0].1)
}

/// A finite map from `K` to `V`.
#[derive(Debug)]
pub struct VecMap<K: MapKey, V> {
    entries: Vec<(K, V)>,
}

impl<K: MapKey, V> View for VecMap<K, V> {
    type V = Map<K, V>;

    closed spec fn view(&self) -> Map<K, V> {
        map_of(self.entries@)
    }
}

impl<K: MapKey, V> VecMap<K, V> {
    #[verifier::type_invariant]
    closed spec fn keys_are_distinct(self) -> bool {
        distinct_keys(self.entries@)
    }

    pub fn new() -> (r: Self)
        ensures
            r@ == Map::<K, V>::empty(),
    {
        let r = VecMap { entries: Vec::new() };
        proof {
            assert(r@ =~= Map::<K, V>::empty());
        }
        r
    }

    fn find(&self, k: &K) -> (r: Option<usize>)
        ensures
            match r {
                Some(i) => i < self.entries@.len() && self.entries@[i as int].0 == *k
                    && self@.contains_key(*k) && self@[*k] == self.entries@[i as int].1,
                None => !self@.contains_key(*k) && forall|j: int|
                    0 <= j < self.entries@.len() ==> (#[trigger] self.entries@[j]).0 != *k,
            },
    {
        proof {
            use_type_invariant(&*self);
        }
        let mut i: usize = 0;
        while i < self.entries.len()
            invariant
                i <= self.entries@.len(),
                forall|j: int| 0 <= j < i ==> (#[trigger] self.entries@[j]).0 != *k,
                distinct_keys(self.entries@),
            decreases self.entries@.len() - i,
        {
            if self.entries[i].0.same(k) {
                proof {
                    assert(entry_of(self.entries@, *k) is Some);
                }
                return Some(i);
            }
            i += 1;
        }
        None
    }

    pub fn get(&self, k: K) -> (r: Option<&V>)
        ensures
            match r {
                Some(v) => self@.contains_key(k) && *v == self@[k],
                None => !self@.contains_key(k),
            },
    {
        match self.find(&k) {
            Some(i) => Some(&self.entries[i].1),
            None => None,
        }
    }

    pub fn contains_key(&self, k: K) -> (r: bool)
        ensures
            r == self@.contains_key(k),
    {
        self.find(&k).is_some()
    }

    /// Binds `k` to `v`, in place of what it was bound to.
    pub fn insert(&mut self, k: K, v: V)
        ensures
            final(self)@ == old(self)@.insert(k, v),
    {
        let at = self.find(&k);
        proof {
            use_type_invariant(&*self);
        }
        let ghost before = self.entries@;
        let mut entries: Vec<(K, V)> = Vec::new();
        core::mem::swap(&mut self.entries, &mut entries);
        match at {
            Some(i) => {
                entries.set(i, (k, v));
                proof {
                    lemma_replace(before, i as int, v);
                }
            },
            None => {
                entries.push((k, v));
                proof {
                    lemma_append(before, k, v);
                }
            },
        }
        self.entries = entries;
    }

    /// A map with the same bindings.
    pub fn duplicate(&self) -> (r: Self)
        where
            V: Copy,

        ensures
            r@ == self@,
    {
        proof {
            use_type_invariant(&*self);
        }
        let mut entries: Vec<(K, V)> = Vec::new();
        let mut i: usize = 0;
        while i < self.entries.len()
            invariant
                i <= self.entries@.len(),
                entries@ == self.entries@.subrange(0, i as int),
            decreases self.entries@.len() - i,
        {
            entries.push((self.entries[i].0.copy(), self.entries[i].1));
            i += 1;
        }
        proof {
            assert(entries@ =~= self.entries@);
        }
        VecMap { entries }
    }

    /// The bindings, each once.
    pub fn entries(&self) -> (r: &Vec<(K, V)>)
        ensures
            distinct_keys(r@),
            map_of(r@) == self@,
    {
        proof {
            use_type_invariant(&*self);
        }
        &self.entries
    }

    pub fn is_empty(&self) -> (r: bool)
        ensures
            r == (self@ == Map::<K, V>::empty()),
    {
        proof {
            if self.entries@.len() > 0 {
                assert(self.entries@[0].0 == self.entries@[0].0);
                assert(entry_of(self.entries@, self.entries@[0].0) is Some);
                assert(self@.contains_key(self.entries@[0].0));
            } else {
                assert(self@ =~= Map::<K, V>::empty());
            }
        }
        self.entries.len() == 0
    }

    /// How many keys are bound.
    pub fn len(&self) -> (r: usize)
        ensures
            self@.dom().finite(),
            r == self@.dom().len(),
    {
        proof {
            use_type_invariant(&*self);
            lemma_map_len(self.entries@);
        }
        self.entries.len()
    }

    /// Unbinds `k`.
    pub fn remove(&mut self, k: K) -> (r: Option<V>)
        ensures
            final(self)@ == old(self)@.remove(k),
            match r {
                Some(v) => old(self)@.contains_key(k) && v == old(self)@[k],
                None => !old(self)@.contains_key(k),
            },
    {
        let at = self.find(&k);
        proof {
            use_type_invariant(&*self);
        }
        let ghost before = self.entries@;
        match at {
            Some(i) => {
                let mut entries: Vec<(K, V)> = Vec::new();
                core::mem::swap(&mut self.entries, &mut entries);
                let e = entries.remove(i);
                proof {
                    lemma_delete(before, i as int);
                }
                self.entries = entries;
                Some(e.1)
            },
            None => {
                proof {
                    assert(map_of(before).remove(k) =~= map_of(before));
                }
                None
            },
        }
    }
}

/// The entries with each name taken by its characters.
pub open spec fn by_name<V>(s: Seq<(String, V)>) -> Seq<(Seq<char>, V)> {
    Seq::new(s.len(), |i: int| (s[i].0@, s[i].1))
}

/// A finite map from names to `V`.
#[derive(Debug)]
pub struct NameMap<V> {
    entries: Vec<(String, V)>,
}

impl<V> View for NameMap<V> {
    type V = Map<Seq<char>, V>;

    closed spec fn view(&self) -> Map<Seq<char>, V> {
        map_of(by_name(self.entries@))
    }
}

impl<V> NameMap<V> {
    #[verifier::type_invariant]
    closed spec fn names_are_distinct(self) -> bool {
        distinct_keys(by_name(self.entries@))
    }

    pub fn new() -> (r: Self)
        ensures
            r@ == Map::<Seq<char>, V>::empty(),
    {
        let r = NameMap { entries: Vec::new() };
        proof {
            assert(r@ =~= Map::<Seq<char>, V>::empty());
        }
        r
    }

    fn find(&self, name: &String) -> (r: Option<usize>)
        ensures
            match r {
                Some(i) => i < self.entries@.len() && self.entries@[i as int].0@ == name@
                    && self@.contains_key(name@) && self@[name@] == self.entries@[i as int].1,
                None => !self@.contains_key(name@) && forall|j: int|
                    0 <= j < self.entries@.len() ==> (#[trigger] by_name(self.entries@)[j]).0
                        != name@,
            },
    {
        proof {
            use_type_invariant(&*self);
        }
        let mut i: usize = 0;
        while i < self.entries.len()
            invariant
                i <= self.entries@.len(),
                forall|j: int|
                    0 <= j < i ==> (#[trigger] by_name(self.entries@)[j]).0 != name@,
                distinct_keys(by_name(self.entries@)),
            decreases self.entries@.len() - i,
        {
            if self.entries[i].0 == *name {
                proof {
                    let s = by_name(self.entries@);
                    assert(s[i as int].0 == name@);
                    lemma_entry_unique(s, i as int);
                }
                return Some(i);
            }
            i += 1;
        }
        None
    }

    pub fn get(&self, name: &String) -> (r: Option<&V>)
        ensures
            match r {
                Some(v) => self@.contains_key(name@) && *v == self@[name@],
                None => !self@.contains_key(name@),
            },
    {
        match self.find(name) {
            Some(i) => Some(&self.entries[i].1),
            None => None,
        }
    }

    /// The bindings, each once.
    pub fn entries(&self) -> (r: &Vec<(String, V)>)
        ensures
            distinct_keys(by_name(r@)),
            map_of(by_name(r@)) == self@,
    {
        proof {
            use_type_invariant(&*self);
        }
        &self.entries
    }

    pub fn contains_key(&self, name: &String) -> (r: bool)
        ensures
            r == self@.contains_key(name@),
    {
        self.find(name).is_some()
    }

    /// A map with the same bindings.
    pub fn duplicate(&self) -> (r: Self) where V: Copy
        ensures
            r@ == self@,
    {
        proof {
            use_type_invariant(&*self);
        }
        let mut entries: Vec<(String, V)> = Vec::new();
        let mut i: usize = 0;
        while i < self.entries.len()
            invariant
                i <= self.entries@.len(),
                entries@ == self.entries@.subrange(0, i as int),
            decreases self.entries@.len() - i,
        {
            entries.push((self.entries[i].0.clone(), self.entries[i].1));
            i += 1;
        }
        proof {
            assert(entries@ =~= self.entries@);
        }
        NameMap { entries }
    }

    /// Binds `name` to `v`, in place of what it was bound to.
    pub fn insert(&mut self, name: String, v: V)
        ensures
            final(self)@ == old(self)@.insert(name@, v),
    {
        let at = self.find(&name);
        proof {
            use_type_invariant(&*self);
        }
        let ghost before = by_name(self.entries@);
        let ghost key = name@;
        let mut entries: Vec<(String, V)> = Vec::new();
        core::mem::swap(&mut self.entries, &mut entries);
        match at {
            Some(i) => {
                entries.set(i, (name, v));
                proof {
                    lemma_replace(before, i as int, v);
                    assert(by_name(entries@) =~= before.update(i as int, (key, v)));
                }
            },
            None => {
                entries.push((name, v));
                proof {
                    lemma_append(before, key, v);
                    assert(by_name(entries@) =~= before.push((key, v)));
                }
            },
        }
        self.entries = entries;
    }
}

proof fn lemma_entry_unique<K, V>(s: Seq<(K, V)>, i: int)
    requires
        distinct_keys(s),
        0 <= i < s.len(),
    ensures
        entry_of(s, s[i].0) == Some(i),
{
    assert(s[i].0 == s[i].0);
}

proof fn lemma_replace<K, V>(s: Seq<(K, V)>, i: int, v: V)
    requires
        distinct_keys(s),
        0 <= i < s.len(),
    ensures
        distinct_keys(s.update(i, (s[i].0, v))),
        map_of(s.update(i, (s[i].0, v))) == map_of(s).insert(s[i].0, v),
{
    let t = s.update(i, (s[i].0, v));
    let k = s[i].0;
    assert(distinct_keys(t)) by {
        assert forall|a: int, b: int|
            0 <= a < t.len() && 0 <= b < t.len() && (#[trigger] t[a]).0 == (#[trigger] t[b]).0 implies a
            == b by {
            assert(s[a].0 == t[a].0 && s[b].0 == t[b].0);
        }
    }
    assert forall|x: K| #[trigger] map_of(t).contains_key(x) == map_of(s).insert(k, v).contains_key(x) by {
        if map_of(t).contains_key(x) {
            let j = entry_of(t, x)->0;
            assert(s[j].0 == x);
        }
        if map_of(s).contains_key(x) {
            let j = entry_of(s, x)->0;
            assert(t[j].0 == x);
        }
        assert(t[i].0 == k);
    }
    assert forall|x: K| #[trigger] map_of(t).contains_key(x) implies map_of(t)[x] == map_of(s).insert(k, v)[x] by {
        let j = entry_of(t, x)->0;
        assert(s[j].0 == x);
        lemma_entry_unique(t, j);
        lemma_entry_unique(s, j);
        lemma_entry_unique(t, i);
    }
    assert(map_of(t) =~= map_of(s).insert(k, v));
}

proof fn lemma_append<K, V>(s: Seq<(K, V)>, k: K, v: V)
    requires
        distinct_keys(s),
        forall|j: int| 0 <= j < s.len() ==> (#[trigger] s[j]).0 != k,
    ensures
        distinct_keys(s.push((k, v))),
        map_of(s.push((k, v))) == map_of(s).insert(k, v),
{
    let t = s.push((k, v));
    assert forall|a: int, b: int|
        0 <= a < t.len() && 0 <= b < t.len() && (#[trigger] t[a]).0 == (#[trigger] t[b]).0 implies a == b by {
        if a < s.len() {
            assert(s[a] == t[a]);
        }
        if b < s.len() {
            assert(s[b] == t[b]);
        }
    }
    assert forall|x: K| #[trigger] map_of(t).contains_key(x) == map_of(s).insert(k, v).contains_key(x) by {
        if map_of(t).contains_key(x) {
            let j = entry_of(t, x)->0;
            if j < s.len() {
                assert(s[j].0 == x);
            }
        }
        if map_of(s).contains_key(x) {
            let j = entry_of(s, x)->0;
            assert(t[j].0 == x);
        }
        assert(t[s.len() as int].0 == k);
    }
    assert forall|x: K| #[trigger] map_of(t).contains_key(x) implies map_of(t)[x] == map_of(s).insert(k, v)[x] by {
        let j = entry_of(t, x)->0;
        lemma_entry_unique(t, j);
        lemma_entry_unique(t, s.len() as int);
        if j < s.len() {
            assert(s[j] == t[j]);
            lemma_entry_unique(s, j);
        }
    }
    assert(map_of(t) =~= map_of(s).insert(k, v));
}

/// Each entry adds its binding to those of the entries before it.
pub proof fn lemma_prefix<K, V>(s: Seq<(K, V)>, i: int)
    requires
        distinct_keys(s),
        0 <= i < s.len(),
    ensures
        map_of(s.subrange(0, i + 1)) == map_of(s.subrange(0, i)).insert(s[i].0, s[i].1),
        !map_of(s.subrange(0, i)).contains_key(s[i].0),
        map_of(s).contains_key(s[i].0),
        map_of(s)[s[i].0] == s[i].1,
{
    let t = s.subrange(0, i);
    assert forall|a: int, b: int|
        0 <= a < t.len() && 0 <= b < t.len() && (#[trigger] t[a]).0 == (#[trigger] t[b]).0 implies a == b by {
        assert(s[a] == t[a] && s[b] == t[b]);
    }
    assert forall|j: int| 0 <= j < t.len() implies (#[trigger] t[j]).0 != s[i].0 by {
        assert(s[j] == t[j]);
    }
    lemma_append(t, s[i].0, s[i].1);
    assert(s.subrange(0, i + 1) =~= t.push(s[i]));
    lemma_entry_unique(s, i);
}

proof fn lemma_map_len<K, V>(s: Seq<(K, V)>)
    requires
        distinct_keys(s),
    ensures
        map_of(s).dom().finite(),
        map_of(s).dom().len() == s.len(),
    decreases s.len(),
{
    if s.len() == 0 {
        assert(map_of(s).dom() =~= Set::<K>::empty());
    } else {
        let t = s.drop_last();
        assert forall|a: int, b: int|
            0 <= a < t.len() && 0 <= b < t.len() && (#[trigger] t[a]).0 == (#[trigger] t[b]).0 implies a == b by {
            assert(s[a] == t[a] && s[b] == t[b]);
        }
        lemma_map_len(t);
        lemma_prefix(s, s.len() - 1);
        assert(s.subrange(0, s.len() as int) =~= s);
        assert(s.subrange(0, s.len() - 1) =~= t);
        assert(map_of(s).dom() =~= map_of(t).dom().insert(s.last().0));
    }
}

/// A map of vectors, each taken by the sequence it holds.
pub open spec fn seqs<K, T>(m: Map<K, Vec<T>>) -> Map<K, Seq<T>> {
    Map::new(|k: K| m.contains_key(k), |k: K| m[k]@)
}

/// The sequence bound to `k`, empty where there is none.
pub open spec fn list_of<K, T>(m: Map<K, Seq<T>>, k: K) -> Seq<T> {
    if m.contains_key(k) {
        m[k]
    } else {
        Seq::empty()
    }
}

pub proof fn lemma_seqs_insert<K, T>(m: Map<K, Vec<T>>, k: K, v: Vec<T>)
    ensures
        seqs(m.insert(k, v)) == seqs(m).insert(k, v@),
        seqs(m.remove(k)) == seqs(m).remove(k),
        seqs(m.remove(k).insert(k, v)) == seqs(m).insert(k, v@),
{
    assert(seqs(m.insert(k, v)) =~= seqs(m).insert(k, v@));
    assert(seqs(m.remove(k)) =~= seqs(m).remove(k));
    assert(seqs(m.remove(k).insert(k, v)) =~= seqs(m).insert(k, v@));
}

proof fn lemma_delete<K, V>(s: Seq<(K, V)>, i: int)
    requires
        distinct_keys(s),
        0 <= i < s.len(),
    ensures
        distinct_keys(s.remove(i)),
        map_of(s.remove(i)) == map_of(s).remove(s[i].0),
{
    let t = s.remove(i);
    let k = s[i].0;
    assert forall|a: int| 0 <= a < t.len() implies #[trigger] t[a] == s[if a < i { a } else { a + 1 }] by {}
    assert forall|a: int, b: int|
        0 <= a < t.len() && 0 <= b < t.len() && (#[trigger] t[a]).0 == (#[trigger] t[b]).0 implies a == b by {
        let a2 = if a < i { a } else { a + 1 };
        let b2 = if b < i { b } else { b + 1 };
        assert(s[a2].0 == s[b2].0);
    }
    assert forall|x: K| #[trigger] map_of(t).contains_key(x) == map_of(s).remove(k).contains_key(x) by {
        if map_of(t).contains_key(x) {
            let j = entry_of(t, x)->0;
            let j2 = if j < i { j } else { j + 1 };
            assert(s[j2].0 == x);
            assert(j2 != i);
            assert(x != k) by {
                if x == k {
                    assert(s[j2].0 == s[i].0);
                }
            }
        }
        if map_of(s).remove(k).contains_key(x) {
            let j = entry_of(s, x)->0;
            assert(j != i);
            let j2 = if j < i { j } else { j - 1 };
            assert(t[j2].0 == x);
        }
    }
    assert forall|x: K| #[trigger] map_of(t).contains_key(x) implies map_of(t)[x] == map_of(s).remove(k)[x] by {
        let j = entry_of(t, x)->0;
        let j2 = if j < i { j } else { j + 1 };
        lemma_entry_unique(s, j2);
        lemma_entry_unique(t, j);
    }
    assert(map_of(t) =~= map_of(s).remove(k));
}

} // verus!
