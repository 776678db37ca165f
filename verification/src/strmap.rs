//! A map keyed by character strings, kept as parallel vectors with
//! distinct keys, in first-insertion order.
use vstd::prelude::*;
use crate::text::{chars_of, copy, eq};

verus! {

/// A map from strings to values.  Keys are distinct; a key keeps the
/// position where it was first inserted.
pub struct StrMap<V> {
    keys: Vec<Vec<char>>,
    vals: Vec<V>,
}

/// The map that the first `n` entries describe.
pub open spec fn entries_map<V>(keys: Seq<Seq<char>>, vals: Seq<V>, n: int) -> Map<Seq<char>, V>
    decreases n,
{
    if n <= 0 {
        Map::empty()
    } else {
        entries_map(keys, vals, n - 1).insert(keys[n - 1], vals[n - 1])
    }
}

pub open spec fn distinct_keys(keys: Seq<Seq<char>>) -> bool {
    forall|i: int, j: int| 0 <= i < keys.len() && 0 <= j < keys.len() && i != j ==> keys[i] != keys[j]
}

proof fn lemma_entries_map_get<V>(keys: Seq<Seq<char>>, vals: Seq<V>, n: int, i: int)
    requires
        distinct_keys(keys),
        0 <= i < n <= keys.len(),
        n <= vals.len(),
    ensures
        entries_map(keys, vals, n).dom().contains(keys[i]),
        entries_map(keys, vals, n)[keys[i]] == vals[i],
    decreases n,
{
    if i < n - 1 {
        lemma_entries_map_get(keys, vals, n - 1, i);
    }
}

proof fn lemma_entries_map_dom<V>(keys: Seq<Seq<char>>, vals: Seq<V>, n: int, k: Seq<char>)
    requires
        0 <= n <= keys.len(),
        forall|i: int| 0 <= i < n ==> keys[i] != k,
    ensures
        !entries_map(keys, vals, n).dom().contains(k),
    decreases n,
{
    if n > 0 {
        lemma_entries_map_dom(keys, vals, n - 1, k);
    }
}

proof fn lemma_entries_map_update<V>(keys: Seq<Seq<char>>, vals: Seq<V>, n: int, i: int, v: V)
    requires
        distinct_keys(keys),
        0 <= i < n <= keys.len(),
        n <= vals.len(),
    ensures
        entries_map(keys, vals.update(i, v), n) == entries_map(keys, vals, n).insert(keys[i], v),
    decreases n,
{
    if i < n - 1 {
        lemma_entries_map_update(keys, vals, n - 1, i, v);
        assert(keys[n - 1] != keys[i]);
        assert(entries_map(keys, vals.update(i, v), n) =~= entries_map(keys, vals, n).insert(keys[i], v));
    } else {
        lemma_entries_map_prefix_eq(keys, vals, vals.update(i, v), n - 1);
        assert(entries_map(keys, vals.update(i, v), n) =~= entries_map(keys, vals, n).insert(keys[i], v));
    }
}

proof fn lemma_entries_map_prefix_eq<V>(keys: Seq<Seq<char>>, a: Seq<V>, b: Seq<V>, n: int)
    requires
        0 <= n <= a.len(),
        n <= b.len(),
        forall|j: int| 0 <= j < n ==> a[j] == b[j],
    ensures
        entries_map(keys, a, n) == entries_map(keys, b, n),
    decreases n,
{
    if n > 0 {
        lemma_entries_map_prefix_eq(keys, a, b, n - 1);
    }
}

proof fn lemma_entries_map_push<V>(keys: Seq<Seq<char>>, vals: Seq<V>, k: Seq<char>, v: V)
    requires
        keys.len() == vals.len(),
    ensures
        entries_map(keys.push(k), vals.push(v), keys.len() + 1int)
            == entries_map(keys, vals, keys.len() as int).insert(k, v),
{
    lemma_entries_map_keys_prefix_eq(keys, keys.push(k), vals, vals.push(v), keys.len() as int);
}

proof fn lemma_entries_map_keys_prefix_eq<V>(ka: Seq<Seq<char>>, kb: Seq<Seq<char>>, a: Seq<V>, b: Seq<V>, n: int)
    requires
        0 <= n <= ka.len(),
        n <= kb.len(),
        n <= a.len(),
        n <= b.len(),
        forall|j: int| 0 <= j < n ==> a[j] == b[j],
        forall|j: int| 0 <= j < n ==> ka[j] == kb[j],
    ensures
        entries_map(ka, a, n) == entries_map(kb, b, n),
    decreases n,
{
    if n > 0 {
        lemma_entries_map_keys_prefix_eq(ka, kb, a, b, n - 1);
    }
}

impl<V> StrMap<V> {
    pub closed spec fn key_seq(&self) -> Seq<Seq<char>> {
        self.keys@.map_values(|k: Vec<char>| k@)
    }

    /// The keys in the order in which they were first inserted.
    pub closed spec fn key_order(&self) -> Seq<Seq<char>> {
        self.key_seq()
    }

    /// The values, in the order of `key_order`.
    pub closed spec fn val_order(&self) -> Seq<V> {
        self.vals@
    }

    pub closed spec fn wf(&self) -> bool {
        &&& self.keys@.len() == self.vals@.len()
        &&& distinct_keys(self.key_seq())
    }

    pub closed spec fn view(&self) -> Map<Seq<char>, V> {
        entries_map(self.key_seq(), self.vals@, self.keys@.len() as int)
    }

    /// A copy of the map, keys in the same order.
    pub fn copy_map(&self) -> (r: Self)
        where V: Copy
        requires
            self.wf(),
        ensures
            r.wf(),
            r.view() == self.view(),
            r.key_order() == self.key_order(),
    {
        let mut keys: Vec<Vec<char>> = Vec::new();
        let mut vals: Vec<V> = Vec::new();
        let mut i: usize = 0;
        while i < self.keys.len()
            invariant
                self.wf(),
                i <= self.keys@.len(),
                keys@.len() == i,
                vals@ == self.vals@.subrange(0, i as int),
                keys@.map_values(|k: Vec<char>| k@) == self.key_seq().subrange(0, i as int),
            decreases self.keys@.len() - i,
        {
            let k = copy(&self.keys[i]);
            let ghost before = keys@.map_values(|k: Vec<char>| k@);
            keys.push(k);
            vals.push(self.vals[i]);
            assert(keys@.map_values(|k: Vec<char>| k@) =~= before.push(self.key_seq()[i as int]));
            assert(keys@.map_values(|k: Vec<char>| k@) =~= self.key_seq().subrange(0, i + 1));
            assert(vals@ =~= self.vals@.subrange(0, i + 1));
            i = i + 1;
        }
        let r = StrMap { keys, vals };
        assert(r.key_seq() =~= self.key_seq());
        assert(r.vals@ =~= self.vals@);
        r
    }

    /// An empty map.
    pub fn new() -> (m: Self)
        ensures
            m.wf(),
            m.view() == Map::<Seq<char>, V>::empty(),
            m.key_order() == Seq::<Seq<char>>::empty(),
    {
        let m = StrMap { keys: Vec::new(), vals: Vec::new() };
        assert(m.key_seq() =~= Seq::<Seq<char>>::empty());
        m
    }

    /// The number of keys.
    pub fn len(&self) -> (n: usize)
        requires
            self.wf(),
        ensures
            n == self.key_order().len(),
            n == self.view().dom().len(),
    {
        proof {
            self.lemma_dom();
        }
        self.keys.len()
    }

    /// The keys, in the order in which they were first inserted, are
    /// distinct and make up the domain of the map.
    pub proof fn lemma_dom(&self)
        requires
            self.wf(),
        ensures
            self.key_order().len() == self.val_order().len(),
            self.view().dom() == self.key_order().to_set(),
            self.view().dom().finite(),
            self.view().dom().len() == self.key_order().len(),
            forall|i: int| 0 <= i < self.key_order().len() ==> #[trigger] self.view()[self.key_order()[i]] == self.val_order()[i],
            self.key_order().no_duplicates(),
    {
        let ks = self.key_seq();
        assert forall|k: Seq<char>| self.view().dom().contains(k) <==> ks.contains(k) by {
            if ks.contains(k) {
                let i = choose|i: int| 0 <= i < ks.len() && ks[i] == k;
                lemma_entries_map_get(ks, self.vals@, ks.len() as int, i);
            } else {
                lemma_entries_map_dom(ks, self.vals@, ks.len() as int, k);
            }
        }
        assert(self.view().dom() =~= ks.to_set());
        assert forall|i: int| 0 <= i < ks.len() implies #[trigger] self.view()[ks[i]] == self.vals@[i] by {
            lemma_entries_map_get(ks, self.vals@, ks.len() as int, i);
        }
        assert(ks.no_duplicates());
        ks.unique_seq_to_set();
    }

    fn index_of(&self, key: &[char]) -> (r: Option<usize>)
        requires
            self.wf(),
        ensures
            r matches Some(i) ==> i < self.keys@.len() && self.key_seq()[i as int] == key@,
            r is None ==> !self.view().dom().contains(key@),
    {
        let mut i: usize = 0;
        while i < self.keys.len()
            invariant
                self.wf(),
                i <= self.keys@.len(),
                forall|j: int| 0 <= j < i ==> self.key_seq()[j] != key@,
            decreases self.keys@.len() - i,
        {
            if eq(&self.keys[i], key) {
                return Some(i);
            }
            i = i + 1;
        }
        proof {
            lemma_entries_map_dom(self.key_seq(), self.vals@, self.keys@.len() as int, key@);
        }
        None
    }

    /// The value stored under `key`.
    pub fn get(&self, key: &[char]) -> (r: Option<&V>)
        requires
            self.wf(),
        ensures
            r matches Some(v) ==> self.view().dom().contains(key@) && self.view()[key@] == *v,
            r is None ==> !self.view().dom().contains(key@),
    {
        match self.index_of(key) {
            Some(i) => {
                proof {
                    lemma_entries_map_get(self.key_seq(), self.vals@, self.keys@.len() as int, i as int);
                }
                Some(&self.vals[i])
            },
            None => None,
        }
    }

    /// The value stored under the string `key`.
    pub fn get_str(&self, key: &str) -> (r: Option<&V>)
        requires
            self.wf(),
        ensures
            r matches Some(v) ==> self.view().dom().contains(key@) && self.view()[key@] == *v,
            r is None ==> !self.view().dom().contains(key@),
    {
        let k = chars_of(key);
        self.get(&k)
    }

    /// Whether `key` is present.
    pub fn contains_key(&self, key: &[char]) -> (b: bool)
        requires
            self.wf(),
        ensures
            b == self.view().dom().contains(key@),
    {
        match self.index_of(key) {
            Some(i) => {
                proof {
                    lemma_entries_map_get(self.key_seq(), self.vals@, self.keys@.len() as int, i as int);
                }
                true
            },
            None => false,
        }
    }

    /// Stores `value` under `key`, replacing any earlier value.  A new key
    /// goes after all others.
    pub fn insert(&mut self, key: &[char], value: V)
        requires
            old(self).wf(),
        ensures
            final(self).wf(),
            final(self).view() == old(self).view().insert(key@, value),
            old(self).view().dom().contains(key@) ==> final(self).key_order() == old(self).key_order(),
            !old(self).view().dom().contains(key@) ==> final(self).key_order() == old(self).key_order().push(key@),
    {
        match self.index_of(key) {
            Some(i) => {
                proof {
                    lemma_entries_map_get(self.key_seq(), self.vals@, self.keys@.len() as int, i as int);
                    lemma_entries_map_update(self.key_seq(), self.vals@, self.keys@.len() as int, i as int, value);
                }
                self.vals.set(i, value);
            },
            None => {
                let ghost ks = self.key_seq();
                let ghost vs = self.vals@;
                let k = copy(key);
                self.keys.push(k);
                self.vals.push(value);
                proof {
                    assert(self.key_seq() =~= ks.push(key@));
                    lemma_entries_map_push(ks, vs, key@, value);
                    assert forall|i: int| 0 <= i < ks.len() implies ks[i] != key@ by {
                        if ks[i] == key@ {
                            lemma_entries_map_get(ks, vs, ks.len() as int, i);
                        }
                    }
                    assert(distinct_keys(self.key_seq()));
                }
            },
        }
    }

    /// A mutable reference to the value stored under `key`.
    pub fn get_mut(&mut self, key: &[char]) -> (r: Option<&mut V>)
        requires
            old(self).wf(),
        ensures
            r is None ==> !old(self).view().dom().contains(key@) && *final(self) == *old(self),
            r matches Some(v) ==> {
                &&& old(self).view().dom().contains(key@)
                &&& *v == old(self).view()[key@]
                &&& final(self).wf()
                &&& final(self).view() == old(self).view().insert(key@, *final(v))
                &&& final(self).key_order() == old(self).key_order()
            },
    {
        match self.index_of(key) {
            Some(i) => {
                proof {
                    lemma_entries_map_get(self.key_seq(), self.vals@, self.keys@.len() as int, i as int);
                }
                let ghost ks = self.key_seq();
                let ghost vs = self.vals@;
                let ghost n = self.keys@.len() as int;
                let r = &mut self.vals[i];
                proof {
                    lemma_entries_map_update(ks, vs, n, i as int, *final(r));
                }
                Some(r)
            },
            None => None,
        }
    }

    /// The key at position `i` of `key_order`.
    pub fn key_at(&self, i: usize) -> (k: &Vec<char>)
        requires
            self.wf(),
            i < self.key_order().len(),
        ensures
            k@ == self.key_order()[i as int],
    {
        &self.keys[i]
    }

    /// The value at position `i` of `val_order`.
    pub fn val_at(&self, i: usize) -> (v: &V)
        requires
            self.wf(),
            i < self.key_order().len(),
        ensures
            *v == self.val_order()[i as int],
    {
        &self.vals[i]
    }
}

} // verus!
