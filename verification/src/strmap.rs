//! Ordered collections of strings: a map from strings to strings and a set
//! of strings, both kept sorted by key in the order of [`seq_lt`].

use vstd::prelude::*;

use crate::text::{compare_str, lemma_seq_lt_irreflexive, lemma_seq_lt_transitive, seq_lt, Cmp};

verus! {

/// Whether a sequence of keys is strictly increasing.
pub open spec fn strictly_sorted(keys: Seq<Seq<char>>) -> bool {
    forall|i: int, j: int| 0 <= i < j < keys.len() ==> seq_lt(#[trigger] keys[i], #[trigger] keys[j])
}

/// Strictly increasing keys are pairwise distinct.
pub proof fn lemma_sorted_distinct(keys: Seq<Seq<char>>, i: int, j: int)
    requires
        strictly_sorted(keys),
        0 <= i < keys.len(),
        0 <= j < keys.len(),
        i != j,
    ensures
        keys[i] != keys[j],
{
    if i < j {
        assert(seq_lt(keys[i], keys[j]));
        lemma_seq_lt_irreflexive(keys[i]);
    } else {
        assert(seq_lt(keys[j], keys[i]));
        lemma_seq_lt_irreflexive(keys[j]);
    }
}

/// A map from strings to strings that keeps its entries sorted by key.
#[derive(Debug)]
pub struct StringMap {
    entries: Vec<(String, String)>,
}

impl StringMap {
    /// The keys, in increasing order.
    pub closed spec fn key_list(&self) -> Seq<Seq<char>> {
        Seq::new(self.entries@.len(), |i: int| self.entries@[i].0@)
    }

    closed spec fn value_list(&self) -> Seq<Seq<char>> {
        Seq::new(self.entries@.len(), |i: int| self.entries@[i].1@)
    }

    #[verifier::type_invariant]
    closed spec fn sorted(&self) -> bool {
        strictly_sorted(self.key_list())
    }

    closed spec fn index_of(&self, k: Seq<char>) -> int {
        choose|i: int| 0 <= i < self.key_list().len() && self.key_list()[i] == k
    }

    /// The entries as a mathematical map.
    pub closed spec fn as_map(&self) -> Map<Seq<char>, Seq<char>> {
        Map::new(
            |k: Seq<char>| self.key_list().contains(k),
            |k: Seq<char>| self.value_list()[self.index_of(k)],
        )
    }

    proof fn lemma_key_list(&self)
        requires
            strictly_sorted(self.key_list()),
        ensures
            strictly_sorted(self.key_list()),
            self.key_list().no_duplicates(),
            self.key_list().to_set() == self@.dom(),
            self.key_list().len() == self@.dom().len(),
    {
        let ks = self.key_list();
        assert forall|i: int, j: int| 0 <= i < ks.len() && 0 <= j < ks.len() && i != j implies ks[i]
            != ks[j] by {
            lemma_sorted_distinct(ks, i, j);
        }
        assert(ks.to_set() =~= self@.dom());
        ks.unique_seq_to_set();
    }

    proof fn lemma_lookup(&self, i: int)
        requires
            strictly_sorted(self.key_list()),
            0 <= i < self.entries@.len(),
        ensures
            self@.contains_key(self.entries@[i].0@),
            self@[self.entries@[i].0@] == self.entries@[i].1@,
    {
        let k = self.entries@[i].0@;
        assert(self.key_list()[i] == k);
        let j = self.index_of(k);
        if j != i {
            lemma_sorted_distinct(self.key_list(), i, j);
        }
    }

    /// An empty map.
    pub fn new() -> (m: Self)
        ensures
            m@ == Map::<Seq<char>, Seq<char>>::empty(),
    {
        let m = StringMap { entries: Vec::new() };
        assert(m@ =~= Map::<Seq<char>, Seq<char>>::empty());
        m
    }

    /// Number of entries.
    pub fn len(&self) -> (n: usize)
        ensures
            n == self@.len(),
    {
        proof {
            use_type_invariant(self);
            self.lemma_key_list();
        }
        self.entries.len()
    }

    /// Position of the first key that is not below `k`, and whether that key
    /// is `k`.
    fn locate(&self, k: &str) -> (r: (usize, bool))
        ensures
            r.0 <= self.key_list().len(),
            forall|j: int| 0 <= j < r.0 ==> seq_lt(#[trigger] self.key_list()[j], k@),
            r.1 ==> r.0 < self.key_list().len() && self.key_list()[r.0 as int] == k@,
            !r.1 ==> r.0 < self.key_list().len() ==> seq_lt(k@, self.key_list()[r.0 as int]),
    {
        let mut i: usize = 0;
        while i < self.entries.len()
            invariant
                i <= self.entries@.len(),
                forall|j: int| 0 <= j < i ==> seq_lt(#[trigger] self.key_list()[j], k@),
            decreases self.entries@.len() - i,
        {
            match compare_str(self.entries[i].0.as_str(), k) {
                Cmp::Less => {},
                Cmp::Equal => {
                    return (i, true);
                },
                Cmp::Greater => {
                    return (i, false);
                },
            }
            i = i + 1;
        }
        (i, false)
    }

    /// Whether `k` is a key.
    pub fn contains_key(&self, k: &str) -> (b: bool)
        ensures
            b == self@.contains_key(k@),
    {
        proof {
            use_type_invariant(self);
        }
        let (i, found) = self.locate(k);
        proof {
            if found {
                self.lemma_lookup(i as int);
            } else if self@.contains_key(k@) {
                let j = self.index_of(k@);
                if j < i {
                    lemma_seq_lt_irreflexive(k@);
                } else if j > i {
                    assert(seq_lt(self.key_list()[i as int], self.key_list()[j]));
                    lemma_seq_lt_transitive(k@, self.key_list()[i as int], k@);
                    lemma_seq_lt_irreflexive(k@);
                } else {
                    lemma_seq_lt_irreflexive(k@);
                }
            }
        }
        found
    }

    /// The value stored under `k`, if any.
    pub fn get(&self, k: &str) -> (r: Option<&String>)
        ensures
            match r {
                Some(v) => self@.contains_key(k@) && v@ == self@[k@],
                None => !self@.contains_key(k@),
            },
    {
        let found = self.contains_key(k);
        if found {
            let (i, _) = self.locate(k);
            proof {
                use_type_invariant(self);
                if i >= self.entries@.len() || self.key_list()[i as int] != k@ {
                    let j = self.index_of(k@);
                    if j < i {
                        lemma_seq_lt_irreflexive(k@);
                    } else if i < self.entries@.len() {
                        if j > i {
                            assert(seq_lt(self.key_list()[i as int], self.key_list()[j]));
                            lemma_seq_lt_transitive(k@, self.key_list()[i as int], k@);
                        }
                        lemma_seq_lt_irreflexive(k@);
                    }
                }
                self.lemma_lookup(i as int);
            }
            Some(&self.entries[i].1)
        } else {
            None
        }
    }

    /// Stores `v` under `k`, replacing what `k` held before.
    pub fn insert(&mut self, k: String, v: String)
        ensures
            final(self)@ == old(self)@.insert(k@, v@),
    {
        proof {
            use_type_invariant(&*self);
        }
        let (i, found) = self.locate(k.as_str());
        let ghost old_self = *self;
        let ghost kv = k@;
        let ghost vv = v@;
        let ghost old_keys = self.key_list();
        let ghost old_vals = self.value_list();
        assert(strictly_sorted(old_keys));
        let mut entries: Vec<(String, String)> = Vec::new();
        std::mem::swap(&mut entries, &mut self.entries);
        assert(entries@ == old_self.entries@);
        if found {
            entries.set(i, (k, v));
        } else {
            entries.insert(i, (k, v));
        }
        let ghost new_keys = Seq::new(entries@.len(), |j: int| entries@[j].0@);
        let ghost new_vals = Seq::new(entries@.len(), |j: int| entries@[j].1@);
        proof {
            if found {
                assert(new_keys =~= old_keys);
                assert(new_vals =~= old_vals.update(i as int, vv));
            } else {
                assert(new_keys =~= old_keys.insert(i as int, kv));
                assert(new_vals =~= old_vals.insert(i as int, vv));
                let ks = new_keys;
                assert forall|a: int, b: int| 0 <= a < b < ks.len() implies seq_lt(
                    #[trigger] ks[a],
                    #[trigger] ks[b],
                ) by {
                    if a < i && b == i {
                    } else if a < i && b > i {
                        assert(ks[b] == old_keys[b - 1]);
                        assert(seq_lt(old_keys[a], old_keys[b - 1]) || a == b - 1);
                    } else if a == i {
                        assert(ks[b] == old_keys[b - 1]);
                        if b - 1 > i {
                            assert(seq_lt(old_keys[i as int], old_keys[b - 1]));
                            lemma_seq_lt_transitive(kv, old_keys[i as int], old_keys[b - 1]);
                        }
                    } else if a > i {
                        assert(ks[a] == old_keys[a - 1]);
                        assert(ks[b] == old_keys[b - 1]);
                    }
                }
            }
        }
        self.entries = entries;
        proof {
            assert(self.key_list() == new_keys);
            assert(self.value_list() == new_vals);
        }
        proof {
            use_type_invariant(&*self);
            let m = old_self@.insert(kv, vv);
            assert forall|key: Seq<char>| #[trigger] self@.contains_key(key) <==> m.contains_key(
                key,
            ) by {
                if self@.contains_key(key) && key != kv {
                    let j = choose|j: int| 0 <= j < self.key_list().len() && self.key_list()[j] == key;
                    if found {
                        assert(old_keys[j] == key);
                    } else if j < i {
                        assert(old_keys[j] == key);
                    } else {
                        assert(old_keys[j - 1] == key);
                    }
                }
                if m.contains_key(key) && key != kv {
                    let j = choose|j: int| 0 <= j < old_keys.len() && old_keys[j] == key;
                    if found || j < i {
                        assert(self.key_list()[j] == key);
                    } else {
                        assert(self.key_list()[j + 1] == key);
                    }
                }
                if key == kv {
                    assert(self.key_list()[i as int] == kv);
                }
            }
            assert forall|key: Seq<char>| #[trigger] self@.contains_key(key) implies self@[key]
                == m[key] by {
                let j = self.index_of(key);
                assert(self.key_list().contains(key));
                assert(0 <= j < new_keys.len() && new_keys[j] == key);
                self.lemma_lookup(j);
                assert(self@[key] == new_vals[j]);
                if key == kv {
                    if j != i {
                        lemma_sorted_distinct(new_keys, i as int, j);
                    }
                } else {
                    let oj = if found || j < i { j } else { j - 1 };
                    assert(old_keys[oj] == key);
                    old_self.lemma_lookup(oj);
                    assert(new_vals[j] == old_vals[oj]);
                }
            }
            assert(self@ =~= m);
        }
    }

    /// The keys in increasing order.
    pub fn keys(&self) -> (r: Vec<String>)
        ensures
            r@.map_values(|s: String| s@) == self.key_list(),
            strictly_sorted(self.key_list()),
            self.key_list().no_duplicates(),
            self.key_list().to_set() == self@.dom(),
            self.key_list().len() == self@.dom().len(),
    {
        proof {
            use_type_invariant(self);
            self.lemma_key_list();
        }
        let mut r: Vec<String> = Vec::new();
        let mut i: usize = 0;
        while i < self.entries.len()
            invariant
                i <= self.entries@.len(),
                r@.map_values(|s: String| s@) == self.key_list().take(i as int),
            decreases self.entries@.len() - i,
        {
            r.push(self.entries[i].0.clone());
            assert(self.key_list().take(i + 1) =~= self.key_list().take(i as int).push(
                self.key_list()[i as int],
            ));
            assert(r@.map_values(|s: String| s@) =~= self.key_list().take(i as int).push(
                self.key_list()[i as int],
            ));
            i = i + 1;
        }
        assert(self.key_list().take(i as int) =~= self.key_list());
        r
    }
}

impl StringMap {
    /// A copy of the map.
    pub fn duplicate(&self) -> (r: Self)
        ensures
            r@ == self@,
    {
        proof {
            use_type_invariant(self);
        }
        let mut entries: Vec<(String, String)> = Vec::new();
        let mut i: usize = 0;
        while i < self.entries.len()
            invariant
                i <= self.entries@.len(),
                entries@.len() == i,
                forall|j: int| 0 <= j < i ==> (#[trigger] entries@[j]).0@ == self.entries@[j].0@
                    && entries@[j].1@ == self.entries@[j].1@,
            decreases self.entries@.len() - i,
        {
            let k = self.entries[i].0.clone();
            let v = self.entries[i].1.clone();
            entries.push((k, v));
            i = i + 1;
        }
        assert(Seq::new(entries@.len(), |j: int| entries@[j].0@) =~= self.key_list());
        let r = StringMap { entries };
        assert(r.key_list() =~= self.key_list());
        assert(r.value_list() =~= self.value_list());
        assert(r@ =~= self@);
        r
    }
}

impl StringMap {
    /// The set of keys.
    pub fn key_set(&self) -> (s: StringSet)
        ensures
            s@ == self@.dom(),
            s.sorted_members() == self.key_list(),
    {
        proof {
            use_type_invariant(self);
        }
        let mut entries: Vec<(String, String)> = Vec::new();
        let mut i: usize = 0;
        while i < self.entries.len()
            invariant
                i <= self.entries@.len(),
                entries@.len() == i,
                forall|j: int| 0 <= j < i ==> (#[trigger] entries@[j]).0@ == self.entries@[j].0@
                    && entries@[j].1@ == Seq::<char>::empty(),
            decreases self.entries@.len() - i,
        {
            let k = self.entries[i].0.clone();
            entries.push((k, String::new()));
            i = i + 1;
        }
        assert(Seq::new(entries@.len(), |j: int| entries@[j].0@) =~= self.key_list());
        let m = StringMap { entries };
        assert(m.key_list() =~= self.key_list());
        assert(m@.dom() =~= self@.dom());
        StringSet { members: m }
    }
}

/// A set of strings, kept in increasing order.
#[derive(Debug)]
pub struct StringSet {
    members: StringMap,
}

impl View for StringSet {
    type V = Set<Seq<char>>;

    closed spec fn view(&self) -> Set<Seq<char>> {
        self.members@.dom()
    }
}

impl StringSet {
    /// The members in increasing order.
    pub closed spec fn sorted_members(&self) -> Seq<Seq<char>> {
        self.members.key_list()
    }

    /// An empty set.
    pub fn new() -> (s: Self)
        ensures
            s@ == Set::<Seq<char>>::empty(),
    {
        let s = StringSet { members: StringMap::new() };
        assert(s@ =~= Set::<Seq<char>>::empty());
        s
    }

    /// Adds `k`.
    pub fn insert(&mut self, k: String)
        ensures
            final(self)@ == old(self)@.insert(k@),
    {
        self.members.insert(k, String::new());
        assert(self@ =~= old(self)@.insert(k@));
    }

    /// Whether `k` is a member.
    pub fn contains(&self, k: &str) -> (b: bool)
        ensures
            b == self@.contains(k@),
    {
        self.members.contains_key(k)
    }

    /// Number of members.
    pub fn len(&self) -> (n: usize)
        ensures
            n == self@.len(),
    {
        self.members.len()
    }

    /// The set of the strings in `items`.
    pub fn from_strings(items: &Vec<String>) -> (s: Self)
        ensures
            s@ == items@.map_values(|x: String| x@).to_set(),
    {
        let ghost views = items@.map_values(|x: String| x@);
        let mut s = StringSet::new();
        let mut i: usize = 0;
        while i < items.len()
            invariant
                i <= items.len(),
                views == items@.map_values(|x: String| x@),
                s@ == views.take(i as int).to_set(),
            decreases items.len() - i,
        {
            s.insert(items[i].clone());
            assert(views.take(i + 1) == views.take(i as int).push(views[i as int]));
            proof { views.take(i as int).lemma_push_to_set_commute(views[i as int]); }
            i = i + 1;
        }
        assert(views.take(items.len() as int) == views);
        s
    }

    /// The members in increasing order.
    pub fn to_sorted_vec(&self) -> (r: Vec<String>)
        ensures
            r@.map_values(|x: String| x@) == self.sorted_members(),
            strictly_sorted(self.sorted_members()),
            self.sorted_members().no_duplicates(),
            self.sorted_members().to_set() == self@,
    {
        self.members.keys()
    }
}

impl View for StringMap {
    type V = Map<Seq<char>, Seq<char>>;

    open spec fn view(&self) -> Map<Seq<char>, Seq<char>> {
        self.as_map()
    }
}

} // verus!
