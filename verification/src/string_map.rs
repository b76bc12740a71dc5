//! A verified association list keyed by strings, the in-memory form of every
//! small string-keyed catalog the host persists (model configurations and the
//! like): insertion order is kept, keys are unique, and the view is the map
//! the entries denote.

use vstd::prelude::*;

verus! {

/// One entry of a string-keyed catalog.
pub struct StringMapEntry<V> {
    pub key: String,
    pub value: V,
}

/// The map an entry sequence denotes.
pub open spec fn entries_map<V>(s: Seq<StringMapEntry<V>>) -> Map<Seq<char>, V>
    decreases s.len(),
{
    if s.len() == 0 {
        Map::<Seq<char>, V>::empty()
    } else {
        entries_map(s.drop_last()).insert(s.last().key@, s.last().value)
    }
}

/// No key occurs twice in `s`.
pub open spec fn unique_keys<V>(s: Seq<StringMapEntry<V>>) -> bool {
    forall|i: int, j: int| 0 <= i < j < s.len() ==> s[i].key@ != s[j].key@
}

pub proof fn lemma_entries_contains<V>(s: Seq<StringMapEntry<V>>, k: Seq<char>)
    ensures
        entries_map(s).contains_key(k) <==> exists|i: int| 0 <= i < s.len() && s[i].key@ == k,
    decreases s.len(),
{
    if s.len() > 0 {
        lemma_entries_contains(s.drop_last(), k);
        if entries_map(s).contains_key(k) {
            if s.last().key@ == k {
                assert(s[s.len() - 1].key@ == k);
            } else {
                let i = choose|i: int| 0 <= i < s.drop_last().len() && s.drop_last()[i].key@ == k;
                assert(s[i].key@ == k);
            }
        }
        if exists|i: int| 0 <= i < s.len() && s[i].key@ == k {
            let i = choose|i: int| 0 <= i < s.len() && s[i].key@ == k;
            if i < s.len() - 1 {
                assert(s.drop_last()[i].key@ == k);
            }
        }
    }
}

pub proof fn lemma_entries_index<V>(s: Seq<StringMapEntry<V>>, i: int)
    requires
        unique_keys(s),
        0 <= i < s.len(),
    ensures
        entries_map(s).contains_key(s[i].key@),
        entries_map(s)[s[i].key@] == s[i].value,
    decreases s.len(),
{
    if i == s.len() - 1 {
        assert(s.last() == s[i]);
    } else {
        assert(unique_keys(s.drop_last()));
        assert(s.drop_last()[i] == s[i]);
        lemma_entries_index(s.drop_last(), i);
        assert(s[i].key@ != s.last().key@);
    }
}

proof fn lemma_entries_remove<V>(s: Seq<StringMapEntry<V>>, idx: int)
    requires
        unique_keys(s),
        0 <= idx < s.len(),
    ensures
        entries_map(s.remove(idx)) == entries_map(s).remove(s[idx].key@),
    decreases s.len(),
{
    let id = s[idx].key@;
    if idx == s.len() - 1 {
        assert(s.remove(idx) =~= s.drop_last());
        assert(!entries_map(s.drop_last()).contains_key(id)) by {
            lemma_entries_contains(s.drop_last(), id);
            if entries_map(s.drop_last()).contains_key(id) {
                let i = choose|i: int| 0 <= i < s.drop_last().len() && s.drop_last()[i].key@ == id;
                assert(s[i].key@ == id);
            }
        }
        assert(entries_map(s).remove(id) =~= entries_map(s.drop_last()));
    } else {
        assert(unique_keys(s.drop_last()));
        assert(s.remove(idx).drop_last() =~= s.drop_last().remove(idx));
        assert(s.remove(idx).last() == s.last());
        assert(s.drop_last()[idx] == s[idx]);
        lemma_entries_remove(s.drop_last(), idx);
        assert(id != s.last().key@);
        assert(entries_map(s.drop_last()).remove(id).insert(s.last().key@, s.last().value)
            =~= entries_map(s.drop_last()).insert(s.last().key@, s.last().value).remove(id));
    }
}

/// A string-keyed catalog with unique keys, kept in insertion order.
pub struct StringMap<V> {
    entries: Vec<StringMapEntry<V>>,
}

impl<V> View for StringMap<V> {
    type V = Map<Seq<char>, V>;

    closed spec fn view(&self) -> Map<Seq<char>, V> {
        entries_map(self.entries@)
    }
}

impl<V> StringMap<V> {
    /// The entries in insertion order; `view` is the map they denote.
    pub closed spec fn order(&self) -> Seq<StringMapEntry<V>> {
        self.entries@
    }

    /// No key occurs twice; every operation preserves this.
    pub closed spec fn wf(&self) -> bool {
        unique_keys(self.entries@)
    }

    /// An empty catalog.
    pub fn new() -> (r: Self)
        ensures
            r.wf(),
            r@ == Map::<Seq<char>, V>::empty(),
            r.order() == Seq::<StringMapEntry<V>>::empty(),
    {
        let r = StringMap { entries: Vec::new() };
        proof {
            assert(r.entries@ =~= Seq::<StringMapEntry<V>>::empty());
        }
        r
    }

    /// How many entries the catalog holds.
    pub fn len(&self) -> (r: usize)
        ensures
            r == self.order().len(),
    {
        self.entries.len()
    }

    /// The index holding `key`, if any.
    fn find_index(&self, key: &str) -> (r: Option<usize>)
        ensures
            match r {
                Some(i) => i < self.order().len() && self.order()[i as int].key@ == key@,
                None => forall|i: int|
                    0 <= i < self.order().len() ==> (#[trigger] self.order()[i]).key@ != key@,
            },
    {
        let n: usize = self.entries.len();
        let mut i: usize = 0;
        while i < n
            invariant
                n == self.entries@.len(),
                i <= n,
                forall|j: int| 0 <= j < i ==> (#[trigger] self.entries@[j]).key@ != key@,
            decreases n - i,
        {
            if crate::text::str_eq(self.entries[i].key.as_str(), key) {
                return Some(i);
            }
            i = i + 1;
        }
        None
    }

    /// Whether `key` is present.
    pub fn contains(&self, key: &str) -> (r: bool)
        ensures
            r == self@.contains_key(key@),
    {
        proof {
            lemma_entries_contains(self.order(), key@);
        }
        match self.find_index(key) {
            Some(_) => true,
            None => false,
        }
    }

    /// The value under `key`, if any.
    pub fn get(&self, key: &str) -> (r: Option<&V>)
        requires
            self.wf(),
        ensures
            r is Some <==> self@.contains_key(key@),
            r matches Some(v) ==> self@.contains_key(key@) && *v == self@[key@],
    {
        proof {
            lemma_entries_contains(self.order(), key@);
        }
        match self.find_index(key) {
            Some(i) => {
                proof {
                    lemma_entries_index(self.order(), i as int);
                }
                Some(&self.entries[i].value)
            },
            None => None,
        }
    }

    /// Removes `key`; removing an absent key changes nothing.
    pub fn remove(&mut self, key: &str)
        requires
            old(self).wf(),
        ensures
            final(self).wf(),
            final(self)@ == old(self)@.remove(key@),
    {
        proof {
            lemma_entries_contains(self.order(), key@);
        }
        match self.find_index(key) {
            Some(i) => {
                let ghost olds = self.entries@;
                proof {
                    lemma_entries_remove(olds, i as int);
                }
                self.entries.remove(i);
                proof {
                    assert(unique_keys(self.entries@)) by {
                        assert(forall|a: int, b: int|
                            0 <= a < b < self.entries@.len() ==> self.entries@[a].key@
                                != self.entries@[b].key@);
                    }
                }
            },
            None => {
                proof {
                    if !self@.contains_key(key@) {
                        assert(self@.remove(key@) =~= self@);
                    }
                }
            },
        }
    }

    /// Stores `value` under `key`, replacing any previous value.
    pub fn insert(&mut self, key: String, value: V)
        requires
            old(self).wf(),
        ensures
            final(self).wf(),
            final(self)@ == old(self)@.insert(key@, value),
    {
        let ghost oldmap = self@;
        let ghost k = key@;
        self.remove(key.as_str());
        let ghost mids = self.entries@;
        self.entries.push(StringMapEntry { key, value });
        proof {
        let ghost v = self.entries@.last().value;
            assert(self.entries@.drop_last() =~= mids);
            assert(self@ == entries_map(mids).insert(k, v));
            assert(self@ =~= oldmap.insert(k, v));
            assert(unique_keys(self.entries@)) by {
                assert forall|i: int|
                    0 <= i < mids.len() implies (#[trigger] mids[i]).key@ != k by {
                    if mids[i].key@ == k {
                        lemma_entries_contains(mids, k);
                        assert(entries_map(mids).contains_key(k));
                    }
                }
                assert(forall|i: int, j: int|
                    0 <= i < j < self.entries@.len() ==> self.entries@[i].key@
                        != self.entries@[j].key@);
            }
        }
    }

    /// The first key in insertion order, if any; it is always a key of the
    /// map.
    pub fn first_key(&self) -> (r: Option<&String>)
        ensures
            self.order().len() == 0 <==> r is None,
            r matches Some(k) ==> self.order().len() > 0 && k@ == self.order()[0].key@
                && self@.contains_key(k@),
    {
        if self.entries.len() > 0 {
            proof {
                lemma_entries_contains(self.entries@, self.entries@[0].key@);
            }
            Some(&self.entries[0].key)
        } else {
            None
        }
    }

    /// The keys, in insertion order.
    pub fn keys(&self) -> (r: Vec<String>)
        ensures
            r@.len() == self.order().len(),
            forall|i: int| 0 <= i < r@.len() ==> (#[trigger] r@[i])@ == self.order()[i].key@,
    {
        let n: usize = self.entries.len();
        let mut out: Vec<String> = Vec::new();
        let mut i: usize = 0;
        while i < n
            invariant
                n == self.entries@.len(),
                i <= n,
                out@.len() == i,
                forall|j: int| 0 <= j < i ==> (#[trigger] out@[j])@ == self.entries@[j].key@,
            decreases n - i,
        {
            out.push(self.entries[i].key.clone());
            i = i + 1;
        }
        out
    }

    /// The entry at position `i` of the insertion order.
    pub fn entry_at(&self, i: usize) -> (r: (&String, &V))
        requires
            i < self.order().len(),
        ensures
            r.0@ == self.order()[i as int].key@,
            *r.1 == self.order()[i as int].value,
    {
        (&self.entries[i].key, &self.entries[i].value)
    }
}

} // verus!
