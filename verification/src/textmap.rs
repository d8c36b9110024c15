//! A map keyed by text, kept as a list of distinct keys in insertion order.
//!
//! Its view is a `Map` from the key's characters to the value; the type
//! invariant `wf` ties the list to that map and says that no key occurs twice.

use vstd::prelude::*;
use crate::text::str_eq;

verus! {

/// A finite map from strings to `V`.
pub struct TextMap<V> {
    entries: Vec<(String, V)>,
    model: Ghost<Map<Seq<char>, V>>,
}

impl<V> View for TextMap<V> {
    type V = Map<Seq<char>, V>;

    closed spec fn view(&self) -> Map<Seq<char>, V> {
        self.model@
    }
}

impl<V> TextMap<V> {
    /// The stored entries, in order.
    pub closed spec fn entry_seq(&self) -> Seq<(String, V)> {
        self.entries@
    }

    /// `entries` holds each key once, and exactly the bindings of `model`.
    spec fn consistent(entries: Seq<(String, V)>, model: Map<Seq<char>, V>) -> bool {
        &&& forall|i: int, j: int|
            0 <= i < j < entries.len() ==> (#[trigger] entries[i]).0@ != (#[trigger] entries[j]).0@
        &&& forall|i: int|
            0 <= i < entries.len() ==> model.contains_key((#[trigger] entries[i]).0@) && model[entries[i].0@]
                == entries[i].1
        &&& forall|k: Seq<char>|
            #[trigger] model.contains_key(k) ==> exists|i: int| 0 <= i < entries.len() && (#[trigger] entries[i]).0@ == k
    }

    /// The list holds each key once, and exactly the bindings of the view.
    #[verifier::type_invariant]
    spec fn wf(&self) -> bool {
        Self::consistent(self.entries@, self.model@)
    }

    /// An empty map.
    pub fn new() -> (m: Self)
        ensures
            m@ == Map::<Seq<char>, V>::empty(),
    {
        TextMap { entries: Vec::new(), model: Ghost(Map::empty()) }
    }

    /// Number of bindings.
    pub fn len(&self) -> (n: usize)
        ensures
            n == self@.dom().len(),
    {
        proof {
            use_type_invariant(self);
        }
        proof {
            self.lemma_dom_len();
        }
        self.entries.len()
    }

    proof fn lemma_dom_len(&self)
        requires
            self.wf(),
        ensures
            self@.dom().finite(),
            self@.dom().len() == self.entries@.len(),
        decreases self.entries@.len(),
    {
        let keys = self.entries@.map_values(|e: (String, V)| e.0@);
        assert forall|i: int, j: int| 0 <= i < j < keys.len() implies keys[i] != keys[j] by {
            assert(self.entries@[i].0@ != self.entries@[j].0@);
        }
        assert(keys.no_duplicates());
        keys.unique_seq_to_set();
        assert(keys.to_set() =~= self@.dom()) by {
            assert forall|k: Seq<char>| keys.to_set().contains(k) implies self@.dom().contains(k) by {
                let i = choose|i: int| 0 <= i < keys.len() && keys[i] == k;
                assert(self.entries@[i].0@ == k);
            }
            assert forall|k: Seq<char>| self@.dom().contains(k) implies keys.to_set().contains(k) by {
                assert(self.model@.contains_key(k));
                let i = choose|i: int| 0 <= i < self.entries@.len() && (#[trigger] self.entries@[i]).0@ == k;
                assert(keys[i] == k);
            }
        }
    }

    fn index_of(&self, key: &str) -> (r: Option<usize>)
        ensures
            match r {
                Some(i) => i < self.entries@.len() && self.entries@[i as int].0@ == key@,
                None => !self@.contains_key(key@),
            },
    {
        proof {
            use_type_invariant(self);
        }
        let n = self.entries.len();
        let mut i: usize = 0;
        while i < n
            invariant
                i <= n,
                n == self.entries@.len(),
                self.wf(),
                forall|k: int| 0 <= k < i ==> (#[trigger] self.entries@[k]).0@ != key@,
            decreases n - i,
        {
            if str_eq(self.entries[i].0.as_str(), key) {
                return Some(i);
            }
            i = i + 1;
        }
        proof {
            if self@.contains_key(key@) {
                let j = choose|j: int| 0 <= j < self.entries@.len() && (#[trigger] self.entries@[j]).0@ == key@;
                assert(self.entries@[j].0@ != key@);
            }
        }
        None
    }

    /// Whether `key` is bound.
    pub fn contains_key(&self, key: &str) -> (b: bool)
        ensures
            b == self@.contains_key(key@),
    {
        proof {
            use_type_invariant(self);
        }
        match self.index_of(key) {
            Some(i) => {
                assert(self@.contains_key(self.entries@[i as int].0@));
                true
            },
            None => false,
        }
    }

    /// The value bound to `key`, if any.
    pub fn get(&self, key: &str) -> (r: Option<&V>)
        ensures
            match r {
                Some(v) => self@.contains_key(key@) && *v == self@[key@],
                None => !self@.contains_key(key@),
            },
    {
        proof {
            use_type_invariant(self);
        }
        match self.index_of(key) {
            Some(i) => {
                assert(self@.contains_key(self.entries@[i as int].0@));
                Some(&self.entries[i].1)
            },
            None => None,
        }
    }

    /// Binds `key` to `value`, replacing any earlier binding of `key`.
    pub fn insert(&mut self, key: String, value: V)
        ensures
            final(self)@ == old(self)@.insert(key@, value),
    {
        proof {
            use_type_invariant(&*self);
        }
        let ghost k = key@;
        let ghost new_model = self.model@.insert(k, value);
        let pos = self.index_of(key.as_str());
        let mut taken = TextMap::new();
        std::mem::swap(&mut taken, self);
        let TextMap { mut entries, model: _ } = taken;
        let ghost old_entries = entries@;
        match pos {
            Some(i) => {
                entries.set(i, (key, value));
                assert forall|a: int, b: int| 0 <= a < b < entries@.len() implies (
                #[trigger] entries@[a]).0@ != (#[trigger] entries@[b]).0@ by {
                    assert(old_entries[a].0@ != old_entries[b].0@);
                }
                assert forall|a: int| 0 <= a < entries@.len() implies new_model.contains_key(
                    (#[trigger] entries@[a]).0@) && new_model[entries@[a].0@] == entries@[a].1 by {
                    if a != i {
                        assert(old_entries[a].0@ != old_entries[i as int].0@);
                    }
                }
                assert forall|q: Seq<char>| #[trigger] new_model.contains_key(q) implies exists|a: int|
                    0 <= a < entries@.len() && (#[trigger] entries@[a]).0@ == q by {
                    if q == k {
                        assert(entries@[i as int].0@ == q);
                    } else {
                        let a = choose|a: int| 0 <= a < old_entries.len() && (#[trigger] old_entries[a]).0@ == q;
                        assert(entries@[a].0@ == q);
                    }
                }
            },
            None => {
                entries.push((key, value));
                let ghost last = old_entries.len() as int;
                assert forall|a: int, b: int| 0 <= a < b < entries@.len() implies (
                #[trigger] entries@[a]).0@ != (#[trigger] entries@[b]).0@ by {
                    if b == last {
                        assert(old_entries[a] == entries@[a]);
                    } else {
                        assert(old_entries[a].0@ != old_entries[b].0@);
                    }
                }
                assert forall|a: int| 0 <= a < entries@.len() implies new_model.contains_key(
                    (#[trigger] entries@[a]).0@) && new_model[entries@[a].0@] == entries@[a].1 by {
                    if a != last {
                        assert(old_entries[a] == entries@[a]);
                        assert(old_entries[a].0@ != k);
                    }
                }
                assert forall|q: Seq<char>| #[trigger] new_model.contains_key(q) implies exists|a: int|
                    0 <= a < entries@.len() && (#[trigger] entries@[a]).0@ == q by {
                    if q == k {
                        assert(entries@[last].0@ == q);
                    } else {
                        let a = choose|a: int| 0 <= a < old_entries.len() && (#[trigger] old_entries[a]).0@ == q;
                        assert(entries@[a].0@ == q);
                    }
                }
            },
        }
        assert(Self::consistent(entries@, new_model));
        *self = TextMap { entries, model: Ghost(new_model) };
    }

    /// Removes the binding of `key`, handing back its value.
    pub fn remove(&mut self, key: &str) -> (r: Option<V>)
        ensures
            final(self)@ == old(self)@.remove(key@),
            match r {
                Some(v) => old(self)@.contains_key(key@) && v == old(self)@[key@],
                None => !old(self)@.contains_key(key@),
            },
    {
        proof {
            use_type_invariant(&*self);
        }
        match self.index_of(key) {
            Some(i) => {
                let ghost old_model = self.model@;
                let ghost k = key@;
                let ghost new_model = old_model.remove(k);
                let mut taken = TextMap::new();
                std::mem::swap(&mut taken, self);
                let TextMap { mut entries, model: _ } = taken;
                let ghost old_entries = entries@;
                let (_, v) = entries.remove(i);
                assert(old_model.contains_key(old_entries[i as int].0@));
                assert(entries@ =~= old_entries.remove(i as int));
                assert forall|a: int, b: int| 0 <= a < b < entries@.len() implies (
                #[trigger] entries@[a]).0@ != (#[trigger] entries@[b]).0@ by {
                    let oa = if a < i { a } else { a + 1 };
                    let ob = if b < i { b } else { b + 1 };
                    assert(old_entries[oa].0@ != old_entries[ob].0@);
                }
                assert forall|a: int| 0 <= a < entries@.len() implies new_model.contains_key(
                    (#[trigger] entries@[a]).0@) && new_model[entries@[a].0@] == entries@[a].1 by {
                    let oa = if a < i { a } else { a + 1 };
                    assert(old_entries[oa] == entries@[a]);
                    assert(old_entries[oa].0@ != old_entries[i as int].0@);
                }
                assert forall|q: Seq<char>| #[trigger] new_model.contains_key(q) implies exists|a: int|
                    0 <= a < entries@.len() && (#[trigger] entries@[a]).0@ == q by {
                    let oa = choose|a: int| 0 <= a < old_entries.len() && (#[trigger] old_entries[a]).0@ == q;
                    assert(oa != i);
                    let a = if oa < i { oa } else { oa - 1 };
                    assert(entries@[a] == old_entries[oa]);
                }
                assert(Self::consistent(entries@, new_model));
        *self = TextMap { entries, model: Ghost(new_model) };
                Some(v)
            },
            None => {
                assert(self.model@ =~= self.model@.remove(key@));
                None
            },
        }
    }

    /// The bound keys, each once.
    pub fn keys(&self) -> (ks: Vec<String>)
        ensures
            forall|i: int| 0 <= i < ks@.len() ==> self@.contains_key((#[trigger] ks@[i])@),
            forall|k: Seq<char>| #[trigger] self@.contains_key(k) ==> exists|i: int|
                0 <= i < ks@.len() && (#[trigger] ks@[i])@ == k,
    {
        proof {
            use_type_invariant(self);
        }
        let mut ks: Vec<String> = Vec::new();
        let n = self.entries.len();
        let mut i: usize = 0;
        while i < n
            invariant
                i <= n,
                n == self.entries@.len(),
                self.wf(),
                ks@.len() == i,
                forall|j: int| 0 <= j < i ==> (#[trigger] ks@[j])@ == self.entries@[j].0@,
            decreases n - i,
        {
            ks.push(self.entries[i].0.clone());
            i = i + 1;
        }
        assert forall|a: int| 0 <= a < ks@.len() implies self@.contains_key((#[trigger] ks@[a])@) by {
            assert(self.model@.contains_key(self.entries@[a].0@));
        }
        assert forall|k: Seq<char>| #[trigger] self@.contains_key(k) implies exists|a: int|
            0 <= a < ks@.len() && (#[trigger] ks@[a])@ == k by {
            let a = choose|a: int| 0 <= a < self.entries@.len() && (#[trigger] self.entries@[a]).0@ == k;
            assert(ks@[a]@ == k);
        }
        ks
    }
}

} // verus!
