//! A map keyed by strings that remembers the order in which its keys arrived.
//!
//! The ledger keys its records by account name or by option name. Contracts
//! speak of such a collection in two ways: as a mathematical map (the view),
//! and as the sequence of its entries in order of first insertion.

use vstd::prelude::*;

verus! {

/// The map that a sequence of entries stands for: later entries win.
pub open spec fn to_map<T>(s: Seq<(Seq<char>, T)>) -> Map<Seq<char>, T>
    decreases s.len(),
{
    if s.len() == 0 {
        Map::empty()
    } else {
        to_map(s.drop_last()).insert(s.last().0, s.last().1)
    }
}

/// No key occurs twice in the sequence of entries.
pub open spec fn distinct_keys<T>(s: Seq<(Seq<char>, T)>) -> bool {
    forall|i: int, j: int| 0 <= i < j < s.len() ==> s[i].0 != s[j].0
}

/// The keys of the map are the keys of the entries, and the map is finite.
pub proof fn lemma_to_map_dom<T>(s: Seq<(Seq<char>, T)>)
    ensures
        to_map(s).dom().finite(),
        forall|k: Seq<char>|
            to_map(s).contains_key(k) <==> exists|i: int|
                0 <= i < s.len() && #[trigger] s[i].0 == k,
    decreases s.len(),
{
    if s.len() > 0 {
        let t = s.drop_last();
        lemma_to_map_dom(t);
        assert forall|k: Seq<char>| to_map(s).contains_key(k) implies exists|i: int|
            0 <= i < s.len() && #[trigger] s[i].0 == k by {
            if k == s.last().0 {
                assert(s[s.len() - 1].0 == k);
            } else {
                let i = choose|i: int| 0 <= i < t.len() && #[trigger] t[i].0 == k;
                assert(s[i].0 == k);
            }
        }
        assert forall|k: Seq<char>| (exists|i: int| 0 <= i < s.len() && #[trigger] s[i].0 == k)
            implies to_map(s).contains_key(k) by {
            let i = choose|i: int| 0 <= i < s.len() && #[trigger] s[i].0 == k;
            if i < s.len() - 1 {
                assert(t[i].0 == k);
            }
        }
    }
}

/// With distinct keys, every entry is found in the map under its key.
pub proof fn lemma_to_map_entry<T>(s: Seq<(Seq<char>, T)>, i: int)
    requires
        distinct_keys(s),
        0 <= i < s.len(),
    ensures
        to_map(s).contains_key(s[i].0),
        to_map(s)[s[i].0] == s[i].1,
    decreases s.len(),
{
    if i < s.len() - 1 {
        let t = s.drop_last();
        assert(distinct_keys(t));
        lemma_to_map_entry(t, i);
        assert(t[i] == s[i]);
        assert(s[i].0 != s[s.len() - 1].0);
    }
}

/// Replacing the value of an entry updates the map at that entry's key.
pub proof fn lemma_to_map_update<T>(s: Seq<(Seq<char>, T)>, i: int, v: T)
    requires
        distinct_keys(s),
        0 <= i < s.len(),
    ensures
        distinct_keys(s.update(i, (s[i].0, v))),
        to_map(s.update(i, (s[i].0, v))) == to_map(s).insert(s[i].0, v),
    decreases s.len(),
{
    let u = s.update(i, (s[i].0, v));
    assert(distinct_keys(u)) by {
        assert forall|a: int, b: int| 0 <= a < b < u.len() implies u[a].0 != u[b].0 by {
            assert(u[a].0 == s[a].0);
            assert(u[b].0 == s[b].0);
        }
    }
    let t = s.drop_last();
    if i < s.len() - 1 {
        assert(distinct_keys(t));
        lemma_to_map_update(t, i, v);
        assert(u.drop_last() == t.update(i, (t[i].0, v)));
        assert(u.last() == s.last());
        assert(s[i].0 != s[s.len() - 1].0);
        assert(to_map(u) == to_map(s).insert(s[i].0, v));
    } else {
        assert(u.drop_last() == t);
        assert(to_map(u) == to_map(s).insert(s[i].0, v));
    }
}

/// Taking an entry out removes its key from the map.
pub proof fn lemma_to_map_remove<T>(s: Seq<(Seq<char>, T)>, i: int)
    requires
        distinct_keys(s),
        0 <= i < s.len(),
    ensures
        distinct_keys(s.remove(i)),
        to_map(s.remove(i)) == to_map(s).remove(s[i].0),
    decreases s.len(),
{
    let r = s.remove(i);
    assert(distinct_keys(r)) by {
        assert forall|a: int, b: int| 0 <= a < b < r.len() implies r[a].0 != r[b].0 by {
            let a2 = if a < i { a } else { a + 1 };
            let b2 = if b < i { b } else { b + 1 };
            assert(r[a] == s[a2]);
            assert(r[b] == s[b2]);
        }
    }
    let t = s.drop_last();
    assert(distinct_keys(t));
    if i < s.len() - 1 {
        lemma_to_map_remove(t, i);
        assert(r.drop_last() == t.remove(i));
        assert(r.last() == s.last());
        assert(s[i].0 != s[s.len() - 1].0);
        assert(to_map(r) == to_map(s).remove(s[i].0));
    } else {
        assert(r == t);
        lemma_to_map_dom(t);
        assert(!to_map(t).contains_key(s[i].0)) by {
            if to_map(t).contains_key(s[i].0) {
                let j = choose|j: int| 0 <= j < t.len() && #[trigger] t[j].0 == s[i].0;
                assert(s[j].0 == s[i].0);
            }
        }
        assert(to_map(r) == to_map(s).remove(s[i].0));
    }
}

/// A collection of values under string keys, each key at most once, kept in
/// the order in which the keys were first inserted.
pub struct StringMap<V: View> {
    entries: Vec<(String, V)>,
}

impl<V: View> StringMap<V> {
    /// The entries in order of first insertion, each key and value by its view.
    pub closed spec fn entries(&self) -> Seq<(Seq<char>, V::V)> {
        self.entries@.map_values(|e: (String, V)| (e.0@, e.1@))
    }

    #[verifier::type_invariant]
    closed spec fn keys_are_distinct(&self) -> bool {
        distinct_keys(self.entries())
    }

    /// The view is the map that the entries stand for.
    pub proof fn lemma_view(&self)
        ensures
            self@ == to_map(self.entries()),
    {
    }

    /// Every map has finitely many keys.
    pub proof fn lemma_finite(&self)
        ensures
            self@.dom().finite(),
    {
        lemma_to_map_dom(self.entries());
    }

    /// An empty map.
    pub fn new() -> (m: Self)
        ensures
            m.entries() == Seq::<(Seq<char>, V::V)>::empty(),
            m@ == Map::<Seq<char>, V::V>::empty(),
    {
        let m = StringMap { entries: Vec::new() };
        assert(m.entries() == Seq::<(Seq<char>, V::V)>::empty());
        m
    }

    /// The number of keys.
    pub fn len(&self) -> (n: usize)
        ensures
            n == self.entries().len(),
            distinct_keys(self.entries()),
            self@.dom().finite(),
    {
        proof {
            use_type_invariant(self);
            lemma_to_map_dom(self.entries());
        }
        self.entries.len()
    }

    /// The key and the value at a position in the order of first insertion.
    pub fn entry(&self, i: usize) -> (r: Option<(&String, &V)>)
        ensures
            match r {
                Some((k, v)) => i < self.entries().len() && self.entries()[i as int] == (k@, v@)
                    && self@.contains_key(k@) && self@[k@] == v@,
                None => i >= self.entries().len(),
            },
    {
        if i < self.entries.len() {
            proof {
                use_type_invariant(self);
                lemma_to_map_entry(self.entries(), i as int);
            }
            Some((&self.entries[i].0, &self.entries[i].1))
        } else {
            None
        }
    }

    /// Where the key stands among the entries, if it is there.
    fn position(&self, key: &String) -> (r: Option<usize>)
        ensures
            distinct_keys(self.entries()),
            match r {
                Some(i) => i < self.entries().len() && self.entries()[i as int].0 == key@
                    && self@.contains_key(key@) && self@[key@] == self.entries()[i as int].1,
                None => !self@.contains_key(key@),
            },
    {
        proof {
            use_type_invariant(self);
        }
        let mut i: usize = 0;
        while i < self.entries.len()
            invariant
                i <= self.entries.len(),
                self.entries().len() == self.entries.len(),
                distinct_keys(self.entries()),
                forall|j: int| 0 <= j < i ==> (#[trigger] self.entries()[j]).0 != key@,
            decreases self.entries.len() - i,
        {
            if self.entries[i].0 == *key {
                proof {
                    lemma_to_map_entry(self.entries(), i as int);
                }
                return Some(i);
            }
            i += 1;
        }
        proof {
            lemma_to_map_dom(self.entries());
        }
        None
    }

    /// Whether the key is in the map.
    pub fn contains_key(&self, key: &String) -> (b: bool)
        ensures
            b == self@.contains_key(key@),
    {
        self.position(key).is_some()
    }

    /// The value under the key.
    pub fn get(&self, key: &String) -> (r: Option<&V>)
        ensures
            match r {
                Some(v) => self@.contains_key(key@) && v@ == self@[key@],
                None => !self@.contains_key(key@),
            },
    {
        match self.position(key) {
            Some(i) => Some(&self.entries[i].1),
            None => None,
        }
    }

    /// Puts the value under the key and hands back the value that was there.
    /// A key that is already present keeps its place in the order; a new key
    /// goes to the end.
    pub fn insert(&mut self, key: String, value: V) -> (prev: Option<V>)
        ensures
            final(self)@ == old(self)@.insert(key@, value@),
            match prev {
                Some(p) => old(self)@.contains_key(key@) && p@ == old(self)@[key@]
                    && exists|i: int|
                    0 <= i < old(self).entries().len() && old(self).entries()[i].0 == key@
                        && final(self).entries() == old(self).entries().update(
                        i,
                        (key@, value@),
                    ),
                None => !old(self)@.contains_key(key@)
                    && final(self).entries() == old(self).entries().push((key@, value@)),
            },
    {
        let found = self.position(&key);
        let ghost before = self.entries();
        let mut items: Vec<(String, V)> = Vec::new();
        core::mem::swap(&mut self.entries, &mut items);
        assert(items@.map_values(|e: (String, V)| (e.0@, e.1@)) == before);
        let prev = match found {
            Some(i) => {
                let mut fresh = (key, value);
                core::mem::swap(&mut items[i], &mut fresh);
                proof {
                    assert(items@.map_values(|e: (String, V)| (e.0@, e.1@)) == before.update(
                        i as int,
                        (key@, value@),
                    ));
                    lemma_to_map_update(before, i as int, value@);
                }
                Some(fresh.1)
            },
            None => {
                items.push((key, value));
                proof {
                    lemma_to_map_dom(before);
                    let after = before.push((key@, value@));
                    assert(items@.map_values(|e: (String, V)| (e.0@, e.1@)) == after);
                    assert(after.drop_last() == before);
                    assert(distinct_keys(after));
                }
                None
            },
        };
        core::mem::swap(&mut self.entries, &mut items);
        prev
    }

    /// Takes the key out of the map and hands back its value. The other keys
    /// keep their order.
    pub fn remove(&mut self, key: &String) -> (prev: Option<V>)
        ensures
            final(self)@ == old(self)@.remove(key@),
            match prev {
                Some(p) => old(self)@.contains_key(key@) && p@ == old(self)@[key@]
                    && exists|i: int|
                    0 <= i < old(self).entries().len() && old(self).entries()[i].0 == key@
                        && final(self).entries() == old(self).entries().remove(i),
                None => !old(self)@.contains_key(key@)
                    && final(self).entries() == old(self).entries(),
            },
    {
        let found = self.position(key);
        match found {
            Some(i) => {
                let ghost before = self.entries();
                let mut items: Vec<(String, V)> = Vec::new();
                core::mem::swap(&mut self.entries, &mut items);
                assert(items@.map_values(|e: (String, V)| (e.0@, e.1@)) == before);
                let taken = items.remove(i);
                proof {
                    assert(items@.map_values(|e: (String, V)| (e.0@, e.1@)) == before.remove(
                        i as int,
                    ));
                    lemma_to_map_remove(before, i as int);
                }
                core::mem::swap(&mut self.entries, &mut items);
                Some(taken.1)
            },
            None => {
                assert(self@ == old(self)@.remove(key@));
                None
            },
        }
    }
}

impl<V: View + Clone> StringMap<V> {
    /// A copy of the map: the same keys in the same order, each with a clone
    /// of its value. It asks that a clone of a value has the view of the
    /// value, as holds of the integers and of this crate's records.
    pub fn duplicate(&self) -> (r: Self)
        requires
            forall|a: V, b: V| #[trigger] cloned::<V>(a, b) ==> a@ == b@,
        ensures
            r.entries() == self.entries(),
            r@ == self@,
    {
        proof {
            use_type_invariant(self);
        }
        let mut items: Vec<(String, V)> = Vec::new();
        let mut i: usize = 0;
        while i < self.entries.len()
            invariant
                i <= self.entries.len(),
                items.len() == i,
                forall|a: V, b: V| #[trigger] cloned::<V>(a, b) ==> a@ == b@,
                forall|j: int|
                    0 <= j < i ==> (#[trigger] items@[j]).0@ == self.entries@[j].0@ && items@[j].1@
                        == self.entries@[j].1@,
            decreases self.entries.len() - i,
        {
            let key = self.entries[i].0.clone();
            let value = self.entries[i].1.clone();
            assert(cloned::<V>(self.entries@[i as int].1, value));
            items.push((key, value));
            i += 1;
        }
        assert(items@.map_values(|e: (String, V)| (e.0@, e.1@)) == self.entries());
        StringMap { entries: items }
    }
}

impl<V: View> View for StringMap<V> {
    type V = Map<Seq<char>, V::V>;

    closed spec fn view(&self) -> Self::V {
        to_map(self.entries())
    }
}

} // verus!
