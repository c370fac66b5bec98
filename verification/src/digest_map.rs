//! An insertion-ordered map keyed by digest.
//!
//! The map is a list of entries in which no key occurs twice. Its meaning
//! is the mathematical map that the list spells out.
use vstd::prelude::*;
use crate::crypto::Digest;

verus! {

/// The map that a list of entries spells out. Where a key occurs more than
/// once, the later entry counts.
pub open spec fn map_of<T>(entries: Seq<(Seq<u8>, T)>) -> Map<Seq<u8>, T>
    decreases entries.len(),
{
    if entries.len() == 0 {
        Map::empty()
    } else {
        map_of(entries.drop_last()).insert(entries.last().0, entries.last().1)
    }
}

/// No key occurs twice in the list.
pub open spec fn distinct_keys<T>(entries: Seq<(Seq<u8>, T)>) -> bool {
    forall|i: int, j: int| 0 <= i < j < entries.len() ==> entries[i].0 != entries[j].0
}

/// A key that no entry holds is outside the map.
pub proof fn lemma_map_of_absent<T>(entries: Seq<(Seq<u8>, T)>, key: Seq<u8>)
    requires
        forall|j: int| 0 <= j < entries.len() ==> entries[j].0 != key,
    ensures
        !map_of(entries).dom().contains(key),
    decreases entries.len(),
{
    if entries.len() > 0 {
        lemma_map_of_absent(entries.drop_last(), key);
    }
}

/// The key of every entry is in the map, and every key of the map is the
/// key of an entry.
pub proof fn lemma_map_of_dom<T>(entries: Seq<(Seq<u8>, T)>, key: Seq<u8>)
    ensures
        map_of(entries).dom().contains(key) <==> exists|j: int|
            0 <= j < entries.len() && (#[trigger] entries[j]).0 == key,
    decreases entries.len(),
{
    if entries.len() > 0 {
        let front = entries.drop_last();
        lemma_map_of_dom(front, key);
        if map_of(entries).dom().contains(key) {
            if entries.last().0 == key {
                assert(entries[entries.len() - 1].0 == key);
            } else {
                let j = choose|j: int| 0 <= j < front.len() && (#[trigger] front[j]).0 == key;
                assert(entries[j].0 == key);
            }
        } else {
            if exists|j: int| 0 <= j < entries.len() && (#[trigger] entries[j]).0 == key {
                let j = choose|j: int| 0 <= j < entries.len() && (#[trigger] entries[j]).0 == key;
                if j < front.len() {
                    assert(front[j].0 == key);
                }
            }
        }
    }
}

/// Where no key occurs twice, the map holds under each entry's key that
/// entry's value.
pub proof fn lemma_map_of_lookup<T>(entries: Seq<(Seq<u8>, T)>, i: int)
    requires
        distinct_keys(entries),
        0 <= i < entries.len(),
    ensures
        map_of(entries).dom().contains(entries[i].0),
        map_of(entries)[entries[i].0] == entries[i].1,
    decreases entries.len(),
{
    if i < entries.len() - 1 {
        lemma_map_of_lookup(entries.drop_last(), i);
    }
}

/// Replacing the value of one entry is an insertion under that entry's key.
pub proof fn lemma_map_of_update<T>(entries: Seq<(Seq<u8>, T)>, i: int, value: T)
    requires
        distinct_keys(entries),
        0 <= i < entries.len(),
    ensures
        distinct_keys(entries.update(i, (entries[i].0, value))),
        map_of(entries.update(i, (entries[i].0, value))) == map_of(entries).insert(
            entries[i].0,
            value,
        ),
    decreases entries.len(),
{
    let key = entries[i].0;
    let changed = entries.update(i, (key, value));
    if i == entries.len() - 1 {
        assert(changed.drop_last() == entries.drop_last());
        assert(map_of(changed) == map_of(entries).insert(key, value));
    } else {
        let front = entries.drop_last();
        lemma_map_of_update(front, i, value);
        assert(changed.drop_last() == front.update(i, (key, value)));
        assert(changed.last() == entries.last());
        assert(entries.last().0 != key);
        assert(map_of(changed) == map_of(entries).insert(key, value));
    }
}

/// Appending an entry is an insertion, and keeps keys distinct when the key
/// is new.
pub proof fn lemma_map_of_push<T>(entries: Seq<(Seq<u8>, T)>, key: Seq<u8>, value: T)
    ensures
        map_of(entries.push((key, value))) == map_of(entries).insert(key, value),
        distinct_keys(entries) && (forall|j: int| 0 <= j < entries.len() ==> entries[j].0 != key)
            ==> distinct_keys(entries.push((key, value))),
{
    assert(entries.push((key, value)).drop_last() == entries);
}

/// Taking one entry out removes its key from the map.
pub proof fn lemma_map_of_remove<T>(entries: Seq<(Seq<u8>, T)>, i: int)
    requires
        distinct_keys(entries),
        0 <= i < entries.len(),
    ensures
        distinct_keys(entries.remove(i)),
        map_of(entries.remove(i)) == map_of(entries).remove(entries[i].0),
    decreases entries.len(),
{
    let key = entries[i].0;
    let rest = entries.remove(i);
    if i == entries.len() - 1 {
        assert(rest == entries.drop_last());
        lemma_map_of_absent(rest, key);
        assert(map_of(rest) == map_of(entries).remove(key));
    } else {
        let front = entries.drop_last();
        lemma_map_of_remove(front, i);
        assert(rest.drop_last() == front.remove(i));
        assert(rest.last() == entries.last());
        assert(entries.last().0 != key);
        assert(map_of(rest) == map_of(entries).remove(key));
    }
}

/// A list of stored entries, each key and value taken by its view.
pub closed spec fn model_of<V: View>(raw: Seq<(Digest, V)>) -> Seq<(Seq<u8>, V::V)> {
    Seq::new(raw.len(), |i: int| (raw[i].0@, raw[i].1@))
}

/// A map from digests to values of type `V`, which remembers the order in
/// which its keys first came.
#[derive(Debug)]
pub struct DigestMap<V: View> {
    entries: Vec<(Digest, V)>,
}

impl<V: View> DigestMap<V> {
    /// The entries in insertion order, each key and value by its view.
    pub closed spec fn entries(&self) -> Seq<(Seq<u8>, V::V)> {
        model_of(self.entries@)
    }

    #[verifier::type_invariant]
    spec fn keys_are_distinct(&self) -> bool {
        distinct_keys(self.entries())
    }

    /// An empty map.
    pub fn new() -> (m: Self)
        ensures
            m@ == Map::<Seq<u8>, V::V>::empty(),
            m.entries() == Seq::<(Seq<u8>, V::V)>::empty(),
    {
        let m = DigestMap { entries: Vec::new() };
        assert(m.entries() == Seq::<(Seq<u8>, V::V)>::empty());
        m
    }

    fn index_of(&self, key: &Digest) -> (r: Option<usize>)
        ensures
            match r {
                Some(i) => i < self.entries().len() && self.entries()[i as int].0 == key@,
                None => forall|j: int| 0 <= j < self.entries().len() ==> self.entries()[j].0 != key@,
            },
    {
        let mut i: usize = 0;
        while i < self.entries.len()
            invariant
                i <= self.entries@.len(),
                self.entries().len() == self.entries@.len(),
                forall|j: int| 0 <= j < i ==> self.entries()[j].0 != key@,
            decreases self.entries@.len() - i,
        {
            if self.entries[i].0.same(key) {
                return Some(i);
            }
            i = i + 1;
        }
        None
    }

    /// Whether the map holds the key.
    pub fn contains_key(&self, key: &Digest) -> (r: bool)
        ensures
            r == self@.dom().contains(key@),
    {
        proof {
            use_type_invariant(self);
            lemma_map_of_dom(self.entries(), key@);
        }
        self.index_of(key).is_some()
    }

    /// The value under a key, if the map holds the key.
    pub fn get(&self, key: &Digest) -> (r: Option<&V>)
        ensures
            r.is_some() == self@.dom().contains(key@),
            r.is_some() ==> r.unwrap()@ == self@[key@],
    {
        proof {
            use_type_invariant(self);
        }
        match self.index_of(key) {
            Some(i) => {
                proof {
                    lemma_map_of_lookup(self.entries(), i as int);
                }
                Some(&self.entries[i].1)
            },
            None => {
                proof {
                    lemma_map_of_absent(self.entries(), key@);
                }
                None
            },
        }
    }

    /// Put a value under a key, in place of the value that was there, if
    /// any. A new key goes to the end of the order.
    pub fn insert(&mut self, key: Digest, value: V)
        ensures
            final(self)@ == old(self)@.insert(key@, value@),
    {
        proof {
            use_type_invariant(&*self);
        }
        let ghost before = self.entries();
        match self.index_of(&key) {
            Some(i) => {
                proof {
                    lemma_map_of_update(before, i as int, value@);
                }
                let mut entries: Vec<(Digest, V)> = Vec::new();
                core::mem::swap(&mut self.entries, &mut entries);
                entries.set(i, (key, value));
                assert(model_of(entries@) == before.update(i as int, (key@, value@)));
                core::mem::swap(&mut self.entries, &mut entries);
                assert(self.entries() == before.update(i as int, (key@, value@)));
            },
            None => {
                proof {
                    lemma_map_of_push(before, key@, value@);
                }
                let mut entries: Vec<(Digest, V)> = Vec::new();
                core::mem::swap(&mut self.entries, &mut entries);
                entries.push((key, value));
                assert(model_of(entries@) == before.push((key@, value@)));
                core::mem::swap(&mut self.entries, &mut entries);
                assert(self.entries() == before.push((key@, value@)));
            },
        }
    }

    /// Take a key out of the map. Nothing changes where the key is absent.
    pub fn remove(&mut self, key: &Digest)
        ensures
            final(self)@ == old(self)@.remove(key@),
    {
        proof {
            use_type_invariant(&*self);
        }
        let ghost before = self.entries();
        match self.index_of(key) {
            Some(i) => {
                proof {
                    lemma_map_of_remove(before, i as int);
                }
                let mut entries: Vec<(Digest, V)> = Vec::new();
                core::mem::swap(&mut self.entries, &mut entries);
                let _ = entries.remove(i);
                assert(model_of(entries@) == before.remove(i as int));
                core::mem::swap(&mut self.entries, &mut entries);
                assert(self.entries() == before.remove(i as int));
            },
            None => {
                proof {
                    lemma_map_of_absent(before, key@);
                }
                assert(self@ == old(self)@.remove(key@));
            },
        }
    }

    /// The number of entries, none of which shares its key with another.
    pub fn len(&self) -> (n: usize)
        ensures
            n == self.entries().len(),
            distinct_keys(self.entries()),
    {
        proof {
            use_type_invariant(self);
        }
        self.entries.len()
    }

    /// Whether the map is empty.
    pub fn is_empty(&self) -> (r: bool)
        ensures
            r == (self@ == Map::<Seq<u8>, V::V>::empty()),
    {
        proof {
            if self.entries@.len() > 0 {
                assert(self@.dom().contains(self.entries().last().0));
            }
        }
        self.entries.len() == 0
    }

    /// The key and the value of the entry at a position of the order.
    pub fn entry(&self, i: usize) -> (r: (&Digest, &V))
        requires
            i < self.entries().len(),
        ensures
            r.0@ == self.entries()[i as int].0,
            r.1@ == self.entries()[i as int].1,
    {
        (&self.entries[i].0, &self.entries[i].1)
    }

}

impl<V: View> View for DigestMap<V> {
    type V = Map<Seq<u8>, V::V>;

    closed spec fn view(&self) -> Map<Seq<u8>, V::V> {
        map_of(self.entries())
    }
}

impl<V: View> DigestMap<V> {
    /// The map is the one that the entries spell out.
    pub proof fn lemma_view(&self)
        ensures
            self@ == map_of(self.entries()),
    {
    }
}

} // verus!
