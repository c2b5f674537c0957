//! A store of values under distinct string keys, kept in insertion order.
//! Connections and sessions are tracked in it by their identifiers.

use vstd::prelude::*;

verus! {

/// One stored value and its key.
#[derive(Debug)]
pub struct RegistryEntry<V> {
    pub key: String,
    pub value: V,
}

/// Values under distinct string keys.
#[derive(Debug)]
pub struct Registry<V> {
    entries: Vec<RegistryEntry<V>>,
}

/// The key-to-value map of a run of entries (later entries win).
pub open spec fn entries_map<V>(s: Seq<RegistryEntry<V>>) -> Map<Seq<char>, V>
    decreases s.len(),
{
    if s.len() == 0 {
        Map::empty()
    } else {
        entries_map(s.drop_last()).insert(s.last().key@, s.last().value)
    }
}

/// No two entries share a key.
pub open spec fn keys_distinct<V>(s: Seq<RegistryEntry<V>>) -> bool {
    forall|i: int, j: int| 0 <= i < s.len() && 0 <= j < s.len() && i != j ==> s[i].key@ != s[j].key@
}

proof fn lemma_entries_map_dom<V>(s: Seq<RegistryEntry<V>>)
    ensures
        forall|k: Seq<char>| #[trigger] entries_map(s).contains_key(k) <==> exists|i: int| 0 <= i < s.len() && s[i].key@ == k,
    decreases s.len(),
{
    if s.len() > 0 {
        lemma_entries_map_dom(s.drop_last());
        assert forall|k: Seq<char>| #[trigger] entries_map(s).contains_key(k) implies exists|i: int| 0 <= i < s.len() && s[i].key@ == k by {
            if k != s.last().key@ {
                assert(entries_map(s.drop_last()).contains_key(k));
                let i = choose|i: int| 0 <= i < s.drop_last().len() && s.drop_last()[i].key@ == k;
                assert(s[i].key@ == k);
            } else {
                assert(s[s.len() - 1].key@ == k);
            }
        }
        assert forall|k: Seq<char>| (exists|i: int| 0 <= i < s.len() && s[i].key@ == k) implies #[trigger] entries_map(s).contains_key(k) by {
            let i = choose|i: int| 0 <= i < s.len() && s[i].key@ == k;
            if i < s.len() - 1 {
                assert(s.drop_last()[i].key@ == k);
                assert(exists|j: int| 0 <= j < s.drop_last().len() && s.drop_last()[j].key@ == k);
                assert(entries_map(s.drop_last()).contains_key(k));
            }
        }
    }
}

proof fn lemma_entries_map_index<V>(s: Seq<RegistryEntry<V>>, i: int)
    requires
        keys_distinct(s),
        0 <= i < s.len(),
    ensures
        entries_map(s).contains_key(s[i].key@),
        entries_map(s)[s[i].key@] == s[i].value,
    decreases s.len(),
{
    if i < s.len() - 1 {
        assert(keys_distinct(s.drop_last()));
        lemma_entries_map_index(s.drop_last(), i);
        assert(s.drop_last()[i] == s[i]);
    }
}

proof fn lemma_entries_map_remove<V>(s: Seq<RegistryEntry<V>>, i: int)
    requires
        keys_distinct(s),
        0 <= i < s.len(),
    ensures
        entries_map(s.remove(i)) == entries_map(s).remove(s[i].key@),
        keys_distinct(s.remove(i)),
    decreases s.len(),
{
    let k = s[i].key@;
    if i == s.len() - 1 {
        assert(s.remove(i) =~= s.drop_last());
        lemma_entries_map_dom(s.drop_last());
        assert(!entries_map(s.drop_last()).contains_key(k));
        assert(entries_map(s.drop_last()) =~= entries_map(s).remove(k));
    } else {
        assert(keys_distinct(s.drop_last()));
        lemma_entries_map_remove(s.drop_last(), i);
        assert(s.remove(i).drop_last() =~= s.drop_last().remove(i));
        assert(s.remove(i).last() == s.last());
        assert(s.last().key@ != k);
        assert(entries_map(s.remove(i)) =~= entries_map(s).remove(k));
    }
}

proof fn lemma_entries_map_insert_at<V>(s: Seq<RegistryEntry<V>>, i: int, e: RegistryEntry<V>)
    requires
        keys_distinct(s),
        0 <= i <= s.len(),
        !entries_map(s).contains_key(e.key@),
    ensures
        entries_map(s.insert(i, e)) == entries_map(s).insert(e.key@, e.value),
        keys_distinct(s.insert(i, e)),
    decreases s.len(),
{
    lemma_entries_map_dom(s);
    assert forall|j: int| 0 <= j < s.len() implies s[j].key@ != e.key@ by {}
    if i == s.len() {
        assert(s.insert(i, e) =~= s.push(e));
        assert(s.push(e).drop_last() =~= s);
    } else {
        assert(keys_distinct(s.drop_last()));
        lemma_entries_map_dom(s.drop_last());
        lemma_entries_map_insert_at(s.drop_last(), i, e);
        assert(s.insert(i, e).drop_last() =~= s.drop_last().insert(i, e));
        assert(s.insert(i, e).last() == s.last());
        assert(entries_map(s.insert(i, e)) =~= entries_map(s).insert(e.key@, e.value));
    }
}

proof fn lemma_entries_map_update<V>(s: Seq<RegistryEntry<V>>, i: int, e: RegistryEntry<V>)
    requires
        keys_distinct(s),
        0 <= i < s.len(),
        e.key@ == s[i].key@,
    ensures
        entries_map(s.update(i, e)) == entries_map(s).insert(e.key@, e.value),
        keys_distinct(s.update(i, e)),
{
    lemma_entries_map_remove(s, i);
    lemma_entries_map_dom(s.remove(i));
    lemma_entries_map_insert_at(s.remove(i), i, e);
    assert(s.remove(i).insert(i, e) =~= s.update(i, e));
    assert(entries_map(s).remove(e.key@).insert(e.key@, e.value) =~= entries_map(s).insert(e.key@, e.value));
}

impl<V> Registry<V> {
    /// The stored values by key.
    pub closed spec fn view(&self) -> Map<Seq<char>, V> {
        entries_map(self.entries@)
    }

    /// The keys in insertion order.
    pub closed spec fn key_order(&self) -> Seq<Seq<char>> {
        self.entries@.map_values(|e: RegistryEntry<V>| e.key@)
    }

    /// Keys are distinct.
    pub closed spec fn wf(&self) -> bool {
        keys_distinct(self.entries@)
    }

    /// The entry at a position of the insertion order.
    pub closed spec fn value_at_spec(&self, i: int) -> V {
        self.entries@[i].value
    }

    /// Facts tying positions to keys and values.
    pub proof fn lemma_positions(&self)
        requires
            self.wf(),
        ensures
            self.key_order().len() == self@.dom().len(),
            self@.dom().finite(),
            forall|i: int| 0 <= i < self.key_order().len() ==> #[trigger] self@.contains_key(self.key_order()[i])
                && self@[self.key_order()[i]] == self.value_at_spec(i),
            forall|k: Seq<char>| #[trigger] self@.contains_key(k) ==> exists|i: int| 0 <= i < self.key_order().len() && self.key_order()[i] == k,
            forall|i: int, j: int| 0 <= i < self.key_order().len() && 0 <= j < self.key_order().len() && i != j ==> self.key_order()[i] != self.key_order()[j],
    {
        lemma_entries_map_dom(self.entries@);
        assert forall|i: int| 0 <= i < self.key_order().len() implies #[trigger] self@.contains_key(self.key_order()[i])
            && self@[self.key_order()[i]] == self.value_at_spec(i) by {
            assert(self.key_order()[i] == self.entries@[i].key@);
            lemma_entries_map_index(self.entries@, i);
        }
        assert forall|k: Seq<char>| #[trigger] self@.contains_key(k) implies exists|i: int| 0 <= i < self.key_order().len() && self.key_order()[i] == k by {
            let i = choose|i: int| 0 <= i < self.entries@.len() && self.entries@[i].key@ == k;
            assert(self.key_order()[i] == self.entries@[i].key@);
        }
        assert forall|i: int, j: int| 0 <= i < self.key_order().len() && 0 <= j < self.key_order().len() && i != j implies self.key_order()[i] != self.key_order()[j] by {
            assert(self.key_order()[i] == self.entries@[i].key@);
            assert(self.key_order()[j] == self.entries@[j].key@);
        }
        lemma_map_len(self.entries@);
    }

    /// An empty registry.
    pub fn new() -> (r: Self)
        ensures
            r.wf(),
            r@ == Map::<Seq<char>, V>::empty(),
            r.key_order().len() == 0,
    {
        Registry { entries: Vec::new() }
    }

    /// Number of stored values.
    pub fn len(&self) -> (r: usize)
        requires
            self.wf(),
        ensures
            r == self@.len(),
            r == self.key_order().len(),
    {
        proof {
            self.lemma_positions();
        }
        self.entries.len()
    }

    /// Position of `key` in the insertion order, if stored.
    pub fn position(&self, key: &str) -> (r: Option<usize>)
        requires
            self.wf(),
        ensures
            r is None <==> !self@.contains_key(key@),
            r matches Some(i) ==> i < self.key_order().len() && self.key_order()[i as int] == key@,
    {
        proof {
            self.lemma_positions();
        }
        let mut i: usize = 0;
        while i < self.entries.len()
            invariant
                self.wf(),
                i <= self.entries@.len(),
                self.key_order().len() == self.entries@.len(),
                forall|j: int| 0 <= j < i ==> self.key_order()[j] != key@,
            decreases self.entries@.len() - i,
        {
            if string_equals(&self.entries[i].key, key) {
                assert(self.key_order()[i as int] == self.entries@[i as int].key@);
                proof {
                    self.lemma_positions();
                }
                assert(self@.contains_key(self.key_order()[i as int]));
                return Some(i);
            }
            assert(self.key_order()[i as int] == self.entries@[i as int].key@);
            i = i + 1;
        }
        None
    }

    /// The value stored under `key`.
    pub fn get(&self, key: &str) -> (r: Option<&V>)
        requires
            self.wf(),
        ensures
            r is Some <==> self@.contains_key(key@),
            r matches Some(v) ==> *v == self@[key@],
    {
        proof {
            self.lemma_positions();
        }
        match self.position(key) {
            Some(i) => Some(&self.entries[i].value),
            None => None,
        }
    }

    /// The key at a position of the insertion order.
    pub fn key_at(&self, i: usize) -> (r: &String)
        requires
            self.wf(),
            i < self.key_order().len(),
        ensures
            r@ == self.key_order()[i as int],
    {
        assert(self.key_order()[i as int] == self.entries@[i as int].key@);
        &self.entries[i].key
    }

    /// The value at a position of the insertion order.
    pub fn value_at(&self, i: usize) -> (r: &V)
        requires
            self.wf(),
            i < self.key_order().len(),
        ensures
            *r == self.value_at_spec(i as int),
            *r == self@[self.key_order()[i as int]],
    {
        proof {
            self.lemma_positions();
            assert(self.key_order()[i as int] == self.entries@[i as int].key@);
            assert(self@.contains_key(self.key_order()[i as int]));
        }
        &self.entries[i].value
    }

    /// Stores `value` under `key`, replacing a value stored there.
    pub fn insert(&mut self, key: String, value: V)
        requires
            old(self).wf(),
        ensures
            final(self).wf(),
            final(self)@ == old(self)@.insert(key@, value),
    {
        match self.position(key.as_str()) {
            Some(i) => {
                let ghost k = key@;
                let e = RegistryEntry { key, value };
                proof {
                    lemma_entries_map_update(self.entries@, i as int, e);
                }
                self.entries.set(i, e);
            },
            None => {
                let e = RegistryEntry { key, value };
                proof {
                    lemma_entries_map_insert_at(self.entries@, self.entries@.len() as int, e);
                    assert(self.entries@.insert(self.entries@.len() as int, e) =~= self.entries@.push(e));
                }
                self.entries.push(e);
            },
        }
    }

    /// Removes the value stored under `key`, giving it back.
    pub fn remove(&mut self, key: &str) -> (r: Option<V>)
        requires
            old(self).wf(),
        ensures
            final(self).wf(),
            final(self)@ == old(self)@.remove(key@),
            r is Some <==> old(self)@.contains_key(key@),
            r matches Some(v) ==> v == old(self)@[key@],
    {
        match self.position(key) {
            Some(i) => {
                proof {
                    lemma_entries_map_index(self.entries@, i as int);
                    lemma_entries_map_remove(self.entries@, i as int);
                }
                let e = self.entries.remove(i);
                Some(e.value)
            },
            None => {
                assert(old(self)@.remove(key@) =~= old(self)@);
                None
            },
        }
    }

    /// Takes the entry at a position out, keeping the others.
    pub fn take_at(&mut self, i: usize) -> (r: (String, V))
        requires
            old(self).wf(),
            i < old(self).key_order().len(),
        ensures
            final(self).wf(),
            r.0@ == old(self).key_order()[i as int],
            old(self)@.contains_key(r.0@),
            r.1 == old(self)@[r.0@],
            final(self)@ == old(self)@.remove(r.0@),
            final(self).key_order() == old(self).key_order().remove(i as int),
    {
        proof {
            lemma_entries_map_index(self.entries@, i as int);
            lemma_entries_map_remove(self.entries@, i as int);
        }
        let e = self.entries.remove(i);
        proof {
            assert(self.key_order() =~= old(self).key_order().remove(i as int));
        }
        (e.key, e.value)
    }

    /// Puts an entry back at a position, under a key not stored.
    pub fn put_at(&mut self, i: usize, key: String, value: V)
        requires
            old(self).wf(),
            i <= old(self).key_order().len(),
            !old(self)@.contains_key(key@),
        ensures
            final(self).wf(),
            final(self)@ == old(self)@.insert(key@, value),
            final(self).key_order() == old(self).key_order().insert(i as int, key@),
    {
        let e = RegistryEntry { key, value };
        proof {
            lemma_entries_map_insert_at(self.entries@, i as int, e);
        }
        self.entries.insert(i, e);
        proof {
            assert(self.key_order() =~= old(self).key_order().insert(i as int, e.key@));
        }
    }
}

proof fn lemma_map_len<V>(s: Seq<RegistryEntry<V>>)
    requires
        keys_distinct(s),
    ensures
        entries_map(s).dom().finite(),
        entries_map(s).len() == s.len(),
    decreases s.len(),
{
    if s.len() > 0 {
        assert(keys_distinct(s.drop_last()));
        lemma_map_len(s.drop_last());
        lemma_entries_map_dom(s.drop_last());
        assert(!entries_map(s.drop_last()).contains_key(s.last().key@)) by {
            if entries_map(s.drop_last()).contains_key(s.last().key@) {
                let i = choose|i: int| 0 <= i < s.drop_last().len() && s.drop_last()[i].key@ == s.last().key@;
                assert(s[i].key@ == s[s.len() - 1].key@);
            }
        }
    }
}

/// `String == str` on their characters.
pub fn string_equals(a: &String, b: &str) -> (r: bool)
    ensures
        r == (a@ == b@),
{
    let x = crate::text::chars_of(a.as_str());
    crate::text::chars_equal(&x, b)
}

} // verus!
