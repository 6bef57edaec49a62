//! A table from text keys to values.
//!
//! No key occurs twice. The entries keep the order in which their keys first came in.
use vstd::prelude::*;

use crate::text::{same, texts};

verus! {

/// A table from text keys to values, with each key once.
#[derive(Debug)]
pub struct Table<V> {
    names: Vec<String>,
    items: Vec<V>,
}

/// The map that pairs each key with the value at the key's first position.
pub open spec fn paired<V>(keys: Seq<Seq<char>>, values: Seq<V>) -> Map<Seq<char>, V> {
    Map::new(|k: Seq<char>| keys.contains(k), |k: Seq<char>| values[keys.index_of(k)])
}

impl<V> View for Table<V> {
    type V = Map<Seq<char>, V>;

    open spec fn view(&self) -> Map<Seq<char>, V> {
        paired(self.keys(), self.values())
    }
}

impl<V> Table<V> {
    /// The keys, in order.
    pub closed spec fn keys(self) -> Seq<Seq<char>> {
        texts(self.names@)
    }

    /// The values, in the order of their keys.
    pub closed spec fn values(self) -> Seq<V> {
        self.items@
    }

    #[verifier::type_invariant]
    closed spec fn distinct(self) -> bool {
        self.keys().no_duplicates() && self.names.len() == self.items.len()
    }

    /// A table without entries.
    pub fn new() -> (t: Self)
        ensures
            t.keys() == Seq::<Seq<char>>::empty(),
            t.values() == Seq::<V>::empty(),
            t@ == Map::<Seq<char>, V>::empty(),
    {
        let t = Table { names: Vec::new(), items: Vec::new() };
        proof {
            assert(t.keys() =~= Seq::<Seq<char>>::empty());
            assert(t.values() =~= Seq::<V>::empty());
            assert(t@ =~= Map::<Seq<char>, V>::empty());
        }
        t
    }

    /// The number of entries.
    pub fn len(&self) -> (n: usize)
        ensures
            n == self.keys().len(),
            n == self.values().len(),
            self.keys().no_duplicates(),
            self@.dom() == self.keys().to_set(),
            n == self@.dom().len(),
    {
        proof {
            use_type_invariant(self);
            assert(self@.dom() =~= self.keys().to_set());
            self.keys().unique_seq_to_set();
        }
        self.names.len()
    }

    /// The key of the entry at position `i`.
    pub fn key_at(&self, i: usize) -> (k: &String)
        requires
            i < self.keys().len(),
        ensures
            k@ == self.keys()[i as int],
            self@.contains_key(k@),
    {
        proof {
            assert(self.keys().contains(self.keys()[i as int]));
        }
        &self.names[i]
    }

    /// The value of the entry at position `i`.
    pub fn value_at(&self, i: usize) -> (v: &V)
        requires
            i < self.keys().len(),
        ensures
            *v == self.values()[i as int],
            self@.contains_key(self.keys()[i as int]),
            *v == self@[self.keys()[i as int]],
    {
        proof {
            use_type_invariant(self);
            let k = self.keys()[i as int];
            assert(self.keys().contains(k));
            assert(self.keys()[self.keys().index_of(k)] == k);
        }
        &self.items[i]
    }

    /// The position of `key`.
    pub fn find(&self, key: &str) -> (r: Option<usize>)
        ensures
            match r {
                Some(i) => {
                    &&& i < self.keys().len()
                    &&& self.keys()[i as int] == key@
                    &&& self.keys().index_of(key@) == i
                    &&& self@.contains_key(key@)
                    &&& self@[key@] == self.values()[i as int]
                },
                None => !self.keys().contains(key@) && !self@.contains_key(key@),
            },
            self.keys().no_duplicates(),
            self.keys().len() == self.values().len(),
    {
        proof {
            use_type_invariant(self);
        }
        for i in 0..self.names.len()
            invariant
                self.keys().no_duplicates(),
                self.names.len() == self.items.len(),
                forall|k: int| 0 <= k < i ==> #[trigger] self.keys()[k] != key@,
        {
            if same(self.names[i].as_str(), key) {
                proof {
                    assert(self.keys()[i as int] == key@);
                    assert(self.keys().contains(key@));
                }
                return Some(i);
            }
            proof {
                assert(self.keys()[i as int] != key@);
            }
        }
        None
    }

    /// Whether the table holds `key`.
    pub fn contains_key(&self, key: &str) -> (r: bool)
        ensures
            r == self@.contains_key(key@),
            r == self.keys().contains(key@),
    {
        self.find(key).is_some()
    }

    /// The value of `key`.
    pub fn get(&self, key: &str) -> (r: Option<&V>)
        ensures
            r is Some <==> self@.contains_key(key@),
            r matches Some(v) ==> *v == self@[key@],
    {
        match self.find(key) {
            Some(i) => Some(&self.items[i]),
            None => None,
        }
    }

    /// Access to the value of `key`, to change it in place.
    pub fn get_mut(&mut self, key: &str) -> (r: Option<&mut V>)
        ensures
            final(self).keys() == old(self).keys(),
            match r {
                Some(v) => {
                    &&& old(self)@.contains_key(key@)
                    &&& *v == old(self)@[key@]
                    &&& final(self)@ == old(self)@.insert(key@, *final(v))
                    &&& final(self).values() == old(self).values().update(
                        old(self).keys().index_of(key@),
                        *final(v),
                    )
                },
                None => !old(self)@.contains_key(key@) && *final(self) == *old(self),
            },
    {
        match self.find(key) {
            Some(i) => {
                let r = &mut self.items[i];
                Some(r)
            },
            None => None,
        }
    }

    /// Pairs `key` with `value` and gives back the value that `key` had before.
    pub fn insert(&mut self, key: String, value: V) -> (r: Option<V>)
        ensures
            final(self)@ == old(self)@.insert(key@, value),
            r is Some <==> old(self)@.contains_key(key@),
            r matches Some(v) ==> v == old(self)@[key@],
            final(self).keys() == (if old(self).keys().contains(key@) {
                old(self).keys()
            } else {
                old(self).keys().push(key@)
            }),
    {
        proof {
            use_type_invariant(&*self);
        }
        let ghost before = *self;
        match self.find(key.as_str()) {
            Some(i) => {
                let mut value = value;
                std::mem::swap(&mut self.items[i], &mut value);
                proof {
                    lemma_paired_update(before.keys(), before.values(), key@, self.values()[i as int]);
                }
                Some(value)
            },
            None => {
                let ghost new_value = value;
                let mut whole = Table::new();
                std::mem::swap(self, &mut whole);
                let Table { mut names, mut items } = whole;
                names.push(key);
                items.push(value);
                proof {
                    lemma_paired_push(before.keys(), before.values(), key@, new_value);
                    assert(texts(names@) =~= before.keys().push(key@));
                }
                *self = Table { names, items };
                None
            },
        }
    }

    /// Takes `key` out and gives back its value.
    pub fn remove(&mut self, key: &str) -> (r: Option<V>)
        ensures
            final(self)@ == old(self)@.remove(key@),
            r is Some <==> old(self)@.contains_key(key@),
            r matches Some(v) ==> v == old(self)@[key@],
            final(self).keys() == (if old(self).keys().contains(key@) {
                old(self).keys().remove(old(self).keys().index_of(key@))
            } else {
                old(self).keys()
            }),
    {
        proof {
            use_type_invariant(&*self);
        }
        let ghost before = *self;
        match self.find(key) {
            Some(i) => {
                let mut whole = Table::new();
                std::mem::swap(self, &mut whole);
                let Table { mut names, mut items } = whole;
                names.remove(i);
                let v = items.remove(i);
                proof {
                    lemma_paired_remove(before.keys(), before.values(), key@);
                    assert(texts(names@) =~= before.keys().remove(i as int));
                }
                *self = Table { names, items };
                Some(v)
            },
            None => {
                proof {
                    assert(before@.remove(key@) =~= before@);
                }
                None
            },
        }
    }
}

/// Changing the value of a key that is there changes that one pair.
proof fn lemma_paired_update<V>(keys: Seq<Seq<char>>, values: Seq<V>, key: Seq<char>, value: V)
    requires
        keys.no_duplicates(),
        keys.len() == values.len(),
        keys.contains(key),
    ensures
        paired(keys, values.update(keys.index_of(key), value)) == paired(keys, values).insert(
            key,
            value,
        ),
{
    assert(paired(keys, values.update(keys.index_of(key), value)) =~= paired(keys, values).insert(
        key,
        value,
    ));
}

/// A new key at the end adds one pair.
proof fn lemma_paired_push<V>(keys: Seq<Seq<char>>, values: Seq<V>, key: Seq<char>, value: V)
    requires
        keys.no_duplicates(),
        keys.len() == values.len(),
        !keys.contains(key),
    ensures
        keys.push(key).no_duplicates(),
        paired(keys.push(key), values.push(value)) == paired(keys, values).insert(key, value),
{
    let more = keys.push(key);
    assert(more[keys.len() as int] == key);
    assert forall|k: Seq<char>| #[trigger] more.contains(k) == (keys.contains(k) || k == key) by {
        if keys.contains(k) {
            assert(more[keys.index_of(k)] == k);
        }
    }
    assert forall|k: Seq<char>| #[trigger] keys.contains(k) implies more.index_of(k)
        == keys.index_of(k) by {
        assert(more[keys.index_of(k)] == k);
    }
    assert(paired(more, values.push(value)) =~= paired(keys, values).insert(key, value));
}

/// Taking a key out takes its pair out.
proof fn lemma_paired_remove<V>(keys: Seq<Seq<char>>, values: Seq<V>, key: Seq<char>)
    requires
        keys.no_duplicates(),
        keys.len() == values.len(),
        keys.contains(key),
    ensures
        keys.remove(keys.index_of(key)).no_duplicates(),
        paired(keys.remove(keys.index_of(key)), values.remove(keys.index_of(key))) == paired(
            keys,
            values,
        ).remove(key),
{
    let at = keys.index_of(key);
    let fewer = keys.remove(at);
    let rest = values.remove(at);
    assert forall|k: Seq<char>| #[trigger] fewer.contains(k) == (keys.contains(k) && k != key) by {
        if fewer.contains(k) {
            let j = fewer.index_of(k);
            assert(keys[if j < at { j } else { j + 1 }] == k);
        }
        if keys.contains(k) && k != key {
            let j = keys.index_of(k);
            assert(fewer[if j < at { j } else { j - 1 }] == k);
        }
    }
    assert forall|k: Seq<char>| #[trigger] fewer.contains(k) implies rest[fewer.index_of(k)]
        == values[keys.index_of(k)] by {
        let j = fewer.index_of(k);
        assert(keys[if j < at { j } else { j + 1 }] == k);
    }
    assert(paired(fewer, rest) =~= paired(keys, values).remove(key));
}

/// A table holds a value under each of its keys and under no other text, and where no key occurs
/// twice the value under a key is the one at the key's place.
pub proof fn law_table_holds_its_entries<V>(table: Table<V>, i: int, key: Seq<char>)
    ensures
        table@.contains_key(key) <==> table.keys().contains(key),
        table.keys().no_duplicates() && 0 <= i < table.keys().len() ==> table@.contains_key(
            table.keys()[i],
        ) && table@[table.keys()[i]] == table.values()[i],
{
    if 0 <= i < table.keys().len() {
        assert(table.keys().contains(table.keys()[i]));
    }
}

} // verus!
