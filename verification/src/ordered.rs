//! A map whose entries stand in the order of their keys.
//!
//! The configuration, the pins and the remembered layouts are all small tables that are printed
//! and searched in the order of their keys, and no key stands in one twice.

use vstd::prelude::*;

use crate::text::{
    before, lemma_before_is_irreflexive, lemma_before_is_transitive, standing, Duplicate, Standing,
    Text,
};

verus! {

/// Whether the keys of `entries` stand in strictly ascending order.
pub open spec fn ascending<W>(entries: Seq<(Seq<char>, W)>) -> bool {
    forall|i: int, j: int|
        0 <= i < j < entries.len() ==> before(#[trigger] entries[i].0, #[trigger] entries[j].0)
}

/// Whether the entry at `i` stands under `key`.
pub open spec fn stands_at<W>(entries: Seq<(Seq<char>, W)>, key: Seq<char>, i: int) -> bool {
    0 <= i < entries.len() && entries[i].0 == key
}

/// Whether some entry stands under `key`.
pub open spec fn carries<W>(entries: Seq<(Seq<char>, W)>, key: Seq<char>) -> bool {
    exists|i: int| stands_at(entries, key, i)
}

/// The value that stands under `key`, if there is one.
pub open spec fn lookup<W>(entries: Seq<(Seq<char>, W)>, key: Seq<char>) -> Option<W> {
    if carries(entries, key) {
        Some(entries[choose|i: int| stands_at(entries, key, i)].1)
    } else {
        None
    }
}

/// What stands under each key.
pub open spec fn table<W>(entries: Seq<(Seq<char>, W)>) -> Map<Seq<char>, W> {
    Map::new(|key: Seq<char>| carries(entries, key), |key: Seq<char>| lookup(entries, key)->0)
}

/// The keys of `entries`, in their order.
pub open spec fn keys<W>(entries: Seq<(Seq<char>, W)>) -> Seq<Seq<char>> {
    entries.map_values(|entry: (Seq<char>, W)| entry.0)
}

/// No key stands twice in an ascending table, so looking a key up finds the one entry under it.
pub proof fn lemma_lookup_in_ascending<W>(entries: Seq<(Seq<char>, W)>, i: int)
    requires
        ascending(entries),
        0 <= i < entries.len(),
    ensures
        lookup(entries, entries[i].0) == Some(entries[i].1),
{
    let key = entries[i].0;
    assert(stands_at(entries, key, i));
    let found = choose|j: int| stands_at(entries, key, j);
    lemma_before_is_irreflexive(key);
    assert(found == i);
}

/// The table that carries `put` at `at`, in place of the entry there when that one has its key.
spec fn placed<W>(entries: Seq<(Seq<char>, W)>, at: int, put: (Seq<char>, W)) -> Seq<
    (Seq<char>, W),
> {
    if at < entries.len() && entries[at].0 == put.0 {
        entries.update(at, put)
    } else {
        entries.insert(at, put)
    }
}

/// Placing an entry where its key belongs keeps the order and changes what stands under its key,
/// and nothing else.
proof fn lemma_placed<W>(entries: Seq<(Seq<char>, W)>, at: int, put: (Seq<char>, W))
    requires
        ascending(entries),
        0 <= at <= entries.len(),
        forall|i: int| 0 <= i < at ==> before(#[trigger] entries[i].0, put.0),
        at < entries.len() ==> entries[at].0 == put.0 || before(put.0, entries[at].0),
    ensures
        ascending(placed(entries, at, put)),
        forall|sought: Seq<char>| #[trigger]
            lookup(placed(entries, at, put), sought) == if sought == put.0 {
                Some(put.1)
            } else {
                lookup(entries, sought)
            },
{
    let new = placed(entries, at, put);
    let replaced = at < entries.len() && entries[at].0 == put.0;
    let shift: int = if replaced { 0 } else { 1 };
    assert forall|i: int|
        at <= i < entries.len() && (i > at || !replaced) implies before(
        put.0,
        #[trigger] entries[i].0,
    ) by {
        if i > at && !replaced {
            lemma_before_is_transitive(put.0, entries[at].0, entries[i].0);
        }
    }
    assert forall|i: int, j: int| 0 <= i < j < new.len() implies before(
        #[trigger] new[i].0,
        #[trigger] new[j].0,
    ) by {
        let from = if i > at { i - shift } else { i };
        let to = if j > at { j - shift } else { j };
        if i != at {
            assert(new[i] == entries[from]);
        }
        if j != at {
            assert(new[j] == entries[to]);
        }
    }
    assert forall|sought: Seq<char>| #[trigger]
        lookup(new, sought) == if sought == put.0 {
            Some(put.1)
        } else {
            lookup(entries, sought)
        } by {
        if sought == put.0 {
            lemma_lookup_in_ascending(new, at);
        } else if carries(entries, sought) {
            let i = choose|i: int| stands_at(entries, sought, i);
            let j = if i >= at { i + shift } else { i };
            assert(new[j] == entries[i]);
            lemma_lookup_in_ascending(new, j);
            lemma_lookup_in_ascending(entries, i);
        } else if carries(new, sought) {
            let j = choose|j: int| stands_at(new, sought, j);
            let i = if j > at { j - shift } else { j };
            assert(new[j] == entries[i]);
            assert(stands_at(entries, sought, i));
        }
    }
}

proof fn lemma_table_of_placed<W>(
    entries: Seq<(Seq<char>, W)>,
    new: Seq<(Seq<char>, W)>,
    put: (Seq<char>, W),
)
    requires
        forall|sought: Seq<char>| #[trigger]
            lookup(new, sought) == if sought == put.0 {
                Some(put.1)
            } else {
                lookup(entries, sought)
            },
    ensures
        table(new) == table(entries).insert(put.0, put.1),
{
    assert forall|key: Seq<char>| table(new).dom().contains(key) <==> #[trigger] table(
        entries,
    ).insert(put.0, put.1).dom().contains(key) by {
        assert(lookup(new, key) is Some <==> carries(new, key));
        assert(lookup(entries, key) is Some <==> carries(entries, key));
    }
    assert forall|key: Seq<char>| table(new).dom().contains(key) implies #[trigger] table(new)[key]
        == table(entries).insert(put.0, put.1)[key] by {
        assert(lookup(new, key) is Some <==> carries(new, key));
    }
    assert(table(new) =~= table(entries).insert(put.0, put.1));
}

/// A table of values under text keys, kept in the order of the keys.
#[derive(Debug, PartialEq, Eq)]
pub struct OrderedMap<K: Text, V> {
    entries: Vec<(K, V)>,
}

impl<K: Text, V: View> View for OrderedMap<K, V> {
    type V = Seq<(Seq<char>, V::V)>;

    closed spec fn view(&self) -> Seq<(Seq<char>, V::V)> {
        self.entries@.map_values(|entry: (K, V)| (entry.0.text(), entry.1@))
    }
}

impl<K: Text, V> OrderedMap<K, V> {
    /// The keys stand in strictly ascending order, so none stands twice.
    #[verifier::type_invariant]
    spec fn in_order(self) -> bool {
        forall|i: int, j: int|
            0 <= i < j < self.entries@.len() ==> before(
                (#[trigger] self.entries@[i]).0.text(),
                (#[trigger] self.entries@[j]).0.text(),
            )
    }
}

impl<K: Text, V: View> OrderedMap<K, V> {
    /// Creates a table that carries nothing.
    pub fn new() -> (map: OrderedMap<K, V>)
        ensures
            map@.len() == 0,
    {
        OrderedMap { entries: Vec::new() }
    }

    /// Returns how many entries the table carries.
    pub fn len(&self) -> (len: usize)
        ensures
            len == self@.len(),
            ascending(self@),
    {
        proof {
            use_type_invariant(self);
        }
        self.entries.len()
    }

    /// Returns whether the table carries nothing.
    pub fn is_empty(&self) -> (empty: bool)
        ensures
            empty <==> self@.len() == 0,
            ascending(self@),
    {
        proof {
            use_type_invariant(self);
        }
        self.entries.len() == 0
    }

    /// Returns the key that stands at `index`.
    pub fn key_at(&self, index: usize) -> (key: &K)
        requires
            index < self@.len(),
        ensures
            key.text() == self@[index as int].0,
            ascending(self@),
    {
        proof {
            use_type_invariant(self);
        }
        &self.entries[index].0
    }

    /// Returns the value that stands at `index`.
    pub fn value_at(&self, index: usize) -> (value: &V)
        requires
            index < self@.len(),
        ensures
            value@ == self@[index as int].1,
            ascending(self@),
    {
        proof {
            use_type_invariant(self);
        }
        &self.entries[index].1
    }

    /// Returns the value that stands under `key`.
    pub fn get(&self, key: &K) -> (value: Option<&V>)
        ensures
            match value {
                Some(value) => lookup(self@, key.text()) == Some(value@),
                None => lookup(self@, key.text()) is None,
            },
            ascending(self@),
    {
        proof {
            use_type_invariant(self);
        }
        let len: usize = self.entries.len();
        let mut index: usize = 0;
        while index < len
            invariant
                len == self.entries@.len(),
                len == self@.len(),
                index <= len,
                forall|i: int| 0 <= i < index ==> (#[trigger] self@[i]).0 != key.text(),
                ascending(self@),
            decreases len - index,
        {
            let entry = &self.entries[index];
            assert(self@[index as int] == (entry.0.text(), entry.1@));
            if let Standing::Same = standing(entry.0.as_text(), key.as_text()) {
                proof {
                    lemma_lookup_in_ascending(self@, index as int);
                }
                return Some(&entry.1);
            }
            index += 1;
        }
        None
    }

    /// Returns whether some value stands under `key`.
    pub fn contains_key(&self, key: &K) -> (contained: bool)
        ensures
            contained <==> carries(self@, key.text()),
            ascending(self@),
    {
        self.get(key).is_some()
    }

    /// Puts `value` under `key`, replacing whatever stood there.
    pub fn insert(&mut self, key: K, value: V)
        ensures
            ascending(old(self)@),
            ascending(final(self)@),
            forall|sought: Seq<char>|
                #[trigger] lookup(final(self)@, sought) == if sought == key.text() {
                    Some(value@)
                } else {
                    lookup(old(self)@, sought)
                },
            table(final(self)@) == table(old(self)@).insert(key.text(), value@),
    {
        proof {
            use_type_invariant(&*self);
        }
        let ghost standing_before = self@;
        let ghost put = (key.text(), value@);
        let mut entries: Vec<(K, V)> = Vec::new();
        std::mem::swap(&mut entries, &mut self.entries);
        let ghost kept = entries@;
        let len: usize = entries.len();
        let mut index: usize = 0;
        let mut replaced: bool = false;
        while index < len
            invariant_except_break
                !replaced,
                index <= len,
            invariant
                len == entries@.len(),
                entries@ == kept,
                forall|i: int| 0 <= i < index ==> before((#[trigger] kept[i]).0.text(), key.text()),
            ensures
                index <= len,
                replaced ==> index < len && kept[index as int].0.text() == key.text(),
                !replaced && index < len ==> before(key.text(), kept[index as int].0.text()),
            decreases len - index,
        {
            match standing(entries[index].0.as_text(), key.as_text()) {
                Standing::Before => {
                    index += 1;
                },
                Standing::Same => {
                    replaced = true;
                    break;
                },
                Standing::After => {
                    break;
                },
            }
        }
        if replaced {
            entries.remove(index);
        }
        entries.insert(index, (key, value));
        proof {
            let viewed = entries@.map_values(|entry: (K, V)| (entry.0.text(), entry.1@));
            lemma_before_is_irreflexive(put.0);
            assert(index < len ==> standing_before[index as int].0 == kept[index as int].0.text());
            assert(viewed =~= placed(standing_before, index as int, put));
            assert forall|i: int| 0 <= i < index implies before(
                #[trigger] standing_before[i].0,
                put.0,
            ) by {
                assert(standing_before[i].0 == kept[i].0.text());
            }
            lemma_placed(standing_before, index as int, put);
            assert forall|i: int, j: int| 0 <= i < j < entries@.len() implies before(
                (#[trigger] entries@[i]).0.text(),
                (#[trigger] entries@[j]).0.text(),
            ) by {
                assert(viewed[i].0 == entries@[i].0.text());
                assert(viewed[j].0 == entries@[j].0.text());
            }
            lemma_table_of_placed(standing_before, viewed, put);
        }
        self.entries = entries;
    }

    /// Puts `value` under `key` behind every other entry.
    pub(crate) fn push(&mut self, key: K, value: V)
        requires
            old(self)@.len() > 0 ==> before(old(self)@.last().0, key.text()),
        ensures
            final(self)@ == old(self)@.push((key.text(), value@)),
            ascending(final(self)@),
    {
        proof {
            use_type_invariant(&*self);
        }
        let ghost standing_before = self@;
        let ghost put = (key.text(), value@);
        let mut entries: Vec<(K, V)> = Vec::new();
        std::mem::swap(&mut entries, &mut self.entries);
        let ghost kept = entries@;
        entries.push((key, value));
        proof {
            assert forall|i: int| 0 <= i < kept.len() implies before(
                (#[trigger] kept[i]).0.text(),
                put.0,
            ) by {
                assert(standing_before.last().0 == kept.last().0.text());
                if i < kept.len() - 1 {
                    lemma_before_is_transitive(kept[i].0.text(), kept.last().0.text(), put.0);
                }
            }
            assert forall|i: int, j: int| 0 <= i < j < entries@.len() implies before(
                (#[trigger] entries@[i]).0.text(),
                (#[trigger] entries@[j]).0.text(),
            ) by {
                assert(entries@[i] == kept[i]);
            }
        }
        self.entries = entries;
    }
}

impl<K: Text, V: Duplicate> Clone for OrderedMap<K, V> {
    fn clone(&self) -> (copy: OrderedMap<K, V>)
        ensures
            copy@ == self@,
    {
        let mut copy: OrderedMap<K, V> = OrderedMap::new();
        let len: usize = self.len();
        let mut index: usize = 0;
        while index < len
            invariant
                len == self@.len(),
                index <= len,
                ascending(self@),
                copy@ == self@.take(index as int),
            decreases len - index,
        {
            copy.push(self.key_at(index).copied_key(), self.value_at(index).duplicate());
            index += 1;
            assert(copy@ =~= self@.take(index as int));
        }
        assert(self@.take(len as int) =~= self@);
        copy
    }
}

/// A key is found exactly where an entry stands under it, and what is found is the value of one of
/// those entries; in a table that is in order there is no other.
pub proof fn a_key_is_found_where_an_entry_stands_under_it<W>(
    entries: Seq<(Seq<char>, W)>,
    key: Seq<char>,
)
    ensures
        lookup(entries, key) is None <==> forall|i: int|
            0 <= i < entries.len() ==> (#[trigger] entries[i]).0 != key,
        lookup(entries, key) matches Some(value) ==> exists|i: int|
            0 <= i < entries.len() && #[trigger] entries[i] == (key, value),
        carries(entries, key) <==> lookup(entries, key) is Some,
        table(entries).dom().contains(key) <==> lookup(entries, key) is Some,
        lookup(entries, key) matches Some(value) ==> table(entries)[key] == value,
{
    if carries(entries, key) {
        let i = choose|i: int| stands_at(entries, key, i);
        assert(entries[i].0 == key);
        assert(entries[i] == (key, lookup(entries, key)->0));
    } else {
        assert forall|i: int| 0 <= i < entries.len() implies (#[trigger] entries[i]).0 != key by {
            assert(!stands_at(entries, key, i));
        }
    }
}

/// A table is in order exactly where each key stands before every key behind it.
pub proof fn a_table_in_order_has_its_keys_in_order<W>(entries: Seq<(Seq<char>, W)>)
    ensures
        ascending(entries) <==> forall|i: int, j: int|
            0 <= i < j < entries.len() ==> before(
                (#[trigger] entries[i]).0,
                (#[trigger] entries[j]).0,
            ),
        keys(entries).len() == entries.len(),
        forall|i: int| 0 <= i < entries.len() ==> #[trigger] keys(entries)[i] == entries[i].0,
{
}

} // verus!
