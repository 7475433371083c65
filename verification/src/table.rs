//! Tables: typed keys mapped to typed values, kept in the order of the keys.

use crate::entry_ops::{
    contains_key, find_entry, insert_entry, inserted, lookup, remove_entry, removed,
};
use crate::ordered_entries::{bounds_partition, entries_view, keys_decodable, ordered};
use crate::range_bounds::{bound_decodable, in_range, range_positions, Bound};
use crate::types::{RedbKey, RedbValue};
use std::marker::PhantomData;
use vstd::prelude::*;
use vstd::slice::slice_to_vec;
use vstd::string::*;

verus! {

/// A stored value that was taken out of a table, still as bytes.
pub struct AccessGuard<V: RedbValue + ?Sized> {
    data: Vec<u8>,
    value_type: PhantomData<V>,
}

impl<V: RedbValue + ?Sized> AccessGuard<V> {
    /// The bytes of the stored value.
    pub closed spec fn bytes(&self) -> Seq<u8> {
        self.data@
    }

    /// Reads the stored value.
    pub fn to_value(&self) -> (value: V::View)
        requires
            V::decodable(self.bytes()),
        ensures
            V::decodes_to(self.bytes(), value),
    {
        V::from_bytes(self.data.as_slice())
    }

    /// The stored value as it is stored.
    pub fn as_bytes(&self) -> (bytes: &[u8])
        ensures
            bytes@ == self.bytes(),
    {
        self.data.as_slice()
    }
}

/// The bytes of the key of a bound on keys of type `K`.
pub open spec fn bound_encoding<K: RedbKey + ?Sized>(bound: Bound<&K>) -> Bound<Seq<u8>> {
    match bound {
        Bound::Included(key) => Bound::Included(key.encoding()),
        Bound::Excluded(key) => Bound::Excluded(key.encoding()),
        Bound::Unbounded => Bound::Unbounded,
    }
}

/// What can be read from a table.
pub trait ReadableTable<K: RedbKey + ?Sized, V: RedbValue + ?Sized> {
    /// What the table holds: its entries, each as the bytes of its key and
    /// of its value, in the order of the keys.
    spec fn entries(&self) -> Seq<(Seq<u8>, Seq<u8>)>;

    /// Returns the value corresponding to the given key.
    fn get(&self, key: &K) -> (value: Option<V::View>)
        requires
            ordered::<K>(self.entries()),
            K::decodable(key.encoding()),
            lookup::<K>(self.entries(), key.encoding()) matches Some(bytes) ==> V::decodable(
                bytes,
            ),
        ensures
            match lookup::<K>(self.entries(), key.encoding()) {
                Some(bytes) => value is Some && V::decodes_to(bytes, value->Some_0),
                None => value is None,
            },
    ;

    /// Returns a double-ended iterator over a range of elements in the
    /// table.
    fn range<'a>(&'a self, start: Bound<&K>, end: Bound<&K>) -> (iter: RangeIter<'a, K, V>)
        requires
            ordered::<K>(self.entries()),
            bound_decodable::<K>(bound_encoding::<K>(start)),
            bound_decodable::<K>(bound_encoding::<K>(end)),
        ensures
            iter.well_formed(),
            iter.remaining() == in_range::<K>(
                self.entries(),
                bound_encoding::<K>(start),
                bound_encoding::<K>(end),
            ),
    ;

    /// Returns the number of entries in the table.
    fn len(&self) -> (count: usize)
        ensures
            count == self.entries().len(),
    ;

    /// Returns `true` if the table is empty.
    fn is_empty(&self) -> (empty: bool)
        ensures
            empty == (self.entries().len() == 0),
    ;
}

/// Reads the value that `entries` hold for `key`.
fn get_value<K: RedbKey + ?Sized, V: RedbValue + ?Sized>(
    entries: &Vec<(Vec<u8>, Vec<u8>)>,
    key: &K,
) -> (value: Option<V::View>)
    requires
        ordered::<K>(entries_view(entries@)),
        K::decodable(key.encoding()),
        lookup::<K>(entries_view(entries@), key.encoding()) matches Some(bytes) ==> V::decodable(
            bytes,
        ),
    ensures
        match lookup::<K>(entries_view(entries@), key.encoding()) {
            Some(bytes) => value is Some && V::decodes_to(bytes, value->Some_0),
            None => value is None,
        },
{
    let key_bytes = key.as_bytes();
    match find_entry::<K>(entries, key_bytes.as_slice()) {
        Some(place) => {
            assert(entries_view(entries@)[place as int].1 == entries@[place as int].1@);
            Some(V::from_bytes(entries[place].1.as_slice()))
        },
        None => None,
    }
}

/// Makes the iterator over the entries of a range.
fn range_of<'a, K: RedbKey + ?Sized, V: RedbValue + ?Sized>(
    entries: &'a Vec<(Vec<u8>, Vec<u8>)>,
    start: Bound<&K>,
    end: Bound<&K>,
) -> (iter: RangeIter<'a, K, V>)
    requires
        ordered::<K>(entries_view(entries@)),
        bound_decodable::<K>(bound_encoding::<K>(start)),
        bound_decodable::<K>(bound_encoding::<K>(end)),
    ensures
        iter.well_formed(),
        iter.remaining() == in_range::<K>(
            entries_view(entries@),
            bound_encoding::<K>(start),
            bound_encoding::<K>(end),
        ),
{
    let first: Option<Vec<u8>> = match start {
        Bound::Included(key) => Some(key.as_bytes()),
        Bound::Excluded(key) => Some(key.as_bytes()),
        Bound::Unbounded => None,
    };
    let last: Option<Vec<u8>> = match end {
        Bound::Included(key) => Some(key.as_bytes()),
        Bound::Excluded(key) => Some(key.as_bytes()),
        Bound::Unbounded => None,
    };
    let from: Bound<&[u8]> = match (&start, &first) {
        (Bound::Included(_), Some(bytes)) => Bound::Included(bytes.as_slice()),
        (Bound::Excluded(_), Some(bytes)) => Bound::Excluded(bytes.as_slice()),
        _ => Bound::Unbounded,
    };
    let to: Bound<&[u8]> = match (&end, &last) {
        (Bound::Included(_), Some(bytes)) => Bound::Included(bytes.as_slice()),
        (Bound::Excluded(_), Some(bytes)) => Bound::Excluded(bytes.as_slice()),
        _ => Bound::Unbounded,
    };
    let (front, back) = range_positions::<K>(entries, from, to);
    RangeIter::new(entries, front, back)
}

/// A table containing key-value mappings.
pub struct Table<K: RedbKey + ?Sized, V: RedbValue + ?Sized> {
    name: String,
    entries: Vec<(Vec<u8>, Vec<u8>)>,
    key_type: PhantomData<K>,
    value_type: PhantomData<V>,
}

impl<K: RedbKey + ?Sized, V: RedbValue + ?Sized> Table<K, V> {
    /// The name of the table.
    pub closed spec fn name(&self) -> Seq<char> {
        self.name@
    }

    /// What the table holds.
    pub closed spec fn content(&self) -> Seq<(Seq<u8>, Seq<u8>)> {
        entries_view(self.entries@)
    }

    /// A table of the given name that holds `entries`.
    pub fn new(name: &str, entries: Vec<(Vec<u8>, Vec<u8>)>) -> (table: Self)
        requires
            ordered::<K>(entries_view(entries@)),
        ensures
            table.name() == name@,
            table.content() == entries_view(entries@),
    {
        Table {
            name: String::from_str(name),
            entries,
            key_type: PhantomData,
            value_type: PhantomData,
        }
    }

    /// Takes the table apart: its name and its entries.
    pub fn into_parts(self) -> (parts: (String, Vec<(Vec<u8>, Vec<u8>)>))
        ensures
            parts.0@ == self.name(),
            entries_view(parts.1@) == self.content(),
    {
        (self.name, self.entries)
    }

    /// The entries of the table as they would be shown: each key with its
    /// value, or with an empty value where the values are left out.
    pub fn print_debug(&self, include_values: bool) -> (lines: Vec<(Vec<u8>, Vec<u8>)>)
        ensures
            lines@.len() == self.content().len(),
            forall|i: int|
                0 <= i < lines@.len() ==> (#[trigger] lines@[i]).0@ == self.content()[i].0
                    && lines@[i].1@ == if include_values {
                    self.content()[i].1
                } else {
                    Seq::<u8>::empty()
                },
    {
        let mut lines: Vec<(Vec<u8>, Vec<u8>)> = Vec::new();
        let mut i: usize = 0;
        while i < self.entries.len()
            invariant
                i <= self.entries@.len(),
                lines@.len() == i,
                forall|j: int|
                    0 <= j < i ==> (#[trigger] lines@[j]).0@ == self.entries@[j].0@ && lines@[j].1@
                        == if include_values {
                        self.entries@[j].1@
                    } else {
                        Seq::<u8>::empty()
                    },
            decreases self.entries@.len() - i,
        {
            let key = slice_to_vec(self.entries[i].0.as_slice());
            let value = if include_values {
                slice_to_vec(self.entries[i].1.as_slice())
            } else {
                Vec::new()
            };
            lines.push((key, value));
            i += 1;
        }
        lines
    }

    /// Insert mapping of the given key to the given value.
    ///
    /// Returns the old value, if the key was present in the table.
    pub fn insert(&mut self, key: &K, value: &V) -> (previous: Option<AccessGuard<V>>)
        requires
            ordered::<K>(old(self).content()),
            K::decodable(key.encoding()),
        ensures
            final(self).name() == old(self).name(),
            final(self).content() == inserted::<K>(
                old(self).content(),
                key.encoding(),
                value.encoding(),
            ),
            ordered::<K>(final(self).content()),
            match lookup::<K>(old(self).content(), key.encoding()) {
                Some(bytes) => previous is Some && previous->Some_0.bytes() == bytes,
                None => previous is None,
            },
    {
        let key_bytes = key.as_bytes();
        let value_bytes = value.as_bytes();
        match insert_entry::<K>(&mut self.entries, key_bytes, value_bytes).0 {
            Some(data) => Some(AccessGuard { data, value_type: PhantomData }),
            None => None,
        }
    }

    /// Reserve space to insert a key-value pair.
    ///
    /// The key is given a value of `value_length` zero bytes, and the
    /// returned reference is to that value: what is written through it
    /// becomes the value of the key.
    pub fn insert_reserve(&mut self, key: &K, value_length: usize) -> (region: &mut [u8])
        requires
            ordered::<K>(old(self).content()),
            K::decodable(key.encoding()),
        ensures
            region@ == Seq::new(value_length as nat, |i: int| 0u8),
            final(self).name() == old(self).name(),
            final(self).content() == inserted::<K>(
                old(self).content(),
                key.encoding(),
                final(region)@,
            ),
    {
        let ghost before = self.content();
        let ghost key_view = key.encoding();
        let value: Vec<u8> = vec![0u8; value_length];
        assert(value@ =~= Seq::new(value_length as nat, |i: int| 0u8));
        let place = insert_entry::<K>(&mut self.entries, key.as_bytes(), value).1;
        proof {
            let held = self.entries@;
            assert forall|entry: (Vec<u8>, Vec<u8>)| entry.0@ == key_view implies entries_view(
                #[trigger] held.update(place as int, entry),
            ) == inserted::<K>(before, key_view, entry.1@) by {
                let written = (key_view, entry.1@);
                let at = place as int;
                bounds_partition::<K>(before, key_view);
                assert(entries_view(held.update(at, entry)) =~= entries_view(held).update(
                    at,
                    written,
                ));
                if contains_key::<K>(before, key_view) {
                    assert(entries_view(held).update(at, written) =~= before.update(at, written));
                } else {
                    assert(entries_view(held).update(at, written) =~= before.insert(at, written));
                }
            }
        }
        self.entries[place].1.as_mut_slice()
    }

    /// Removes the given key.
    ///
    /// Returns the old value, if the key was present in the table.
    pub fn remove(&mut self, key: &K) -> (previous: Option<AccessGuard<V>>)
        requires
            ordered::<K>(old(self).content()),
            K::decodable(key.encoding()),
        ensures
            final(self).name() == old(self).name(),
            final(self).content() == removed::<K>(old(self).content(), key.encoding()),
            ordered::<K>(final(self).content()),
            match lookup::<K>(old(self).content(), key.encoding()) {
                Some(bytes) => previous is Some && previous->Some_0.bytes() == bytes,
                None => previous is None,
            },
    {
        let key_bytes = key.as_bytes();
        match remove_entry::<K>(&mut self.entries, key_bytes.as_slice()) {
            Some(data) => Some(AccessGuard { data, value_type: PhantomData }),
            None => None,
        }
    }
}

impl<K: RedbKey + ?Sized, V: RedbValue + ?Sized> ReadableTable<K, V> for Table<K, V> {
    open spec fn entries(&self) -> Seq<(Seq<u8>, Seq<u8>)> {
        self.content()
    }

    fn get(&self, key: &K) -> (value: Option<V::View>) {
        get_value::<K, V>(&self.entries, key)
    }

    fn range<'a>(&'a self, start: Bound<&K>, end: Bound<&K>) -> (iter: RangeIter<'a, K, V>) {
        range_of::<K, V>(&self.entries, start, end)
    }

    fn len(&self) -> (count: usize) {
        self.entries.len()
    }

    fn is_empty(&self) -> (empty: bool) {
        self.entries.len() == 0
    }
}

/// A read-only table.
pub struct ReadOnlyTable<K: RedbKey + ?Sized, V: RedbValue + ?Sized> {
    entries: Vec<(Vec<u8>, Vec<u8>)>,
    key_type: PhantomData<K>,
    value_type: PhantomData<V>,
}

impl<K: RedbKey + ?Sized, V: RedbValue + ?Sized> ReadOnlyTable<K, V> {
    /// What the table holds.
    pub closed spec fn content(&self) -> Seq<(Seq<u8>, Seq<u8>)> {
        entries_view(self.entries@)
    }

    /// A read-only table that holds `entries`.
    pub fn new(entries: Vec<(Vec<u8>, Vec<u8>)>) -> (table: Self)
        requires
            ordered::<K>(entries_view(entries@)),
        ensures
            table.content() == entries_view(entries@),
    {
        ReadOnlyTable { entries, key_type: PhantomData, value_type: PhantomData }
    }
}

impl<K: RedbKey + ?Sized, V: RedbValue + ?Sized> ReadableTable<K, V> for ReadOnlyTable<K, V> {
    open spec fn entries(&self) -> Seq<(Seq<u8>, Seq<u8>)> {
        self.content()
    }

    fn get(&self, key: &K) -> (value: Option<V::View>) {
        get_value::<K, V>(&self.entries, key)
    }

    fn range<'a>(&'a self, start: Bound<&K>, end: Bound<&K>) -> (iter: RangeIter<'a, K, V>) {
        range_of::<K, V>(&self.entries, start, end)
    }

    fn len(&self) -> (count: usize) {
        self.entries.len()
    }

    fn is_empty(&self) -> (empty: bool) {
        self.entries.len() == 0
    }
}

/// A double-ended iterator over the entries of a range, in the order of
/// their keys.
pub struct RangeIter<'a, K: RedbKey + ?Sized, V: RedbValue + ?Sized> {
    entries: &'a Vec<(Vec<u8>, Vec<u8>)>,
    front: usize,
    back: usize,
    key_type: PhantomData<K>,
    value_type: PhantomData<V>,
}

impl<'a, K: RedbKey + ?Sized, V: RedbValue + ?Sized> RangeIter<'a, K, V> {
    /// The entries that the iterator has yet to yield, in the order of
    /// their keys.
    pub closed spec fn remaining(&self) -> Seq<(Seq<u8>, Seq<u8>)> {
        entries_view(self.entries@).subrange(self.front as int, self.back as int)
    }

    /// Whether the iterator is as every iterator is: what it has yet to
    /// yield lies within the entries it was made for, whose keys can be
    /// read.
    pub closed spec fn well_formed(&self) -> bool {
        &&& self.front <= self.back <= self.entries@.len()
        &&& keys_decodable::<K>(entries_view(self.entries@))
    }

    /// An iterator over the entries from `front` up to `back`.
    pub fn new(entries: &'a Vec<(Vec<u8>, Vec<u8>)>, front: usize, back: usize) -> (iter: Self)
        requires
            front <= back <= entries@.len(),
            keys_decodable::<K>(entries_view(entries@)),
        ensures
            iter.well_formed(),
            iter.remaining() == entries_view(entries@).subrange(front as int, back as int),
    {
        RangeIter { entries, front, back, key_type: PhantomData, value_type: PhantomData }
    }

    /// Yields the first of the remaining entries.
    pub fn next(&mut self) -> (item: Option<(K::View, V::View)>)
        requires
            old(self).well_formed(),
            old(self).remaining().len() > 0 ==> V::decodable(old(self).remaining().first().1),
        ensures
            final(self).well_formed(),
            match item {
                Some((key, value)) => {
                    &&& old(self).remaining().len() > 0
                    &&& K::decodes_to(old(self).remaining().first().0, key)
                    &&& V::decodes_to(old(self).remaining().first().1, value)
                    &&& final(self).remaining() == old(self).remaining().drop_first()
                },
                None => old(self).remaining().len() == 0 && final(self).remaining() == old(
                    self,
                ).remaining(),
            },
    {
        if self.front < self.back {
            let ghost view = entries_view(self.entries@);
            assert(view[self.front as int] == (
                self.entries@[self.front as int].0@,
                self.entries@[self.front as int].1@,
            ));
            assert(self.remaining().first() == view[self.front as int]);
            assert(K::decodable(view[self.front as int].0));
            let key = K::from_bytes(self.entries[self.front].0.as_slice());
            let value = V::from_bytes(self.entries[self.front].1.as_slice());
            self.front += 1;
            assert(self.remaining() =~= old(self).remaining().drop_first());
            Some((key, value))
        } else {
            None
        }
    }

    /// Yields the last of the remaining entries.
    pub fn next_back(&mut self) -> (item: Option<(K::View, V::View)>)
        requires
            old(self).well_formed(),
            old(self).remaining().len() > 0 ==> V::decodable(old(self).remaining().last().1),
        ensures
            final(self).well_formed(),
            match item {
                Some((key, value)) => {
                    &&& old(self).remaining().len() > 0
                    &&& K::decodes_to(old(self).remaining().last().0, key)
                    &&& V::decodes_to(old(self).remaining().last().1, value)
                    &&& final(self).remaining() == old(self).remaining().drop_last()
                },
                None => old(self).remaining().len() == 0 && final(self).remaining() == old(
                    self,
                ).remaining(),
            },
    {
        if self.front < self.back {
            let ghost view = entries_view(self.entries@);
            let at: usize = self.back - 1;
            assert(view[at as int] == (self.entries@[at as int].0@, self.entries@[at as int].1@));
            assert(self.remaining().last() == view[at as int]);
            assert(K::decodable(view[at as int].0));
            let key = K::from_bytes(self.entries[at].0.as_slice());
            let value = V::from_bytes(self.entries[at].1.as_slice());
            self.back = at;
            assert(self.remaining() =~= old(self).remaining().drop_last());
            Some((key, value))
        } else {
            None
        }
    }
}

} // verus!
