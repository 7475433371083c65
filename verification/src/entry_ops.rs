//! What looking up, inserting and removing a key mean for ordered entries,
//! and that they behave as a map from keys to values does.

use crate::key_order::{
    is_greater, key_equal, key_greater, key_less, key_transitivity, key_trichotomy,
};
use crate::ordered_entries::{
    bounds_partition, entries_view, lower_bound, lower_position, ordered, upper_bound,
};
use crate::types::RedbKey;
use vstd::prelude::*;

verus! {

/// Whether an entry of `entries` has a key equal to `key`.
pub open spec fn contains_key<K: RedbKey + ?Sized>(
    entries: Seq<(Seq<u8>, Seq<u8>)>,
    key: Seq<u8>,
) -> bool {
    lower_bound::<K>(entries, key) < upper_bound::<K>(entries, key)
}

/// The value of the entry whose key is equal to `key`, if there is one.
pub open spec fn lookup<K: RedbKey + ?Sized>(
    entries: Seq<(Seq<u8>, Seq<u8>)>,
    key: Seq<u8>,
) -> Option<Seq<u8>> {
    if contains_key::<K>(entries, key) {
        Some(entries[lower_bound::<K>(entries, key)].1)
    } else {
        None
    }
}

/// The entries after `key` was given `value`: the entry with an equal key is
/// replaced, or else a new entry takes its place in the order.
pub open spec fn inserted<K: RedbKey + ?Sized>(
    entries: Seq<(Seq<u8>, Seq<u8>)>,
    key: Seq<u8>,
    value: Seq<u8>,
) -> Seq<(Seq<u8>, Seq<u8>)> {
    if contains_key::<K>(entries, key) {
        entries.update(lower_bound::<K>(entries, key), (key, value))
    } else {
        entries.insert(lower_bound::<K>(entries, key), (key, value))
    }
}

/// The entries after `key` was removed: without the entry that has an equal
/// key, if there was one.
pub open spec fn removed<K: RedbKey + ?Sized>(
    entries: Seq<(Seq<u8>, Seq<u8>)>,
    key: Seq<u8>,
) -> Seq<(Seq<u8>, Seq<u8>)> {
    if contains_key::<K>(entries, key) {
        entries.remove(lower_bound::<K>(entries, key))
    } else {
        entries
    }
}

/// An entry with a key equal to `key` is the one that `lookup` finds.
pub proof fn lookup_at<K: RedbKey + ?Sized>(
    entries: Seq<(Seq<u8>, Seq<u8>)>,
    key: Seq<u8>,
    index: int,
)
    requires
        ordered::<K>(entries),
        K::decodable(key),
        0 <= index < entries.len(),
        key_equal::<K>(entries[index].0, key),
    ensures
        lower_bound::<K>(entries, key) == index,
        upper_bound::<K>(entries, key) == index + 1,
        lookup::<K>(entries, key) == Some(entries[index].1),
{
    bounds_partition::<K>(entries, key);
    key_trichotomy::<K>(entries[index].0, key);
}

/// Where no entry has a key equal to `key`, `lookup` finds none.
pub proof fn lookup_absent<K: RedbKey + ?Sized>(entries: Seq<(Seq<u8>, Seq<u8>)>, key: Seq<u8>)
    requires
        ordered::<K>(entries),
        K::decodable(key),
        forall|i: int| 0 <= i < entries.len() ==> !key_equal::<K>((#[trigger] entries[i]).0, key),
    ensures
        !contains_key::<K>(entries, key),
        lookup::<K>(entries, key) is None,
{
    bounds_partition::<K>(entries, key);
    let low = lower_bound::<K>(entries, key);
    if low < upper_bound::<K>(entries, key) {
        assert(key_equal::<K>(entries[low].0, key));
    }
}

/// `lookup` finds a value exactly when some entry has a key equal to `key`,
/// and then it is the value of that entry.
pub proof fn lookup_found<K: RedbKey + ?Sized>(
    entries: Seq<(Seq<u8>, Seq<u8>)>,
    key: Seq<u8>,
    value: Seq<u8>,
)
    requires
        ordered::<K>(entries),
        K::decodable(key),
    ensures
        lookup::<K>(entries, key) == Some(value) <==> exists|i: int|
            0 <= i < entries.len() && key_equal::<K>((#[trigger] entries[i]).0, key)
                && entries[i].1 == value,
{
    bounds_partition::<K>(entries, key);
    let low = lower_bound::<K>(entries, key);
    if lookup::<K>(entries, key) == Some(value) {
        assert(key_equal::<K>(entries[low].0, key) && entries[low].1 == value);
    }
    if exists|i: int|
        0 <= i < entries.len() && key_equal::<K>((#[trigger] entries[i]).0, key) && entries[i].1
            == value {
        let i = choose|i: int|
            0 <= i < entries.len() && key_equal::<K>((#[trigger] entries[i]).0, key)
                && entries[i].1 == value;
        lookup_at::<K>(entries, key, i);
    }
}

/// Giving a key a value keeps the entries ordered, and their number grows
/// by one unless the key was there.
pub proof fn inserted_ordered<K: RedbKey + ?Sized>(
    entries: Seq<(Seq<u8>, Seq<u8>)>,
    key: Seq<u8>,
    value: Seq<u8>,
)
    requires
        ordered::<K>(entries),
        K::decodable(key),
    ensures
        ordered::<K>(inserted::<K>(entries, key, value)),
        inserted::<K>(entries, key, value).len() == if contains_key::<K>(entries, key) {
            entries.len()
        } else {
            entries.len() + 1
        },
{
    bounds_partition::<K>(entries, key);
    let low = lower_bound::<K>(entries, key);
    let after = inserted::<K>(entries, key, value);
    assert forall|i: int|
        0 <= i < entries.len() && key_greater::<K>(
            (#[trigger] entries[i]).0,
            key,
        ) implies key_less::<K>(key, entries[i].0) by {
        key_trichotomy::<K>(key, entries[i].0);
    }
    assert forall|i: int| 0 <= i < after.len() implies K::decodable(#[trigger] after[i].0) by {
        if contains_key::<K>(entries, key) {
            if i != low {
                assert(after[i] == entries[i]);
            }
        } else {
            if i < low {
                assert(after[i] == entries[i]);
            } else if i > low {
                assert(after[i] == entries[i - 1]);
            }
        }
    }
    assert forall|i: int, j: int|
        #![trigger after[i], after[j]]
        0 <= i < j < after.len() implies key_less::<K>(after[i].0, after[j].0) by {
        if contains_key::<K>(entries, key) {
            assert(i == low || after[i] == entries[i]);
            assert(j == low || after[j] == entries[j]);
            assert(key_less::<K>(entries[i].0, entries[j].0));
        } else {
            let from_i = if i < low {
                i
            } else {
                i - 1
            };
            let from_j = if j < low {
                j
            } else {
                j - 1
            };
            assert(i == low || after[i] == entries[from_i]);
            assert(j == low || after[j] == entries[from_j]);
            if i != low && j != low {
                assert(key_less::<K>(entries[from_i].0, entries[from_j].0));
            }
        }
    }
}

/// After a key was given a value, looking up an equal key finds that value,
/// and looking up any other key finds what it found before.
pub proof fn lookup_inserted<K: RedbKey + ?Sized>(
    entries: Seq<(Seq<u8>, Seq<u8>)>,
    key: Seq<u8>,
    value: Seq<u8>,
    other: Seq<u8>,
)
    requires
        ordered::<K>(entries),
        K::decodable(key),
        K::decodable(other),
    ensures
        lookup::<K>(inserted::<K>(entries, key, value), other) == if key_equal::<K>(other, key) {
            Some(value)
        } else {
            lookup::<K>(entries, other)
        },
{
    bounds_partition::<K>(entries, key);
    bounds_partition::<K>(entries, other);
    inserted_ordered::<K>(entries, key, value);
    key_trichotomy::<K>(other, key);
    let low = lower_bound::<K>(entries, key);
    let after = inserted::<K>(entries, key, value);
    let replaced = contains_key::<K>(entries, key);
    assert(after[low] == (key, value));
    if key_equal::<K>(other, key) {
        lookup_at::<K>(after, other, low);
    } else if contains_key::<K>(entries, other) {
        let at = lower_bound::<K>(entries, other);
        assert(key_equal::<K>(entries[at].0, other));
        if replaced {
            if at == low {
                key_trichotomy::<K>(entries[at].0, other);
                key_transitivity::<K>(other, entries[at].0, key);
            }
            assert(after[at] == entries[at]);
            lookup_at::<K>(after, other, at);
        } else {
            let moved = if at < low {
                at
            } else {
                at + 1
            };
            assert(after[moved] == entries[at]);
            lookup_at::<K>(after, other, moved);
        }
    } else {
        assert forall|i: int| 0 <= i < after.len() implies !key_equal::<K>(
            (#[trigger] after[i]).0,
            other,
        ) by {
            if i == low {
                key_trichotomy::<K>(key, other);
            } else {
                let from = if replaced || i < low {
                    i
                } else {
                    i - 1
                };
                assert(after[i] == entries[from]);
                if key_equal::<K>(entries[from].0, other) {
                    lookup_at::<K>(entries, other, from);
                }
            }
        }
        lookup_absent::<K>(after, other);
    }
}

/// Removing a key keeps the entries ordered, and their number shrinks by
/// one if the key was there.
pub proof fn removed_ordered<K: RedbKey + ?Sized>(entries: Seq<(Seq<u8>, Seq<u8>)>, key: Seq<u8>)
    requires
        ordered::<K>(entries),
        K::decodable(key),
    ensures
        ordered::<K>(removed::<K>(entries, key)),
        removed::<K>(entries, key).len() == if contains_key::<K>(entries, key) {
            entries.len() - 1
        } else {
            entries.len() as int
        },
{
    bounds_partition::<K>(entries, key);
    let low = lower_bound::<K>(entries, key);
    let after = removed::<K>(entries, key);
    if contains_key::<K>(entries, key) {
        assert forall|i: int| 0 <= i < after.len() implies K::decodable(#[trigger] after[i].0) by {
            let from = if i < low {
                i
            } else {
                i + 1
            };
            assert(after[i] == entries[from]);
        }
        assert forall|i: int, j: int|
            #![trigger after[i], after[j]]
            0 <= i < j < after.len() implies key_less::<K>(after[i].0, after[j].0) by {
            let from_i = if i < low {
                i
            } else {
                i + 1
            };
            let from_j = if j < low {
                j
            } else {
                j + 1
            };
            assert(after[i] == entries[from_i]);
            assert(after[j] == entries[from_j]);
            assert(key_less::<K>(entries[from_i].0, entries[from_j].0));
        }
    }
}

/// After a key was removed, looking up an equal key finds nothing, and
/// looking up any other key finds what it found before.
pub proof fn lookup_removed<K: RedbKey + ?Sized>(
    entries: Seq<(Seq<u8>, Seq<u8>)>,
    key: Seq<u8>,
    other: Seq<u8>,
)
    requires
        ordered::<K>(entries),
        K::decodable(key),
        K::decodable(other),
    ensures
        lookup::<K>(removed::<K>(entries, key), other) == if key_equal::<K>(other, key) {
            None
        } else {
            lookup::<K>(entries, other)
        },
{
    bounds_partition::<K>(entries, key);
    bounds_partition::<K>(entries, other);
    removed_ordered::<K>(entries, key);
    key_trichotomy::<K>(other, key);
    let low = lower_bound::<K>(entries, key);
    let after = removed::<K>(entries, key);
    if contains_key::<K>(entries, key) {
        if !key_equal::<K>(other, key) && contains_key::<K>(entries, other) {
            let at = lower_bound::<K>(entries, other);
            assert(key_equal::<K>(entries[at].0, other));
            if at == low {
                key_trichotomy::<K>(entries[at].0, other);
                key_transitivity::<K>(other, entries[at].0, key);
            }
            let moved = if at < low {
                at
            } else {
                at - 1
            };
            assert(after[moved] == entries[at]);
            lookup_at::<K>(after, other, moved);
        } else {
            assert forall|i: int| 0 <= i < after.len() implies !key_equal::<K>(
                (#[trigger] after[i]).0,
                other,
            ) by {
                let from = if i < low {
                    i
                } else {
                    i + 1
                };
                assert(after[i] == entries[from]);
                if key_equal::<K>(entries[from].0, other) {
                    lookup_at::<K>(entries, other, from);
                    if key_equal::<K>(other, key) {
                        key_trichotomy::<K>(entries[from].0, other);
                        key_transitivity::<K>(entries[from].0, other, key);
                        lookup_at::<K>(entries, key, from);
                    }
                }
            }
            lookup_absent::<K>(after, other);
        }
    } else if key_equal::<K>(other, key) {
        assert forall|i: int| 0 <= i < entries.len() implies !key_equal::<K>(
            (#[trigger] entries[i]).0,
            other,
        ) by {
            if key_equal::<K>(entries[i].0, other) {
                key_transitivity::<K>(entries[i].0, other, key);
                lookup_at::<K>(entries, key, i);
            }
        }
        lookup_absent::<K>(entries, other);
    }
}

/// Finds the entry whose key is equal to `key`.
pub fn find_entry<K: RedbKey + ?Sized>(entries: &Vec<(Vec<u8>, Vec<u8>)>, key: &[u8]) -> (found:
    Option<usize>)
    requires
        ordered::<K>(entries_view(entries@)),
        K::decodable(key@),
    ensures
        found is Some <==> contains_key::<K>(entries_view(entries@), key@),
        found is Some ==> found->Some_0 == lower_bound::<K>(entries_view(entries@), key@),
        found is Some ==> found->Some_0 < entries@.len(),
{
    let place = lower_position::<K>(entries, key);
    proof {
        bounds_partition::<K>(entries_view(entries@), key@);
    }
    if place < entries.len() {
        assert(entries_view(entries@)[place as int].0 == entries@[place as int].0@);
        proof {
            key_trichotomy::<K>(entries@[place as int].0@, key@);
        }
        if is_greater::<K>(entries[place].0.as_slice(), key) {
            None
        } else {
            Some(place)
        }
    } else {
        None
    }
}

/// Gives `key` the `value`, and hands back the value that it had, and the
/// place at which the entry of `key` now stands.
pub fn insert_entry<K: RedbKey + ?Sized>(
    entries: &mut Vec<(Vec<u8>, Vec<u8>)>,
    key: Vec<u8>,
    value: Vec<u8>,
) -> (result: (Option<Vec<u8>>, usize))
    requires
        ordered::<K>(entries_view(old(entries)@)),
        K::decodable(key@),
    ensures
        entries_view(final(entries)@) == inserted::<K>(entries_view(old(entries)@), key@, value@),
        ordered::<K>(entries_view(final(entries)@)),
        match lookup::<K>(entries_view(old(entries)@), key@) {
            Some(bytes) => result.0 is Some && result.0->Some_0@ == bytes,
            None => result.0 is None,
        },
        result.1 == lower_bound::<K>(entries_view(old(entries)@), key@),
        result.1 < final(entries)@.len(),
        final(entries)@[result.1 as int].0@ == key@,
        final(entries)@[result.1 as int].1@ == value@,
{
    let ghost before = entries_view(entries@);
    proof {
        inserted_ordered::<K>(before, key@, value@);
    }
    match find_entry::<K>(entries, key.as_slice()) {
        Some(place) => {
            let replaced = entries.remove(place);
            entries.insert(place, (key, value));
            assert(entries_view(entries@) =~= before.update(place as int, (key@, value@)));
            (Some(replaced.1), place)
        },
        None => {
            let place = lower_position::<K>(entries, key.as_slice());
            proof {
                bounds_partition::<K>(before, key@);
            }
            entries.insert(place, (key, value));
            assert(entries_view(entries@) =~= before.insert(place as int, (key@, value@)));
            (None, place)
        },
    }
}

/// Removes `key`, and hands back the value that it had.
pub fn remove_entry<K: RedbKey + ?Sized>(
    entries: &mut Vec<(Vec<u8>, Vec<u8>)>,
    key: &[u8],
) -> (previous: Option<Vec<u8>>)
    requires
        ordered::<K>(entries_view(old(entries)@)),
        K::decodable(key@),
    ensures
        entries_view(final(entries)@) == removed::<K>(entries_view(old(entries)@), key@),
        ordered::<K>(entries_view(final(entries)@)),
        match lookup::<K>(entries_view(old(entries)@), key@) {
            Some(bytes) => previous is Some && previous->Some_0@ == bytes,
            None => previous is None,
        },
{
    let ghost before = entries_view(entries@);
    proof {
        removed_ordered::<K>(before, key@);
    }
    match find_entry::<K>(entries, key) {
        Some(place) => {
            let taken = entries.remove(place);
            assert(entries_view(entries@) =~= before.remove(place as int));
            Some(taken.1)
        },
        None => None,
    }
}

} // verus!
