//! Entries in the order of their keys: where a key stands among them.

use crate::key_order::{
    is_greater, is_less, key_equal, key_greater, key_less, key_transitivity, key_trichotomy,
};
use crate::types::RedbKey;
use vstd::prelude::*;

verus! {

/// What a list of stored entries holds: for each entry its key and its
/// value, as bytes.
pub open spec fn entries_view(entries: Seq<(Vec<u8>, Vec<u8>)>) -> Seq<(Seq<u8>, Seq<u8>)> {
    Seq::new(entries.len(), |i: int| (entries[i].0@, entries[i].1@))
}

/// Whether every key among `entries` stands for a key of type `K`.
pub open spec fn keys_decodable<K: RedbKey + ?Sized>(entries: Seq<(Seq<u8>, Seq<u8>)>) -> bool {
    forall|i: int| 0 <= i < entries.len() ==> K::decodable(#[trigger] entries[i].0)
}

/// Whether each key among `entries` is smaller than all that follow it.
pub open spec fn strictly_ascending<K: RedbKey + ?Sized>(
    entries: Seq<(Seq<u8>, Seq<u8>)>,
) -> bool {
    forall|i: int, j: int|
        #![trigger entries[i], entries[j]]
        0 <= i < j < entries.len() ==> key_less::<K>(entries[i].0, entries[j].0)
}

/// Whether `entries` can be the content of a table with keys of type `K`.
pub open spec fn ordered<K: RedbKey + ?Sized>(entries: Seq<(Seq<u8>, Seq<u8>)>) -> bool {
    keys_decodable::<K>(entries) && strictly_ascending::<K>(entries)
}

/// The number of entries whose keys are smaller than `key`.
pub open spec fn lower_bound<K: RedbKey + ?Sized>(
    entries: Seq<(Seq<u8>, Seq<u8>)>,
    key: Seq<u8>,
) -> int
    decreases entries.len(),
{
    if entries.len() == 0 {
        0
    } else {
        lower_bound::<K>(entries.drop_last(), key) + if key_less::<K>(entries.last().0, key) {
            1int
        } else {
            0int
        }
    }
}

/// The number of entries whose keys are not greater than `key`.
pub open spec fn upper_bound<K: RedbKey + ?Sized>(
    entries: Seq<(Seq<u8>, Seq<u8>)>,
    key: Seq<u8>,
) -> int
    decreases entries.len(),
{
    if entries.len() == 0 {
        0
    } else {
        upper_bound::<K>(entries.drop_last(), key) + if key_greater::<K>(entries.last().0, key) {
            0int
        } else {
            1int
        }
    }
}

/// In ordered entries the keys smaller than `key` come first, then the one
/// equal to it, if there is one, then the greater ones.
pub proof fn bounds_partition<K: RedbKey + ?Sized>(entries: Seq<(Seq<u8>, Seq<u8>)>, key: Seq<u8>)
    requires
        ordered::<K>(entries),
        K::decodable(key),
    ensures
        0 <= lower_bound::<K>(entries, key) <= upper_bound::<K>(entries, key) <= entries.len(),
        upper_bound::<K>(entries, key) <= lower_bound::<K>(entries, key) + 1,
        forall|i: int|
            0 <= i < lower_bound::<K>(entries, key) ==> key_less::<K>(
                (#[trigger] entries[i]).0,
                key,
            ),
        forall|i: int|
            lower_bound::<K>(entries, key) <= i < upper_bound::<K>(entries, key) ==> key_equal::<K>(
                (#[trigger] entries[i]).0,
                key,
            ),
        forall|i: int|
            upper_bound::<K>(entries, key) <= i < entries.len() ==> key_greater::<K>(
                (#[trigger] entries[i]).0,
                key,
            ),
    decreases entries.len(),
{
    if entries.len() > 0 {
        let front = entries.drop_last();
        let last = entries.last();
        let n = entries.len() - 1;
        assert forall|i: int| 0 <= i < front.len() implies K::decodable(
            #[trigger] front[i].0,
        ) by {
            assert(front[i] == entries[i]);
        }
        assert forall|i: int, j: int|
            #![trigger front[i], front[j]]
            0 <= i < j < front.len() implies key_less::<K>(front[i].0, front[j].0) by {
            assert(front[i] == entries[i]);
            assert(front[j] == entries[j]);
        }
        bounds_partition::<K>(front, key);
        key_trichotomy::<K>(last.0, key);
        let low = lower_bound::<K>(front, key);
        let high = upper_bound::<K>(front, key);
        if !key_greater::<K>(last.0, key) {
            if low < n {
                assert(front[low] == entries[low]);
                assert(key_less::<K>(entries[low].0, entries[n].0));
                key_transitivity::<K>(entries[low].0, last.0, key);
                key_trichotomy::<K>(entries[low].0, key);
            }
            assert(low == n);
            assert(high == n);
        }
        assert forall|i: int| 0 <= i < lower_bound::<K>(entries, key) implies key_less::<K>(
            (#[trigger] entries[i]).0,
            key,
        ) by {
            if i < n {
                assert(entries[i] == front[i]);
            }
        }
        assert forall|i: int|
            lower_bound::<K>(entries, key) <= i < upper_bound::<K>(
                entries,
                key,
            ) implies key_equal::<K>((#[trigger] entries[i]).0, key) by {
            if i < n {
                assert(entries[i] == front[i]);
            }
        }
        assert forall|i: int|
            upper_bound::<K>(entries, key) <= i < entries.len() implies key_greater::<K>(
            (#[trigger] entries[i]).0,
            key,
        ) by {
            if i < n {
                assert(entries[i] == front[i]);
            }
        }
    }
}

/// The place before which all keys are smaller than `key`, and from which
/// on none is, is the lower bound of `key`.
pub proof fn lower_bound_unique<K: RedbKey + ?Sized>(
    entries: Seq<(Seq<u8>, Seq<u8>)>,
    key: Seq<u8>,
    place: int,
)
    requires
        ordered::<K>(entries),
        K::decodable(key),
        0 <= place <= entries.len(),
        forall|i: int| 0 <= i < place ==> key_less::<K>((#[trigger] entries[i]).0, key),
        forall|i: int|
            place <= i < entries.len() ==> !key_less::<K>((#[trigger] entries[i]).0, key),
    ensures
        place == lower_bound::<K>(entries, key),
{
    bounds_partition::<K>(entries, key);
    let low = lower_bound::<K>(entries, key);
    if place < low {
        assert(key_less::<K>(entries[place].0, key));
    } else if low < place {
        key_trichotomy::<K>(entries[low].0, key);
        assert(key_less::<K>(entries[low].0, key));
    }
}

/// The place before which no key is greater than `key`, and from which on
/// all are, is the upper bound of `key`.
pub proof fn upper_bound_unique<K: RedbKey + ?Sized>(
    entries: Seq<(Seq<u8>, Seq<u8>)>,
    key: Seq<u8>,
    place: int,
)
    requires
        ordered::<K>(entries),
        K::decodable(key),
        0 <= place <= entries.len(),
        forall|i: int| 0 <= i < place ==> !key_greater::<K>((#[trigger] entries[i]).0, key),
        forall|i: int|
            place <= i < entries.len() ==> key_greater::<K>((#[trigger] entries[i]).0, key),
    ensures
        place == upper_bound::<K>(entries, key),
{
    bounds_partition::<K>(entries, key);
    let high = upper_bound::<K>(entries, key);
    if place < high {
        key_trichotomy::<K>(entries[place].0, key);
        assert(key_greater::<K>(entries[place].0, key));
    } else if high < place {
        assert(key_greater::<K>(entries[high].0, key));
    }
}

/// Counts the entries whose keys are smaller than `key`.
pub fn lower_position<K: RedbKey + ?Sized>(entries: &Vec<(Vec<u8>, Vec<u8>)>, key: &[u8]) -> (place:
    usize)
    requires
        ordered::<K>(entries_view(entries@)),
        K::decodable(key@),
    ensures
        place == lower_bound::<K>(entries_view(entries@), key@),
{
    let ghost view = entries_view(entries@);
    let mut low: usize = 0;
    let mut high: usize = entries.len();
    while low < high
        invariant
            low <= high <= entries@.len(),
            view == entries_view(entries@),
            ordered::<K>(view),
            K::decodable(key@),
            forall|i: int| 0 <= i < low ==> key_less::<K>((#[trigger] view[i]).0, key@),
            forall|i: int| high <= i < view.len() ==> !key_less::<K>((#[trigger] view[i]).0, key@),
        decreases high - low,
    {
        let middle: usize = low + (high - low) / 2;
        assert(view[middle as int].0 == entries@[middle as int].0@);
        if is_less::<K>(entries[middle].0.as_slice(), key) {
            assert forall|i: int| 0 <= i < middle + 1 implies key_less::<K>(
                (#[trigger] view[i]).0,
                key@,
            ) by {
                if i < middle {
                    assert(key_less::<K>(view[i].0, view[middle as int].0));
                    key_transitivity::<K>(view[i].0, view[middle as int].0, key@);
                }
            }
            low = middle + 1;
        } else {
            assert forall|i: int| middle <= i < view.len() implies !key_less::<K>(
                (#[trigger] view[i]).0,
                key@,
            ) by {
                if middle < i {
                    assert(key_less::<K>(view[middle as int].0, view[i].0));
                    key_trichotomy::<K>(view[middle as int].0, key@);
                    key_trichotomy::<K>(view[i].0, key@);
                    key_trichotomy::<K>(view[i].0, view[middle as int].0);
                    key_transitivity::<K>(key@, view[middle as int].0, view[i].0);
                    key_transitivity::<K>(view[i].0, key@, view[middle as int].0);
                }
            }
            high = middle;
        }
    }
    proof {
        lower_bound_unique::<K>(view, key@, low as int);
    }
    low
}

/// Counts the entries whose keys are not greater than `key`.
pub fn upper_position<K: RedbKey + ?Sized>(entries: &Vec<(Vec<u8>, Vec<u8>)>, key: &[u8]) -> (place:
    usize)
    requires
        ordered::<K>(entries_view(entries@)),
        K::decodable(key@),
    ensures
        place == upper_bound::<K>(entries_view(entries@), key@),
{
    let ghost view = entries_view(entries@);
    let mut low: usize = 0;
    let mut high: usize = entries.len();
    while low < high
        invariant
            low <= high <= entries@.len(),
            view == entries_view(entries@),
            ordered::<K>(view),
            K::decodable(key@),
            forall|i: int| 0 <= i < low ==> !key_greater::<K>((#[trigger] view[i]).0, key@),
            forall|i: int|
                high <= i < view.len() ==> key_greater::<K>((#[trigger] view[i]).0, key@),
        decreases high - low,
    {
        let middle: usize = low + (high - low) / 2;
        assert(view[middle as int].0 == entries@[middle as int].0@);
        if is_greater::<K>(entries[middle].0.as_slice(), key) {
            assert forall|i: int| middle <= i < view.len() implies key_greater::<K>(
                (#[trigger] view[i]).0,
                key@,
            ) by {
                if middle < i {
                    assert(key_less::<K>(view[middle as int].0, view[i].0));
                    key_trichotomy::<K>(view[i].0, view[middle as int].0);
                    key_transitivity::<K>(view[i].0, view[middle as int].0, key@);
                }
            }
            high = middle;
        } else {
            assert forall|i: int| 0 <= i < middle + 1 implies !key_greater::<K>(
                (#[trigger] view[i]).0,
                key@,
            ) by {
                if i < middle {
                    assert(key_less::<K>(view[i].0, view[middle as int].0));
                    key_trichotomy::<K>(view[i].0, key@);
                    key_transitivity::<K>(view[i].0, view[middle as int].0, key@);
                }
            }
            low = middle + 1;
        }
    }
    proof {
        upper_bound_unique::<K>(view, key@, low as int);
    }
    low
}

} // verus!
