//! Ranges of keys: which entries lie between two bounds.

use crate::key_order::{key_greater, key_less, key_trichotomy};
use crate::ordered_entries::{
    bounds_partition, entries_view, lower_bound, lower_position, ordered, upper_bound,
    upper_position,
};
use crate::types::RedbKey;
use vstd::prelude::*;

verus! {

/// One end of a range of keys.
pub enum Bound<T> {
    /// The range reaches to the key and holds it.
    Included(T),
    /// The range reaches to the key and does not hold it.
    Excluded(T),
    /// The range has no end on this side.
    Unbounded,
}

/// Whether the key of a bound, if it has one, stands for a key of type `K`.
pub open spec fn bound_decodable<K: RedbKey + ?Sized>(bound: Bound<Seq<u8>>) -> bool {
    match bound {
        Bound::Included(key) => K::decodable(key),
        Bound::Excluded(key) => K::decodable(key),
        Bound::Unbounded => true,
    }
}

/// Whether `key` lies at or behind the start of a range.
pub open spec fn after_start<K: RedbKey + ?Sized>(key: Seq<u8>, start: Bound<Seq<u8>>) -> bool {
    match start {
        Bound::Included(first) => !key_less::<K>(key, first),
        Bound::Excluded(first) => key_greater::<K>(key, first),
        Bound::Unbounded => true,
    }
}

/// Whether `key` lies at or before the end of a range.
pub open spec fn before_end<K: RedbKey + ?Sized>(key: Seq<u8>, end: Bound<Seq<u8>>) -> bool {
    match end {
        Bound::Included(last) => !key_greater::<K>(key, last),
        Bound::Excluded(last) => key_less::<K>(key, last),
        Bound::Unbounded => true,
    }
}

/// The number of entries that lie before the start of a range.
pub open spec fn range_low<K: RedbKey + ?Sized>(
    entries: Seq<(Seq<u8>, Seq<u8>)>,
    start: Bound<Seq<u8>>,
) -> int {
    match start {
        Bound::Included(first) => lower_bound::<K>(entries, first),
        Bound::Excluded(first) => upper_bound::<K>(entries, first),
        Bound::Unbounded => 0,
    }
}

/// The number of entries that do not lie behind the end of a range.
pub open spec fn range_high<K: RedbKey + ?Sized>(
    entries: Seq<(Seq<u8>, Seq<u8>)>,
    end: Bound<Seq<u8>>,
) -> int {
    match end {
        Bound::Included(last) => upper_bound::<K>(entries, last),
        Bound::Excluded(last) => lower_bound::<K>(entries, last),
        Bound::Unbounded => entries.len() as int,
    }
}

/// The entries whose keys lie in a range, in their order. A range whose
/// start lies behind its end holds nothing.
pub open spec fn in_range<K: RedbKey + ?Sized>(
    entries: Seq<(Seq<u8>, Seq<u8>)>,
    start: Bound<Seq<u8>>,
    end: Bound<Seq<u8>>,
) -> Seq<(Seq<u8>, Seq<u8>)> {
    let low = range_low::<K>(entries, start);
    let high = range_high::<K>(entries, end);
    if low <= high {
        entries.subrange(low, high)
    } else {
        Seq::empty()
    }
}

/// The entries before `range_low` are those before the start of the range,
/// and the entries before `range_high` are those not behind its end.
pub proof fn range_members<K: RedbKey + ?Sized>(
    entries: Seq<(Seq<u8>, Seq<u8>)>,
    start: Bound<Seq<u8>>,
    end: Bound<Seq<u8>>,
    index: int,
)
    requires
        ordered::<K>(entries),
        bound_decodable::<K>(start),
        bound_decodable::<K>(end),
        0 <= index < entries.len(),
    ensures
        0 <= range_low::<K>(entries, start) <= entries.len(),
        0 <= range_high::<K>(entries, end) <= entries.len(),
        range_low::<K>(entries, start) <= index <==> after_start::<K>(entries[index].0, start),
        index < range_high::<K>(entries, end) <==> before_end::<K>(entries[index].0, end),
{
    match start {
        Bound::Included(first) => {
            bounds_partition::<K>(entries, first);
            key_trichotomy::<K>(entries[index].0, first);
        },
        Bound::Excluded(first) => {
            bounds_partition::<K>(entries, first);
            key_trichotomy::<K>(entries[index].0, first);
        },
        Bound::Unbounded => {},
    }
    match end {
        Bound::Included(last) => {
            bounds_partition::<K>(entries, last);
            key_trichotomy::<K>(entries[index].0, last);
        },
        Bound::Excluded(last) => {
            bounds_partition::<K>(entries, last);
            key_trichotomy::<K>(entries[index].0, last);
        },
        Bound::Unbounded => {},
    }
}

/// Where a range starts and ends among ordered entries.
pub proof fn range_within<K: RedbKey + ?Sized>(
    entries: Seq<(Seq<u8>, Seq<u8>)>,
    start: Bound<Seq<u8>>,
    end: Bound<Seq<u8>>,
)
    requires
        ordered::<K>(entries),
        bound_decodable::<K>(start),
        bound_decodable::<K>(end),
    ensures
        0 <= range_low::<K>(entries, start) <= entries.len(),
        0 <= range_high::<K>(entries, end) <= entries.len(),
{
    match start {
        Bound::Included(first) => {
            bounds_partition::<K>(entries, first);
        },
        Bound::Excluded(first) => {
            bounds_partition::<K>(entries, first);
        },
        Bound::Unbounded => {},
    }
    match end {
        Bound::Included(last) => {
            bounds_partition::<K>(entries, last);
        },
        Bound::Excluded(last) => {
            bounds_partition::<K>(entries, last);
        },
        Bound::Unbounded => {},
    }
}

/// The entries in a range are ordered: their keys ascend strictly.
pub proof fn range_ordered<K: RedbKey + ?Sized>(
    entries: Seq<(Seq<u8>, Seq<u8>)>,
    start: Bound<Seq<u8>>,
    end: Bound<Seq<u8>>,
)
    requires
        ordered::<K>(entries),
        bound_decodable::<K>(start),
        bound_decodable::<K>(end),
    ensures
        ordered::<K>(in_range::<K>(entries, start, end)),
{
    range_within::<K>(entries, start, end);
    let low = range_low::<K>(entries, start);
    let part = in_range::<K>(entries, start, end);
    assert forall|i: int| 0 <= i < part.len() implies K::decodable(#[trigger] part[i].0) by {
        assert(part[i] == entries[low + i]);
    }
    assert forall|i: int, j: int|
        #![trigger part[i], part[j]]
        0 <= i < j < part.len() implies key_less::<K>(part[i].0, part[j].0) by {
        assert(part[i] == entries[low + i]);
        assert(part[j] == entries[low + j]);
    }
}

/// Finds where a range starts and where it ends among `entries`.
pub fn range_positions<K: RedbKey + ?Sized>(
    entries: &Vec<(Vec<u8>, Vec<u8>)>,
    start: Bound<&[u8]>,
    end: Bound<&[u8]>,
) -> (positions: (usize, usize))
    requires
        ordered::<K>(entries_view(entries@)),
        bound_decodable::<K>(bound_view(start)),
        bound_decodable::<K>(bound_view(end)),
    ensures
        positions.0 <= positions.1 <= entries@.len(),
        entries_view(entries@).subrange(positions.0 as int, positions.1 as int) == in_range::<K>(
            entries_view(entries@),
            bound_view(start),
            bound_view(end),
        ),
{
    proof {
        range_within::<K>(entries_view(entries@), bound_view(start), bound_view(end));
    }
    let low: usize = match start {
        Bound::Included(first) => lower_position::<K>(entries, first),
        Bound::Excluded(first) => upper_position::<K>(entries, first),
        Bound::Unbounded => 0,
    };
    let high: usize = match end {
        Bound::Included(last) => upper_position::<K>(entries, last),
        Bound::Excluded(last) => lower_position::<K>(entries, last),
        Bound::Unbounded => entries.len(),
    };
    if low <= high {
        (low, high)
    } else {
        assert(entries_view(entries@).subrange(low as int, low as int) =~= Seq::empty());
        (low, low)
    }
}

/// The bytes of the key of a bound.
pub open spec fn bound_view(bound: Bound<&[u8]>) -> Bound<Seq<u8>> {
    match bound {
        Bound::Included(key) => Bound::Included(key@),
        Bound::Excluded(key) => Bound::Excluded(key@),
        Bound::Unbounded => Bound::Unbounded,
    }
}

} // verus!
