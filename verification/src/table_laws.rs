//! What holds of every table, whatever was written to it.

use crate::entry_ops::{inserted, inserted_ordered, lookup, lookup_absent, lookup_inserted};
use crate::key_order::key_equal;
use crate::ordered_entries::{keys_decodable, ordered};
use crate::types::RedbKey;
use vstd::prelude::*;

verus! {

/// The entries after each of `writes`, a key and its value, was inserted in
/// turn.
pub open spec fn after_inserts<K: RedbKey + ?Sized>(
    entries: Seq<(Seq<u8>, Seq<u8>)>,
    writes: Seq<(Seq<u8>, Seq<u8>)>,
) -> Seq<(Seq<u8>, Seq<u8>)>
    decreases writes.len(),
{
    if writes.len() == 0 {
        entries
    } else {
        inserted::<K>(
            after_inserts::<K>(entries, writes.drop_last()),
            writes.last().0,
            writes.last().1,
        )
    }
}

/// The value that the last of `writes` to a key equal to `key` gave it, if
/// there was such a write.
pub open spec fn last_written<K: RedbKey + ?Sized>(
    writes: Seq<(Seq<u8>, Seq<u8>)>,
    key: Seq<u8>,
) -> Option<Seq<u8>>
    decreases writes.len(),
{
    if writes.len() == 0 {
        None
    } else if key_equal::<K>(key, writes.last().0) {
        Some(writes.last().1)
    } else {
        last_written::<K>(writes.drop_last(), key)
    }
}

/// A table with no entries holds no key.
pub proof fn lookup_in_empty<K: RedbKey + ?Sized>(key: Seq<u8>)
    requires
        K::decodable(key),
    ensures
        ordered::<K>(Seq::<(Seq<u8>, Seq<u8>)>::empty()),
        lookup::<K>(Seq::<(Seq<u8>, Seq<u8>)>::empty(), key) is None,
{
    lookup_absent::<K>(Seq::<(Seq<u8>, Seq<u8>)>::empty(), key);
}

/// Round trip: after any sequence of inserts, reading a key yields the
/// value that was last inserted for it, and what the table held before for
/// a key that was never inserted.
pub proof fn round_trip<K: RedbKey + ?Sized>(
    entries: Seq<(Seq<u8>, Seq<u8>)>,
    writes: Seq<(Seq<u8>, Seq<u8>)>,
    key: Seq<u8>,
)
    requires
        ordered::<K>(entries),
        keys_decodable::<K>(writes),
        K::decodable(key),
    ensures
        ordered::<K>(after_inserts::<K>(entries, writes)),
        lookup::<K>(after_inserts::<K>(entries, writes), key) == match last_written::<K>(
            writes,
            key,
        ) {
            Some(value) => Some(value),
            None => lookup::<K>(entries, key),
        },
    decreases writes.len(),
{
    if writes.len() > 0 {
        let earlier = writes.drop_last();
        assert forall|i: int| 0 <= i < earlier.len() implies K::decodable(
            #[trigger] earlier[i].0,
        ) by {
            assert(earlier[i] == writes[i]);
        }
        round_trip::<K>(entries, earlier, key);
        let before = after_inserts::<K>(entries, earlier);
        inserted_ordered::<K>(before, writes.last().0, writes.last().1);
        lookup_inserted::<K>(before, writes.last().0, writes.last().1, key);
    }
}

/// Round trip from an empty table: reading a key yields the value that was
/// last inserted for it, and nothing for a key that was never inserted.
pub proof fn round_trip_from_empty<K: RedbKey + ?Sized>(
    writes: Seq<(Seq<u8>, Seq<u8>)>,
    key: Seq<u8>,
)
    requires
        keys_decodable::<K>(writes),
        K::decodable(key),
    ensures
        lookup::<K>(after_inserts::<K>(Seq::empty(), writes), key) == last_written::<K>(
            writes,
            key,
        ),
{
    lookup_in_empty::<K>(key);
    round_trip::<K>(Seq::empty(), writes, key);
}

/// What an iterator yields from the front, first to last.
pub open spec fn yielded_forward(remaining: Seq<(Seq<u8>, Seq<u8>)>) -> Seq<(Seq<u8>, Seq<u8>)>
    decreases remaining.len(),
{
    if remaining.len() == 0 {
        Seq::empty()
    } else {
        seq![remaining.first()] + yielded_forward(remaining.drop_first())
    }
}

/// What an iterator yields from the back, first to last.
pub open spec fn yielded_backward(remaining: Seq<(Seq<u8>, Seq<u8>)>) -> Seq<(Seq<u8>, Seq<u8>)>
    decreases remaining.len(),
{
    if remaining.len() == 0 {
        Seq::empty()
    } else {
        seq![remaining.last()] + yielded_backward(remaining.drop_last())
    }
}

/// Iteration from the front yields the remaining entries in their order,
/// and iteration from the back yields the same entries in reverse.
pub proof fn reverse_iteration(remaining: Seq<(Seq<u8>, Seq<u8>)>)
    ensures
        yielded_forward(remaining) == remaining,
        yielded_backward(remaining) == remaining.reverse(),
    decreases remaining.len(),
{
    if remaining.len() > 0 {
        reverse_iteration(remaining.drop_first());
        reverse_iteration(remaining.drop_last());
        assert(yielded_forward(remaining) =~= remaining);
        assert(yielded_backward(remaining) =~= remaining.reverse());
    } else {
        assert(yielded_forward(remaining) =~= remaining);
        assert(yielded_backward(remaining) =~= remaining.reverse());
    }
}

} // verus!
