//! How the elements of a tuple are laid out in one byte string: the lengths
//! of all elements but the last, four bytes each and little-endian, then the
//! elements themselves, one after the other.

use vstd::bytes::*;
use vstd::prelude::*;
use vstd::slice::{slice_index_get, slice_subrange};

verus! {

/// The length that the header records for element `index`.
pub open spec fn recorded_len(data: Seq<u8>, index: int) -> int {
    spec_u32_from_le_bytes(data.subrange(4 * index, 4 * index + 4)) as int
}

/// Where element `index` of a tuple of `count` elements starts.
pub open spec fn element_start(data: Seq<u8>, count: int, index: int) -> int
    decreases index,
{
    if index <= 0 {
        4 * (count - 1)
    } else {
        element_start(data, count, index - 1) + recorded_len(data, index - 1)
    }
}

/// Where element `index` of a tuple of `count` elements ends: the last one
/// runs to the end of the data.
pub open spec fn element_end(data: Seq<u8>, count: int, index: int) -> int {
    if index + 1 >= count {
        data.len() as int
    } else {
        element_start(data, count, index + 1)
    }
}

/// Element `index` of a tuple of `count` elements.
pub open spec fn tuple_element(data: Seq<u8>, count: int, index: int) -> Seq<u8> {
    data.subrange(element_start(data, count, index), element_end(data, count, index))
}

/// Whether `data` can be split into `count` elements: the header and every
/// element that it announces lie within the data.
pub open spec fn tuple_framed(data: Seq<u8>, count: int) -> bool {
    count >= 1 && element_start(data, count, count - 1) <= data.len()
}

/// The elements start one behind the other, the first one behind the header.
pub proof fn element_start_monotonic(data: Seq<u8>, count: int, i: int, j: int)
    requires
        count >= 1,
        0 <= i <= j,
    ensures
        4 * (count - 1) <= element_start(data, count, i) <= element_start(data, count, j),
    decreases j,
{
    if j > 0 {
        if i < j {
            element_start_monotonic(data, count, i, j - 1);
        } else {
            element_start_monotonic(data, count, i - 1, j - 1);
        }
    }
}

/// In data that can be split, the header and every element lie within the
/// data, and each element but the last is as long as the header records.
pub proof fn framed_layout(data: Seq<u8>, count: int)
    requires
        tuple_framed(data, count),
    ensures
        4 * (count - 1) <= data.len(),
        element_start(data, count, 0) == 4 * (count - 1),
        forall|i: int|
            0 <= i < count ==> 4 * (count - 1) <= #[trigger] element_start(data, count, i)
                <= element_end(data, count, i) <= data.len(),
        forall|i: int|
            0 <= i < count - 1 ==> #[trigger] element_end(data, count, i) == element_start(
                data,
                count,
                i,
            ) + recorded_len(data, i),
{
    element_start_monotonic(data, count, 0, count - 1);
    assert forall|i: int| 0 <= i < count implies 4 * (count - 1) <= #[trigger] element_start(
        data,
        count,
        i,
    ) <= element_end(data, count, i) <= data.len() by {
        element_start_monotonic(data, count, 0, i);
        element_start_monotonic(data, count, i, count - 1);
        if i + 1 < count {
            element_start_monotonic(data, count, i, i + 1);
            element_start_monotonic(data, count, i + 1, count - 1);
        }
    }
}

/// Reads the `N` lengths that the header of a tuple of `N + 1` elements
/// records.
pub fn parse_lens<const N: usize>(data: &[u8]) -> (lens: [usize; N])
    requires
        4 * N <= data@.len(),
    ensures
        forall|i: int| 0 <= i < N ==> lens@[i] == recorded_len(data@, i),
{
    let mut result: [usize; N] = [0; N];
    let total: usize = data.len();
    let mut i: usize = 0;
    while i < N
        invariant
            i <= N,
            4 * N <= total,
            total == data@.len(),
            forall|j: int| 0 <= j < i ==> result@[j] == recorded_len(data@, j),
        decreases N - i,
    {
        let word = u32_from_le_bytes(slice_subrange(data, 4 * i, 4 * (i + 1)));
        result[i] = word as usize;
        i += 1;
    }
    result
}

/// The length prefixes of `parts`: each length as four little-endian bytes,
/// cut down to its low 32 bits.
pub open spec fn length_prefixes(parts: Seq<Seq<u8>>) -> Seq<u8>
    decreases parts.len(),
{
    if parts.len() == 0 {
        Seq::empty()
    } else {
        length_prefixes(parts.drop_last()) + spec_u32_to_le_bytes(parts.last().len() as u32)
    }
}

/// The `parts` one after the other.
pub open spec fn concatenation(parts: Seq<Seq<u8>>) -> Seq<u8>
    decreases parts.len(),
{
    if parts.len() == 0 {
        Seq::empty()
    } else {
        concatenation(parts.drop_last()) + parts.last()
    }
}

/// The bytes of a tuple whose elements are `parts`: the length prefixes of
/// all but the last, then all of them.
pub open spec fn tuple_encoding(parts: Seq<Seq<u8>>) -> Seq<u8> {
    length_prefixes(parts.drop_last()) + concatenation(parts)
}

/// What each of `slices` holds.
pub open spec fn slice_views(slices: Seq<&[u8]>) -> Seq<Seq<u8>> {
    Seq::new(slices.len(), |i: int| slices[i]@)
}

/// Appends `bytes` to `output`.
fn append_bytes(output: &mut Vec<u8>, bytes: &[u8])
    ensures
        final(output)@ == old(output)@ + bytes@,
{
    output.extend_from_slice(bytes);
    assert(output@ =~= old(output)@ + bytes@);
}

/// Writes the elements of a tuple as one byte string.
pub fn serialize_tuple_elements(slices: &[&[u8]]) -> (output: Vec<u8>)
    requires
        slices@.len() >= 1,
    ensures
        output@ == tuple_encoding(slice_views(slices@)),
{
    let ghost parts = slice_views(slices@);
    let count: usize = slices.len();
    let mut output: Vec<u8> = Vec::new();
    let mut i: usize = 0;
    while i < count - 1
        invariant
            count == slices@.len(),
            count >= 1,
            i <= count - 1,
            parts == slice_views(slices@),
            output@ == length_prefixes(parts.take(i as int)),
        decreases count - i,
    {
        let len: usize = slice_index_get(slices, i).len();
        let prefix = u32_to_le_bytes(#[verifier::truncate] (len as u32));
        append_bytes(&mut output, prefix.as_slice());
        proof {
            let next = parts.take(i + 1);
            assert(next.drop_last() =~= parts.take(i as int));
            assert(next.last() == parts[i as int]);
        }
        i += 1;
    }
    assert(parts.take(i as int) =~= parts.drop_last());
    let ghost header = output@;
    let mut k: usize = 0;
    while k < count
        invariant
            count == slices@.len(),
            k <= count,
            parts == slice_views(slices@),
            output@ == header + concatenation(parts.take(k as int)),
        decreases count - k,
    {
        append_bytes(&mut output, *slice_index_get(slices, k));
        proof {
            let next = parts.take(k + 1);
            assert(next.drop_last() =~= parts.take(k as int));
            assert(next.last() == parts[k as int]);
            assert(output@ =~= header + concatenation(next));
        }
        k += 1;
    }
    assert(parts.take(k as int) =~= parts);
    output
}

/// The header holds four bytes for each part, and those of part `i` are its
/// length prefix.
proof fn length_prefixes_layout(parts: Seq<Seq<u8>>)
    ensures
        length_prefixes(parts).len() == 4 * parts.len(),
        forall|i: int|
            0 <= i < parts.len() ==> #[trigger] length_prefixes(parts).subrange(4 * i, 4 * i + 4)
                == spec_u32_to_le_bytes(parts[i].len() as u32),
    decreases parts.len(),
{
    lemma_auto_spec_u32_to_from_le_bytes();
    if parts.len() > 0 {
        let front = parts.drop_last();
        let word = spec_u32_to_le_bytes(parts.last().len() as u32);
        length_prefixes_layout(front);
        assert forall|i: int| 0 <= i < parts.len() implies #[trigger] length_prefixes(
            parts,
        ).subrange(4 * i, 4 * i + 4) == spec_u32_to_le_bytes(parts[i].len() as u32) by {
            if i < front.len() {
                assert(length_prefixes(parts).subrange(4 * i, 4 * i + 4) =~= length_prefixes(
                    front,
                ).subrange(4 * i, 4 * i + 4));
                assert(front[i] == parts[i]);
            } else {
                assert(length_prefixes(parts).subrange(4 * i, 4 * i + 4) =~= word);
            }
        }
    }
}

/// The number of bytes that the first `index` parts take together.
pub open spec fn offset_of(parts: Seq<Seq<u8>>, index: int) -> int {
    concatenation(parts.take(index)).len() as int
}

/// Part `i` lies in the concatenation behind the parts before it.
proof fn concatenation_layout(parts: Seq<Seq<u8>>, i: int)
    requires
        0 <= i < parts.len(),
    ensures
        offset_of(parts, i + 1) == offset_of(parts, i) + parts[i].len(),
        offset_of(parts, i + 1) <= concatenation(parts).len(),
        concatenation(parts).subrange(offset_of(parts, i), offset_of(parts, i + 1)) == parts[i],
    decreases parts.len(),
{
    let front = parts.drop_last();
    assert(parts.take(i + 1).drop_last() =~= parts.take(i));
    assert(parts.take(i + 1).last() == parts[i]);
    if i + 1 == parts.len() {
        assert(parts.take(i + 1) =~= parts);
        assert(concatenation(parts).subrange(offset_of(parts, i), offset_of(parts, i + 1))
            =~= parts[i]);
    } else {
        concatenation_layout(front, i);
        assert(front.take(i) =~= parts.take(i));
        assert(front.take(i + 1) =~= parts.take(i + 1));
        assert(concatenation(parts).subrange(offset_of(parts, i), offset_of(parts, i + 1))
            =~= concatenation(front).subrange(offset_of(front, i), offset_of(front, i + 1)));
    }
}

/// In the bytes of a tuple the header records the length of each part but
/// the last, and each part starts behind the header and the parts before it.
proof fn tuple_encoding_layout(parts: Seq<Seq<u8>>, index: int)
    requires
        parts.len() >= 1,
        forall|i: int| 0 <= i < parts.len() - 1 ==> parts[i].len() <= u32::MAX,
        0 <= index < parts.len(),
    ensures
        element_start(tuple_encoding(parts), parts.len() as int, index) == 4 * (parts.len() - 1)
            + offset_of(parts, index),
        index < parts.len() - 1 ==> recorded_len(tuple_encoding(parts), index)
            == parts[index].len(),
    decreases index,
{
    let data = tuple_encoding(parts);
    let front = parts.drop_last();
    let header = length_prefixes(front);
    lemma_auto_spec_u32_to_from_le_bytes();
    length_prefixes_layout(front);
    if index < parts.len() - 1 {
        assert(data.subrange(4 * index, 4 * index + 4) =~= header.subrange(
            4 * index,
            4 * index + 4,
        ));
        assert(front[index] == parts[index]);
    }
    if index > 0 {
        tuple_encoding_layout(parts, index - 1);
        concatenation_layout(parts, index - 1);
    } else {
        assert(parts.take(0) =~= Seq::<Seq<u8>>::empty());
    }
}

/// Splitting what `tuple_encoding` wrote gives the parts back, as long as
/// each part but the last is short enough for its length to fit in 32 bits.
pub proof fn tuple_round_trip(parts: Seq<Seq<u8>>)
    requires
        parts.len() >= 1,
        forall|i: int| 0 <= i < parts.len() - 1 ==> parts[i].len() <= u32::MAX,
    ensures
        tuple_framed(tuple_encoding(parts), parts.len() as int),
        forall|i: int|
            0 <= i < parts.len() ==> #[trigger] tuple_element(
                tuple_encoding(parts),
                parts.len() as int,
                i,
            ) == parts[i],
{
    let data = tuple_encoding(parts);
    let count = parts.len() as int;
    let body = concatenation(parts);
    length_prefixes_layout(parts.drop_last());
    tuple_encoding_layout(parts, count - 1);
    concatenation_layout(parts, count - 1);
    assert(parts.take(count) =~= parts);
    assert forall|i: int| 0 <= i < count implies #[trigger] tuple_element(data, count, i)
        == parts[i] by {
        tuple_encoding_layout(parts, i);
        concatenation_layout(parts, i);
        if i + 1 < count {
            tuple_encoding_layout(parts, i + 1);
        }
        assert(data.subrange(element_start(data, count, i), element_end(data, count, i))
            =~= body.subrange(offset_of(parts, i), offset_of(parts, i + 1)));
    }
}

} // verus!
