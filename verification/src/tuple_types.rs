//! Tuples as values and as keys. A tuple is stored as its elements, framed
//! as the module `tuple_format` describes; tuples are ordered by their first
//! elements, then by their second elements, and so on.

use crate::tuple_format::{
    framed_layout, parse_lens, serialize_tuple_elements, slice_views, tuple_element,
    tuple_encoding, tuple_framed, tuple_round_trip,
};
use crate::types::{RedbKey, RedbValue};
use std::cmp::Ordering;
use vstd::prelude::*;
use vstd::slice::slice_subrange;
use vstd::string::*;

verus! {

/// `first`, unless it is `Equal`: then `rest`.
pub open spec fn first_unequal(first: Ordering, rest: Ordering) -> Ordering {
    match first {
        Ordering::Equal => rest,
        _ => first,
    }
}

/// The order of two stored keys of type `T`, or `None` where they are equal.
pub fn not_equal<T: RedbKey>(data1: &[u8], data2: &[u8]) -> (order: Option<Ordering>)
    requires
        T::decodable(data1@),
        T::decodable(data2@),
    ensures
        order == if T::compare_spec(data1@, data2@) == Ordering::Equal {
            None
        } else {
            Some(T::compare_spec(data1@, data2@))
        },
{
    match T::compare(data1, data2) {
        Ordering::Less => Some(Ordering::Less),
        Ordering::Equal => None,
        Ordering::Greater => Some(Ordering::Greater),
    }
}

/// What the order of the keys of type `T` gives for three keys, none
/// greater than the next: the first is not greater than the third, and
/// where the first equals the third, all three are equal.
pub proof fn component_order<T: RedbKey>(a: Seq<u8>, b: Seq<u8>, c: Seq<u8>)
    requires
        T::decodable(a),
        T::decodable(b),
        T::decodable(c),
    ensures
        T::compare_spec(a, b) != Ordering::Greater && T::compare_spec(b, c) != Ordering::Greater
            ==> {
            &&& T::compare_spec(a, c) != Ordering::Greater
            &&& T::compare_spec(a, c) == Ordering::Equal ==> T::compare_spec(a, b)
                == Ordering::Equal && T::compare_spec(b, c) == Ordering::Equal
        },
{
    if T::compare_spec(a, b) != Ordering::Greater && T::compare_spec(b, c) != Ordering::Greater {
        T::compare_transitive(a, b, c);
        T::compare_flip(a, b);
        T::compare_flip(b, c);
        T::compare_flip(a, c);
        if T::compare_spec(a, c) == Ordering::Equal {
            T::compare_transitive(b, c, a);
            T::compare_transitive(c, a, b);
        }
    }
}

impl<T0: RedbValue, T1: RedbValue> RedbValue for (T0, T1) {
    type View = (T0::View, T1::View);

    open spec fn decodable(data: Seq<u8>) -> bool {
        &&& tuple_framed(data, 2)
        &&& T0::decodable(tuple_element(data, 2, 0))
        &&& T1::decodable(tuple_element(data, 2, 1))
    }

    open spec fn decodes_to(data: Seq<u8>, value: (T0::View, T1::View)) -> bool {
        &&& T0::decodes_to(tuple_element(data, 2, 0), value.0)
        &&& T1::decodes_to(tuple_element(data, 2, 1), value.1)
    }

    open spec fn encoding(&self) -> Seq<u8> {
        tuple_encoding(seq![self.0.encoding(), self.1.encoding()])
    }

    open spec fn type_name_spec() -> Seq<char> {
        "("@ + T0::type_name_spec() + ","@ + T1::type_name_spec() + ")"@
    }

    open spec fn storable(&self) -> bool {
        &&& self.0.storable()
        &&& self.1.storable()
        &&& self.0.encoding().len() <= u32::MAX
    }

    proof fn storable_decodable(&self) {
        let parts = seq![self.0.encoding(), self.1.encoding()];
        tuple_round_trip(parts);
        self.0.storable_decodable();
        assert(tuple_element(tuple_encoding(parts), 2, 0) == parts[0]);
        self.1.storable_decodable();
        assert(tuple_element(tuple_encoding(parts), 2, 1) == parts[1]);
    }

    fn from_bytes(data: &[u8]) -> (value: (T0::View, T1::View)) {
        proof {
            framed_layout(data@, 2);
        }
        let lens: [usize; 1] = parse_lens(data);
        let total: usize = data.len();
        let mut offset: usize = 4;
        let t0 = T0::from_bytes(slice_subrange(data, offset, offset + lens[0]));
        offset += lens[0];
        let t1 = T1::from_bytes(slice_subrange(data, offset, total));
        (t0, t1)
    }

    fn as_bytes(&self) -> (bytes: Vec<u8>) {
        let b0 = self.0.as_bytes();
        let b1 = self.1.as_bytes();
        let parts: [&[u8]; 2] = [b0.as_slice(), b1.as_slice()];
        assert(slice_views(parts@) =~= seq![self.0.encoding(), self.1.encoding()]);
        serialize_tuple_elements(parts.as_slice())
    }

    fn redb_type_name() -> (name: String) {
        let mut name = String::from_str("(");
        name.append(T0::redb_type_name().as_str());
        name.append(",");
        name.append(T1::redb_type_name().as_str());
        name.append(")");
        name
    }
}

impl<T0: RedbValue, T1: RedbValue, T2: RedbValue> RedbValue for (T0, T1, T2) {
    type View = (T0::View, T1::View, T2::View);

    open spec fn decodable(data: Seq<u8>) -> bool {
        &&& tuple_framed(data, 3)
        &&& T0::decodable(tuple_element(data, 3, 0))
        &&& T1::decodable(tuple_element(data, 3, 1))
        &&& T2::decodable(tuple_element(data, 3, 2))
    }

    open spec fn decodes_to(data: Seq<u8>, value: (T0::View, T1::View, T2::View)) -> bool {
        &&& T0::decodes_to(tuple_element(data, 3, 0), value.0)
        &&& T1::decodes_to(tuple_element(data, 3, 1), value.1)
        &&& T2::decodes_to(tuple_element(data, 3, 2), value.2)
    }

    open spec fn encoding(&self) -> Seq<u8> {
        tuple_encoding(seq![self.0.encoding(), self.1.encoding(), self.2.encoding()])
    }

    open spec fn type_name_spec() -> Seq<char> {
        "("@
            + T0::type_name_spec()
            + ","@
            + T1::type_name_spec()
            + ","@
            + T2::type_name_spec()
            + ")"@
    }

    open spec fn storable(&self) -> bool {
        &&& self.0.storable()
        &&& self.1.storable()
        &&& self.2.storable()
        &&& self.0.encoding().len() <= u32::MAX
        &&& self.1.encoding().len() <= u32::MAX
    }

    proof fn storable_decodable(&self) {
        let parts = seq![self.0.encoding(), self.1.encoding(), self.2.encoding()];
        tuple_round_trip(parts);
        self.0.storable_decodable();
        assert(tuple_element(tuple_encoding(parts), 3, 0) == parts[0]);
        self.1.storable_decodable();
        assert(tuple_element(tuple_encoding(parts), 3, 1) == parts[1]);
        self.2.storable_decodable();
        assert(tuple_element(tuple_encoding(parts), 3, 2) == parts[2]);
    }

    fn from_bytes(data: &[u8]) -> (value: (T0::View, T1::View, T2::View)) {
        proof {
            framed_layout(data@, 3);
        }
        let lens: [usize; 2] = parse_lens(data);
        let total: usize = data.len();
        let mut offset: usize = 8;
        let t0 = T0::from_bytes(slice_subrange(data, offset, offset + lens[0]));
        offset += lens[0];
        let t1 = T1::from_bytes(slice_subrange(data, offset, offset + lens[1]));
        offset += lens[1];
        let t2 = T2::from_bytes(slice_subrange(data, offset, total));
        (t0, t1, t2)
    }

    fn as_bytes(&self) -> (bytes: Vec<u8>) {
        let b0 = self.0.as_bytes();
        let b1 = self.1.as_bytes();
        let b2 = self.2.as_bytes();
        let parts: [&[u8]; 3] = [b0.as_slice(), b1.as_slice(), b2.as_slice()];
        assert(slice_views(parts@) =~= seq![
            self.0.encoding(),
            self.1.encoding(),
            self.2.encoding(),
        ]);
        serialize_tuple_elements(parts.as_slice())
    }

    fn redb_type_name() -> (name: String) {
        let mut name = String::from_str("(");
        name.append(T0::redb_type_name().as_str());
        name.append(",");
        name.append(T1::redb_type_name().as_str());
        name.append(",");
        name.append(T2::redb_type_name().as_str());
        name.append(")");
        name
    }
}

impl<T0: RedbValue, T1: RedbValue, T2: RedbValue, T3: RedbValue> RedbValue for (T0, T1, T2, T3) {
    type View = (T0::View, T1::View, T2::View, T3::View);

    open spec fn decodable(data: Seq<u8>) -> bool {
        &&& tuple_framed(data, 4)
        &&& T0::decodable(tuple_element(data, 4, 0))
        &&& T1::decodable(tuple_element(data, 4, 1))
        &&& T2::decodable(tuple_element(data, 4, 2))
        &&& T3::decodable(tuple_element(data, 4, 3))
    }

    open spec fn decodes_to(
        data: Seq<u8>,
        value: (T0::View, T1::View, T2::View, T3::View),
    ) -> bool {
        &&& T0::decodes_to(tuple_element(data, 4, 0), value.0)
        &&& T1::decodes_to(tuple_element(data, 4, 1), value.1)
        &&& T2::decodes_to(tuple_element(data, 4, 2), value.2)
        &&& T3::decodes_to(tuple_element(data, 4, 3), value.3)
    }

    open spec fn encoding(&self) -> Seq<u8> {
        tuple_encoding(
            seq![
                self.0.encoding(),
                self.1.encoding(),
                self.2.encoding(),
                self.3.encoding(),
            ],
        )
    }

    open spec fn type_name_spec() -> Seq<char> {
        "("@
            + T0::type_name_spec()
            + ","@
            + T1::type_name_spec()
            + ","@
            + T2::type_name_spec()
            + ","@
            + T3::type_name_spec()
            + ")"@
    }

    open spec fn storable(&self) -> bool {
        &&& self.0.storable()
        &&& self.1.storable()
        &&& self.2.storable()
        &&& self.3.storable()
        &&& self.0.encoding().len() <= u32::MAX
        &&& self.1.encoding().len() <= u32::MAX
        &&& self.2.encoding().len() <= u32::MAX
    }

    proof fn storable_decodable(&self) {
        let parts = seq![
            self.0.encoding(),
            self.1.encoding(),
            self.2.encoding(),
            self.3.encoding(),
        ];
        tuple_round_trip(parts);
        self.0.storable_decodable();
        assert(tuple_element(tuple_encoding(parts), 4, 0) == parts[0]);
        self.1.storable_decodable();
        assert(tuple_element(tuple_encoding(parts), 4, 1) == parts[1]);
        self.2.storable_decodable();
        assert(tuple_element(tuple_encoding(parts), 4, 2) == parts[2]);
        self.3.storable_decodable();
        assert(tuple_element(tuple_encoding(parts), 4, 3) == parts[3]);
    }

    fn from_bytes(data: &[u8]) -> (value: (T0::View, T1::View, T2::View, T3::View)) {
        proof {
            framed_layout(data@, 4);
        }
        let lens: [usize; 3] = parse_lens(data);
        let total: usize = data.len();
        let mut offset: usize = 12;
        let t0 = T0::from_bytes(slice_subrange(data, offset, offset + lens[0]));
        offset += lens[0];
        let t1 = T1::from_bytes(slice_subrange(data, offset, offset + lens[1]));
        offset += lens[1];
        let t2 = T2::from_bytes(slice_subrange(data, offset, offset + lens[2]));
        offset += lens[2];
        let t3 = T3::from_bytes(slice_subrange(data, offset, total));
        (t0, t1, t2, t3)
    }

    fn as_bytes(&self) -> (bytes: Vec<u8>) {
        let b0 = self.0.as_bytes();
        let b1 = self.1.as_bytes();
        let b2 = self.2.as_bytes();
        let b3 = self.3.as_bytes();
        let parts: [&[u8]; 4] = [b0.as_slice(), b1.as_slice(), b2.as_slice(), b3.as_slice()];
        assert(slice_views(parts@) =~= seq![
            self.0.encoding(),
            self.1.encoding(),
            self.2.encoding(),
            self.3.encoding(),
        ]);
        serialize_tuple_elements(parts.as_slice())
    }

    fn redb_type_name() -> (name: String) {
        let mut name = String::from_str("(");
        name.append(T0::redb_type_name().as_str());
        name.append(",");
        name.append(T1::redb_type_name().as_str());
        name.append(",");
        name.append(T2::redb_type_name().as_str());
        name.append(",");
        name.append(T3::redb_type_name().as_str());
        name.append(")");
        name
    }
}

impl<
    T0: RedbValue,
    T1: RedbValue,
    T2: RedbValue,
    T3: RedbValue,
    T4: RedbValue,
> RedbValue for (T0, T1, T2, T3, T4) {
    type View = (T0::View, T1::View, T2::View, T3::View, T4::View);

    open spec fn decodable(data: Seq<u8>) -> bool {
        &&& tuple_framed(data, 5)
        &&& T0::decodable(tuple_element(data, 5, 0))
        &&& T1::decodable(tuple_element(data, 5, 1))
        &&& T2::decodable(tuple_element(data, 5, 2))
        &&& T3::decodable(tuple_element(data, 5, 3))
        &&& T4::decodable(tuple_element(data, 5, 4))
    }

    open spec fn decodes_to(
        data: Seq<u8>,
        value: (T0::View, T1::View, T2::View, T3::View, T4::View),
    ) -> bool {
        &&& T0::decodes_to(tuple_element(data, 5, 0), value.0)
        &&& T1::decodes_to(tuple_element(data, 5, 1), value.1)
        &&& T2::decodes_to(tuple_element(data, 5, 2), value.2)
        &&& T3::decodes_to(tuple_element(data, 5, 3), value.3)
        &&& T4::decodes_to(tuple_element(data, 5, 4), value.4)
    }

    open spec fn encoding(&self) -> Seq<u8> {
        tuple_encoding(
            seq![
                self.0.encoding(),
                self.1.encoding(),
                self.2.encoding(),
                self.3.encoding(),
                self.4.encoding(),
            ],
        )
    }

    open spec fn type_name_spec() -> Seq<char> {
        "("@
            + T0::type_name_spec()
            + ","@
            + T1::type_name_spec()
            + ","@
            + T2::type_name_spec()
            + ","@
            + T3::type_name_spec()
            + ","@
            + T4::type_name_spec()
            + ")"@
    }

    open spec fn storable(&self) -> bool {
        &&& self.0.storable()
        &&& self.1.storable()
        &&& self.2.storable()
        &&& self.3.storable()
        &&& self.4.storable()
        &&& self.0.encoding().len() <= u32::MAX
        &&& self.1.encoding().len() <= u32::MAX
        &&& self.2.encoding().len() <= u32::MAX
        &&& self.3.encoding().len() <= u32::MAX
    }

    proof fn storable_decodable(&self) {
        let parts = seq![
            self.0.encoding(),
            self.1.encoding(),
            self.2.encoding(),
            self.3.encoding(),
            self.4.encoding(),
        ];
        tuple_round_trip(parts);
        self.0.storable_decodable();
        assert(tuple_element(tuple_encoding(parts), 5, 0) == parts[0]);
        self.1.storable_decodable();
        assert(tuple_element(tuple_encoding(parts), 5, 1) == parts[1]);
        self.2.storable_decodable();
        assert(tuple_element(tuple_encoding(parts), 5, 2) == parts[2]);
        self.3.storable_decodable();
        assert(tuple_element(tuple_encoding(parts), 5, 3) == parts[3]);
        self.4.storable_decodable();
        assert(tuple_element(tuple_encoding(parts), 5, 4) == parts[4]);
    }

    fn from_bytes(data: &[u8]) -> (value: (T0::View, T1::View, T2::View, T3::View, T4::View)) {
        proof {
            framed_layout(data@, 5);
        }
        let lens: [usize; 4] = parse_lens(data);
        let total: usize = data.len();
        let mut offset: usize = 16;
        let t0 = T0::from_bytes(slice_subrange(data, offset, offset + lens[0]));
        offset += lens[0];
        let t1 = T1::from_bytes(slice_subrange(data, offset, offset + lens[1]));
        offset += lens[1];
        let t2 = T2::from_bytes(slice_subrange(data, offset, offset + lens[2]));
        offset += lens[2];
        let t3 = T3::from_bytes(slice_subrange(data, offset, offset + lens[3]));
        offset += lens[3];
        let t4 = T4::from_bytes(slice_subrange(data, offset, total));
        (t0, t1, t2, t3, t4)
    }

    fn as_bytes(&self) -> (bytes: Vec<u8>) {
        let b0 = self.0.as_bytes();
        let b1 = self.1.as_bytes();
        let b2 = self.2.as_bytes();
        let b3 = self.3.as_bytes();
        let b4 = self.4.as_bytes();
        let parts: [&[u8]; 5] = [
            b0.as_slice(),
            b1.as_slice(),
            b2.as_slice(),
            b3.as_slice(),
            b4.as_slice(),
        ];
        assert(slice_views(parts@) =~= seq![
            self.0.encoding(),
            self.1.encoding(),
            self.2.encoding(),
            self.3.encoding(),
            self.4.encoding(),
        ]);
        serialize_tuple_elements(parts.as_slice())
    }

    fn redb_type_name() -> (name: String) {
        let mut name = String::from_str("(");
        name.append(T0::redb_type_name().as_str());
        name.append(",");
        name.append(T1::redb_type_name().as_str());
        name.append(",");
        name.append(T2::redb_type_name().as_str());
        name.append(",");
        name.append(T3::redb_type_name().as_str());
        name.append(",");
        name.append(T4::redb_type_name().as_str());
        name.append(")");
        name
    }
}

impl<
    T0: RedbValue,
    T1: RedbValue,
    T2: RedbValue,
    T3: RedbValue,
    T4: RedbValue,
    T5: RedbValue,
> RedbValue for (T0, T1, T2, T3, T4, T5) {
    type View = (T0::View, T1::View, T2::View, T3::View, T4::View, T5::View);

    open spec fn decodable(data: Seq<u8>) -> bool {
        &&& tuple_framed(data, 6)
        &&& T0::decodable(tuple_element(data, 6, 0))
        &&& T1::decodable(tuple_element(data, 6, 1))
        &&& T2::decodable(tuple_element(data, 6, 2))
        &&& T3::decodable(tuple_element(data, 6, 3))
        &&& T4::decodable(tuple_element(data, 6, 4))
        &&& T5::decodable(tuple_element(data, 6, 5))
    }

    open spec fn decodes_to(
        data: Seq<u8>,
        value: (T0::View, T1::View, T2::View, T3::View, T4::View, T5::View),
    ) -> bool {
        &&& T0::decodes_to(tuple_element(data, 6, 0), value.0)
        &&& T1::decodes_to(tuple_element(data, 6, 1), value.1)
        &&& T2::decodes_to(tuple_element(data, 6, 2), value.2)
        &&& T3::decodes_to(tuple_element(data, 6, 3), value.3)
        &&& T4::decodes_to(tuple_element(data, 6, 4), value.4)
        &&& T5::decodes_to(tuple_element(data, 6, 5), value.5)
    }

    open spec fn encoding(&self) -> Seq<u8> {
        tuple_encoding(
            seq![
                self.0.encoding(),
                self.1.encoding(),
                self.2.encoding(),
                self.3.encoding(),
                self.4.encoding(),
                self.5.encoding(),
            ],
        )
    }

    open spec fn type_name_spec() -> Seq<char> {
        "("@
            + T0::type_name_spec()
            + ","@
            + T1::type_name_spec()
            + ","@
            + T2::type_name_spec()
            + ","@
            + T3::type_name_spec()
            + ","@
            + T4::type_name_spec()
            + ","@
            + T5::type_name_spec()
            + ")"@
    }

    open spec fn storable(&self) -> bool {
        &&& self.0.storable()
        &&& self.1.storable()
        &&& self.2.storable()
        &&& self.3.storable()
        &&& self.4.storable()
        &&& self.5.storable()
        &&& self.0.encoding().len() <= u32::MAX
        &&& self.1.encoding().len() <= u32::MAX
        &&& self.2.encoding().len() <= u32::MAX
        &&& self.3.encoding().len() <= u32::MAX
        &&& self.4.encoding().len() <= u32::MAX
    }

    proof fn storable_decodable(&self) {
        let parts = seq![
            self.0.encoding(),
            self.1.encoding(),
            self.2.encoding(),
            self.3.encoding(),
            self.4.encoding(),
            self.5.encoding(),
        ];
        tuple_round_trip(parts);
        self.0.storable_decodable();
        assert(tuple_element(tuple_encoding(parts), 6, 0) == parts[0]);
        self.1.storable_decodable();
        assert(tuple_element(tuple_encoding(parts), 6, 1) == parts[1]);
        self.2.storable_decodable();
        assert(tuple_element(tuple_encoding(parts), 6, 2) == parts[2]);
        self.3.storable_decodable();
        assert(tuple_element(tuple_encoding(parts), 6, 3) == parts[3]);
        self.4.storable_decodable();
        assert(tuple_element(tuple_encoding(parts), 6, 4) == parts[4]);
        self.5.storable_decodable();
        assert(tuple_element(tuple_encoding(parts), 6, 5) == parts[5]);
    }

    fn from_bytes(data: &[u8]) -> (value: (
        T0::View,
        T1::View,
        T2::View,
        T3::View,
        T4::View,
        T5::View,
    )) {
        proof {
            framed_layout(data@, 6);
        }
        let lens: [usize; 5] = parse_lens(data);
        let total: usize = data.len();
        let mut offset: usize = 20;
        let t0 = T0::from_bytes(slice_subrange(data, offset, offset + lens[0]));
        offset += lens[0];
        let t1 = T1::from_bytes(slice_subrange(data, offset, offset + lens[1]));
        offset += lens[1];
        let t2 = T2::from_bytes(slice_subrange(data, offset, offset + lens[2]));
        offset += lens[2];
        let t3 = T3::from_bytes(slice_subrange(data, offset, offset + lens[3]));
        offset += lens[3];
        let t4 = T4::from_bytes(slice_subrange(data, offset, offset + lens[4]));
        offset += lens[4];
        let t5 = T5::from_bytes(slice_subrange(data, offset, total));
        (t0, t1, t2, t3, t4, t5)
    }

    fn as_bytes(&self) -> (bytes: Vec<u8>) {
        let b0 = self.0.as_bytes();
        let b1 = self.1.as_bytes();
        let b2 = self.2.as_bytes();
        let b3 = self.3.as_bytes();
        let b4 = self.4.as_bytes();
        let b5 = self.5.as_bytes();
        let parts: [&[u8]; 6] = [
            b0.as_slice(),
            b1.as_slice(),
            b2.as_slice(),
            b3.as_slice(),
            b4.as_slice(),
            b5.as_slice(),
        ];
        assert(slice_views(parts@) =~= seq![
            self.0.encoding(),
            self.1.encoding(),
            self.2.encoding(),
            self.3.encoding(),
            self.4.encoding(),
            self.5.encoding(),
        ]);
        serialize_tuple_elements(parts.as_slice())
    }

    fn redb_type_name() -> (name: String) {
        let mut name = String::from_str("(");
        name.append(T0::redb_type_name().as_str());
        name.append(",");
        name.append(T1::redb_type_name().as_str());
        name.append(",");
        name.append(T2::redb_type_name().as_str());
        name.append(",");
        name.append(T3::redb_type_name().as_str());
        name.append(",");
        name.append(T4::redb_type_name().as_str());
        name.append(",");
        name.append(T5::redb_type_name().as_str());
        name.append(")");
        name
    }
}

impl<
    T0: RedbValue,
    T1: RedbValue,
    T2: RedbValue,
    T3: RedbValue,
    T4: RedbValue,
    T5: RedbValue,
    T6: RedbValue,
> RedbValue for (T0, T1, T2, T3, T4, T5, T6) {
    type View = (T0::View, T1::View, T2::View, T3::View, T4::View, T5::View, T6::View);

    open spec fn decodable(data: Seq<u8>) -> bool {
        &&& tuple_framed(data, 7)
        &&& T0::decodable(tuple_element(data, 7, 0))
        &&& T1::decodable(tuple_element(data, 7, 1))
        &&& T2::decodable(tuple_element(data, 7, 2))
        &&& T3::decodable(tuple_element(data, 7, 3))
        &&& T4::decodable(tuple_element(data, 7, 4))
        &&& T5::decodable(tuple_element(data, 7, 5))
        &&& T6::decodable(tuple_element(data, 7, 6))
    }

    open spec fn decodes_to(
        data: Seq<u8>,
        value: (T0::View, T1::View, T2::View, T3::View, T4::View, T5::View, T6::View),
    ) -> bool {
        &&& T0::decodes_to(tuple_element(data, 7, 0), value.0)
        &&& T1::decodes_to(tuple_element(data, 7, 1), value.1)
        &&& T2::decodes_to(tuple_element(data, 7, 2), value.2)
        &&& T3::decodes_to(tuple_element(data, 7, 3), value.3)
        &&& T4::decodes_to(tuple_element(data, 7, 4), value.4)
        &&& T5::decodes_to(tuple_element(data, 7, 5), value.5)
        &&& T6::decodes_to(tuple_element(data, 7, 6), value.6)
    }

    open spec fn encoding(&self) -> Seq<u8> {
        tuple_encoding(
            seq![
                self.0.encoding(),
                self.1.encoding(),
                self.2.encoding(),
                self.3.encoding(),
                self.4.encoding(),
                self.5.encoding(),
                self.6.encoding(),
            ],
        )
    }

    open spec fn type_name_spec() -> Seq<char> {
        "("@
            + T0::type_name_spec()
            + ","@
            + T1::type_name_spec()
            + ","@
            + T2::type_name_spec()
            + ","@
            + T3::type_name_spec()
            + ","@
            + T4::type_name_spec()
            + ","@
            + T5::type_name_spec()
            + ","@
            + T6::type_name_spec()
            + ")"@
    }

    open spec fn storable(&self) -> bool {
        &&& self.0.storable()
        &&& self.1.storable()
        &&& self.2.storable()
        &&& self.3.storable()
        &&& self.4.storable()
        &&& self.5.storable()
        &&& self.6.storable()
        &&& self.0.encoding().len() <= u32::MAX
        &&& self.1.encoding().len() <= u32::MAX
        &&& self.2.encoding().len() <= u32::MAX
        &&& self.3.encoding().len() <= u32::MAX
        &&& self.4.encoding().len() <= u32::MAX
        &&& self.5.encoding().len() <= u32::MAX
    }

    proof fn storable_decodable(&self) {
        let parts = seq![
            self.0.encoding(),
            self.1.encoding(),
            self.2.encoding(),
            self.3.encoding(),
            self.4.encoding(),
            self.5.encoding(),
            self.6.encoding(),
        ];
        tuple_round_trip(parts);
        self.0.storable_decodable();
        assert(tuple_element(tuple_encoding(parts), 7, 0) == parts[0]);
        self.1.storable_decodable();
        assert(tuple_element(tuple_encoding(parts), 7, 1) == parts[1]);
        self.2.storable_decodable();
        assert(tuple_element(tuple_encoding(parts), 7, 2) == parts[2]);
        self.3.storable_decodable();
        assert(tuple_element(tuple_encoding(parts), 7, 3) == parts[3]);
        self.4.storable_decodable();
        assert(tuple_element(tuple_encoding(parts), 7, 4) == parts[4]);
        self.5.storable_decodable();
        assert(tuple_element(tuple_encoding(parts), 7, 5) == parts[5]);
        self.6.storable_decodable();
        assert(tuple_element(tuple_encoding(parts), 7, 6) == parts[6]);
    }

    fn from_bytes(data: &[u8]) -> (value: (
        T0::View,
        T1::View,
        T2::View,
        T3::View,
        T4::View,
        T5::View,
        T6::View,
    )) {
        proof {
            framed_layout(data@, 7);
        }
        let lens: [usize; 6] = parse_lens(data);
        let total: usize = data.len();
        let mut offset: usize = 24;
        let t0 = T0::from_bytes(slice_subrange(data, offset, offset + lens[0]));
        offset += lens[0];
        let t1 = T1::from_bytes(slice_subrange(data, offset, offset + lens[1]));
        offset += lens[1];
        let t2 = T2::from_bytes(slice_subrange(data, offset, offset + lens[2]));
        offset += lens[2];
        let t3 = T3::from_bytes(slice_subrange(data, offset, offset + lens[3]));
        offset += lens[3];
        let t4 = T4::from_bytes(slice_subrange(data, offset, offset + lens[4]));
        offset += lens[4];
        let t5 = T5::from_bytes(slice_subrange(data, offset, offset + lens[5]));
        offset += lens[5];
        let t6 = T6::from_bytes(slice_subrange(data, offset, total));
        (t0, t1, t2, t3, t4, t5, t6)
    }

    fn as_bytes(&self) -> (bytes: Vec<u8>) {
        let b0 = self.0.as_bytes();
        let b1 = self.1.as_bytes();
        let b2 = self.2.as_bytes();
        let b3 = self.3.as_bytes();
        let b4 = self.4.as_bytes();
        let b5 = self.5.as_bytes();
        let b6 = self.6.as_bytes();
        let parts: [&[u8]; 7] = [
            b0.as_slice(),
            b1.as_slice(),
            b2.as_slice(),
            b3.as_slice(),
            b4.as_slice(),
            b5.as_slice(),
            b6.as_slice(),
        ];
        assert(slice_views(parts@) =~= seq![
            self.0.encoding(),
            self.1.encoding(),
            self.2.encoding(),
            self.3.encoding(),
            self.4.encoding(),
            self.5.encoding(),
            self.6.encoding(),
        ]);
        serialize_tuple_elements(parts.as_slice())
    }

    fn redb_type_name() -> (name: String) {
        let mut name = String::from_str("(");
        name.append(T0::redb_type_name().as_str());
        name.append(",");
        name.append(T1::redb_type_name().as_str());
        name.append(",");
        name.append(T2::redb_type_name().as_str());
        name.append(",");
        name.append(T3::redb_type_name().as_str());
        name.append(",");
        name.append(T4::redb_type_name().as_str());
        name.append(",");
        name.append(T5::redb_type_name().as_str());
        name.append(",");
        name.append(T6::redb_type_name().as_str());
        name.append(")");
        name
    }
}

impl<
    T0: RedbValue,
    T1: RedbValue,
    T2: RedbValue,
    T3: RedbValue,
    T4: RedbValue,
    T5: RedbValue,
    T6: RedbValue,
    T7: RedbValue,
> RedbValue for (T0, T1, T2, T3, T4, T5, T6, T7) {
    type View = (T0::View, T1::View, T2::View, T3::View, T4::View, T5::View, T6::View, T7::View);

    open spec fn decodable(data: Seq<u8>) -> bool {
        &&& tuple_framed(data, 8)
        &&& T0::decodable(tuple_element(data, 8, 0))
        &&& T1::decodable(tuple_element(data, 8, 1))
        &&& T2::decodable(tuple_element(data, 8, 2))
        &&& T3::decodable(tuple_element(data, 8, 3))
        &&& T4::decodable(tuple_element(data, 8, 4))
        &&& T5::decodable(tuple_element(data, 8, 5))
        &&& T6::decodable(tuple_element(data, 8, 6))
        &&& T7::decodable(tuple_element(data, 8, 7))
    }

    open spec fn decodes_to(
        data: Seq<u8>,
        value: (T0::View, T1::View, T2::View, T3::View, T4::View, T5::View, T6::View, T7::View),
    ) -> bool {
        &&& T0::decodes_to(tuple_element(data, 8, 0), value.0)
        &&& T1::decodes_to(tuple_element(data, 8, 1), value.1)
        &&& T2::decodes_to(tuple_element(data, 8, 2), value.2)
        &&& T3::decodes_to(tuple_element(data, 8, 3), value.3)
        &&& T4::decodes_to(tuple_element(data, 8, 4), value.4)
        &&& T5::decodes_to(tuple_element(data, 8, 5), value.5)
        &&& T6::decodes_to(tuple_element(data, 8, 6), value.6)
        &&& T7::decodes_to(tuple_element(data, 8, 7), value.7)
    }

    open spec fn encoding(&self) -> Seq<u8> {
        tuple_encoding(
            seq![
                self.0.encoding(),
                self.1.encoding(),
                self.2.encoding(),
                self.3.encoding(),
                self.4.encoding(),
                self.5.encoding(),
                self.6.encoding(),
                self.7.encoding(),
            ],
        )
    }

    open spec fn type_name_spec() -> Seq<char> {
        "("@
            + T0::type_name_spec()
            + ","@
            + T1::type_name_spec()
            + ","@
            + T2::type_name_spec()
            + ","@
            + T3::type_name_spec()
            + ","@
            + T4::type_name_spec()
            + ","@
            + T5::type_name_spec()
            + ","@
            + T6::type_name_spec()
            + ","@
            + T7::type_name_spec()
            + ")"@
    }

    open spec fn storable(&self) -> bool {
        &&& self.0.storable()
        &&& self.1.storable()
        &&& self.2.storable()
        &&& self.3.storable()
        &&& self.4.storable()
        &&& self.5.storable()
        &&& self.6.storable()
        &&& self.7.storable()
        &&& self.0.encoding().len() <= u32::MAX
        &&& self.1.encoding().len() <= u32::MAX
        &&& self.2.encoding().len() <= u32::MAX
        &&& self.3.encoding().len() <= u32::MAX
        &&& self.4.encoding().len() <= u32::MAX
        &&& self.5.encoding().len() <= u32::MAX
        &&& self.6.encoding().len() <= u32::MAX
    }

    proof fn storable_decodable(&self) {
        let parts = seq![
            self.0.encoding(),
            self.1.encoding(),
            self.2.encoding(),
            self.3.encoding(),
            self.4.encoding(),
            self.5.encoding(),
            self.6.encoding(),
            self.7.encoding(),
        ];
        tuple_round_trip(parts);
        self.0.storable_decodable();
        assert(tuple_element(tuple_encoding(parts), 8, 0) == parts[0]);
        self.1.storable_decodable();
        assert(tuple_element(tuple_encoding(parts), 8, 1) == parts[1]);
        self.2.storable_decodable();
        assert(tuple_element(tuple_encoding(parts), 8, 2) == parts[2]);
        self.3.storable_decodable();
        assert(tuple_element(tuple_encoding(parts), 8, 3) == parts[3]);
        self.4.storable_decodable();
        assert(tuple_element(tuple_encoding(parts), 8, 4) == parts[4]);
        self.5.storable_decodable();
        assert(tuple_element(tuple_encoding(parts), 8, 5) == parts[5]);
        self.6.storable_decodable();
        assert(tuple_element(tuple_encoding(parts), 8, 6) == parts[6]);
        self.7.storable_decodable();
        assert(tuple_element(tuple_encoding(parts), 8, 7) == parts[7]);
    }

    fn from_bytes(data: &[u8]) -> (value: (
        T0::View,
        T1::View,
        T2::View,
        T3::View,
        T4::View,
        T5::View,
        T6::View,
        T7::View,
    )) {
        proof {
            framed_layout(data@, 8);
        }
        let lens: [usize; 7] = parse_lens(data);
        let total: usize = data.len();
        let mut offset: usize = 28;
        let t0 = T0::from_bytes(slice_subrange(data, offset, offset + lens[0]));
        offset += lens[0];
        let t1 = T1::from_bytes(slice_subrange(data, offset, offset + lens[1]));
        offset += lens[1];
        let t2 = T2::from_bytes(slice_subrange(data, offset, offset + lens[2]));
        offset += lens[2];
        let t3 = T3::from_bytes(slice_subrange(data, offset, offset + lens[3]));
        offset += lens[3];
        let t4 = T4::from_bytes(slice_subrange(data, offset, offset + lens[4]));
        offset += lens[4];
        let t5 = T5::from_bytes(slice_subrange(data, offset, offset + lens[5]));
        offset += lens[5];
        let t6 = T6::from_bytes(slice_subrange(data, offset, offset + lens[6]));
        offset += lens[6];
        let t7 = T7::from_bytes(slice_subrange(data, offset, total));
        (t0, t1, t2, t3, t4, t5, t6, t7)
    }

    fn as_bytes(&self) -> (bytes: Vec<u8>) {
        let b0 = self.0.as_bytes();
        let b1 = self.1.as_bytes();
        let b2 = self.2.as_bytes();
        let b3 = self.3.as_bytes();
        let b4 = self.4.as_bytes();
        let b5 = self.5.as_bytes();
        let b6 = self.6.as_bytes();
        let b7 = self.7.as_bytes();
        let parts: [&[u8]; 8] = [
            b0.as_slice(),
            b1.as_slice(),
            b2.as_slice(),
            b3.as_slice(),
            b4.as_slice(),
            b5.as_slice(),
            b6.as_slice(),
            b7.as_slice(),
        ];
        assert(slice_views(parts@) =~= seq![
            self.0.encoding(),
            self.1.encoding(),
            self.2.encoding(),
            self.3.encoding(),
            self.4.encoding(),
            self.5.encoding(),
            self.6.encoding(),
            self.7.encoding(),
        ]);
        serialize_tuple_elements(parts.as_slice())
    }

    fn redb_type_name() -> (name: String) {
        let mut name = String::from_str("(");
        name.append(T0::redb_type_name().as_str());
        name.append(",");
        name.append(T1::redb_type_name().as_str());
        name.append(",");
        name.append(T2::redb_type_name().as_str());
        name.append(",");
        name.append(T3::redb_type_name().as_str());
        name.append(",");
        name.append(T4::redb_type_name().as_str());
        name.append(",");
        name.append(T5::redb_type_name().as_str());
        name.append(",");
        name.append(T6::redb_type_name().as_str());
        name.append(",");
        name.append(T7::redb_type_name().as_str());
        name.append(")");
        name
    }
}

impl<
    T0: RedbValue,
    T1: RedbValue,
    T2: RedbValue,
    T3: RedbValue,
    T4: RedbValue,
    T5: RedbValue,
    T6: RedbValue,
    T7: RedbValue,
    T8: RedbValue,
> RedbValue for (T0, T1, T2, T3, T4, T5, T6, T7, T8) {
    type View = (
        T0::View,
        T1::View,
        T2::View,
        T3::View,
        T4::View,
        T5::View,
        T6::View,
        T7::View,
        T8::View,
    );

    open spec fn decodable(data: Seq<u8>) -> bool {
        &&& tuple_framed(data, 9)
        &&& T0::decodable(tuple_element(data, 9, 0))
        &&& T1::decodable(tuple_element(data, 9, 1))
        &&& T2::decodable(tuple_element(data, 9, 2))
        &&& T3::decodable(tuple_element(data, 9, 3))
        &&& T4::decodable(tuple_element(data, 9, 4))
        &&& T5::decodable(tuple_element(data, 9, 5))
        &&& T6::decodable(tuple_element(data, 9, 6))
        &&& T7::decodable(tuple_element(data, 9, 7))
        &&& T8::decodable(tuple_element(data, 9, 8))
    }

    open spec fn decodes_to(
        data: Seq<u8>,
        value: (
            T0::View,
            T1::View,
            T2::View,
            T3::View,
            T4::View,
            T5::View,
            T6::View,
            T7::View,
            T8::View,
        ),
    ) -> bool {
        &&& T0::decodes_to(tuple_element(data, 9, 0), value.0)
        &&& T1::decodes_to(tuple_element(data, 9, 1), value.1)
        &&& T2::decodes_to(tuple_element(data, 9, 2), value.2)
        &&& T3::decodes_to(tuple_element(data, 9, 3), value.3)
        &&& T4::decodes_to(tuple_element(data, 9, 4), value.4)
        &&& T5::decodes_to(tuple_element(data, 9, 5), value.5)
        &&& T6::decodes_to(tuple_element(data, 9, 6), value.6)
        &&& T7::decodes_to(tuple_element(data, 9, 7), value.7)
        &&& T8::decodes_to(tuple_element(data, 9, 8), value.8)
    }

    open spec fn encoding(&self) -> Seq<u8> {
        tuple_encoding(
            seq![
                self.0.encoding(),
                self.1.encoding(),
                self.2.encoding(),
                self.3.encoding(),
                self.4.encoding(),
                self.5.encoding(),
                self.6.encoding(),
                self.7.encoding(),
                self.8.encoding(),
            ],
        )
    }

    open spec fn type_name_spec() -> Seq<char> {
        "("@
            + T0::type_name_spec()
            + ","@
            + T1::type_name_spec()
            + ","@
            + T2::type_name_spec()
            + ","@
            + T3::type_name_spec()
            + ","@
            + T4::type_name_spec()
            + ","@
            + T5::type_name_spec()
            + ","@
            + T6::type_name_spec()
            + ","@
            + T7::type_name_spec()
            + ","@
            + T8::type_name_spec()
            + ")"@
    }

    open spec fn storable(&self) -> bool {
        &&& self.0.storable()
        &&& self.1.storable()
        &&& self.2.storable()
        &&& self.3.storable()
        &&& self.4.storable()
        &&& self.5.storable()
        &&& self.6.storable()
        &&& self.7.storable()
        &&& self.8.storable()
        &&& self.0.encoding().len() <= u32::MAX
        &&& self.1.encoding().len() <= u32::MAX
        &&& self.2.encoding().len() <= u32::MAX
        &&& self.3.encoding().len() <= u32::MAX
        &&& self.4.encoding().len() <= u32::MAX
        &&& self.5.encoding().len() <= u32::MAX
        &&& self.6.encoding().len() <= u32::MAX
        &&& self.7.encoding().len() <= u32::MAX
    }

    proof fn storable_decodable(&self) {
        let parts = seq![
            self.0.encoding(),
            self.1.encoding(),
            self.2.encoding(),
            self.3.encoding(),
            self.4.encoding(),
            self.5.encoding(),
            self.6.encoding(),
            self.7.encoding(),
            self.8.encoding(),
        ];
        tuple_round_trip(parts);
        self.0.storable_decodable();
        assert(tuple_element(tuple_encoding(parts), 9, 0) == parts[0]);
        self.1.storable_decodable();
        assert(tuple_element(tuple_encoding(parts), 9, 1) == parts[1]);
        self.2.storable_decodable();
        assert(tuple_element(tuple_encoding(parts), 9, 2) == parts[2]);
        self.3.storable_decodable();
        assert(tuple_element(tuple_encoding(parts), 9, 3) == parts[3]);
        self.4.storable_decodable();
        assert(tuple_element(tuple_encoding(parts), 9, 4) == parts[4]);
        self.5.storable_decodable();
        assert(tuple_element(tuple_encoding(parts), 9, 5) == parts[5]);
        self.6.storable_decodable();
        assert(tuple_element(tuple_encoding(parts), 9, 6) == parts[6]);
        self.7.storable_decodable();
        assert(tuple_element(tuple_encoding(parts), 9, 7) == parts[7]);
        self.8.storable_decodable();
        assert(tuple_element(tuple_encoding(parts), 9, 8) == parts[8]);
    }

    fn from_bytes(data: &[u8]) -> (value: (
        T0::View,
        T1::View,
        T2::View,
        T3::View,
        T4::View,
        T5::View,
        T6::View,
        T7::View,
        T8::View,
    )) {
        proof {
            framed_layout(data@, 9);
        }
        let lens: [usize; 8] = parse_lens(data);
        let total: usize = data.len();
        let mut offset: usize = 32;
        let t0 = T0::from_bytes(slice_subrange(data, offset, offset + lens[0]));
        offset += lens[0];
        let t1 = T1::from_bytes(slice_subrange(data, offset, offset + lens[1]));
        offset += lens[1];
        let t2 = T2::from_bytes(slice_subrange(data, offset, offset + lens[2]));
        offset += lens[2];
        let t3 = T3::from_bytes(slice_subrange(data, offset, offset + lens[3]));
        offset += lens[3];
        let t4 = T4::from_bytes(slice_subrange(data, offset, offset + lens[4]));
        offset += lens[4];
        let t5 = T5::from_bytes(slice_subrange(data, offset, offset + lens[5]));
        offset += lens[5];
        let t6 = T6::from_bytes(slice_subrange(data, offset, offset + lens[6]));
        offset += lens[6];
        let t7 = T7::from_bytes(slice_subrange(data, offset, offset + lens[7]));
        offset += lens[7];
        let t8 = T8::from_bytes(slice_subrange(data, offset, total));
        (t0, t1, t2, t3, t4, t5, t6, t7, t8)
    }

    fn as_bytes(&self) -> (bytes: Vec<u8>) {
        let b0 = self.0.as_bytes();
        let b1 = self.1.as_bytes();
        let b2 = self.2.as_bytes();
        let b3 = self.3.as_bytes();
        let b4 = self.4.as_bytes();
        let b5 = self.5.as_bytes();
        let b6 = self.6.as_bytes();
        let b7 = self.7.as_bytes();
        let b8 = self.8.as_bytes();
        let parts: [&[u8]; 9] = [
            b0.as_slice(),
            b1.as_slice(),
            b2.as_slice(),
            b3.as_slice(),
            b4.as_slice(),
            b5.as_slice(),
            b6.as_slice(),
            b7.as_slice(),
            b8.as_slice(),
        ];
        assert(slice_views(parts@) =~= seq![
            self.0.encoding(),
            self.1.encoding(),
            self.2.encoding(),
            self.3.encoding(),
            self.4.encoding(),
            self.5.encoding(),
            self.6.encoding(),
            self.7.encoding(),
            self.8.encoding(),
        ]);
        serialize_tuple_elements(parts.as_slice())
    }

    fn redb_type_name() -> (name: String) {
        let mut name = String::from_str("(");
        name.append(T0::redb_type_name().as_str());
        name.append(",");
        name.append(T1::redb_type_name().as_str());
        name.append(",");
        name.append(T2::redb_type_name().as_str());
        name.append(",");
        name.append(T3::redb_type_name().as_str());
        name.append(",");
        name.append(T4::redb_type_name().as_str());
        name.append(",");
        name.append(T5::redb_type_name().as_str());
        name.append(",");
        name.append(T6::redb_type_name().as_str());
        name.append(",");
        name.append(T7::redb_type_name().as_str());
        name.append(",");
        name.append(T8::redb_type_name().as_str());
        name.append(")");
        name
    }
}

impl<
    T0: RedbValue,
    T1: RedbValue,
    T2: RedbValue,
    T3: RedbValue,
    T4: RedbValue,
    T5: RedbValue,
    T6: RedbValue,
    T7: RedbValue,
    T8: RedbValue,
    T9: RedbValue,
> RedbValue for (T0, T1, T2, T3, T4, T5, T6, T7, T8, T9) {
    type View = (
        T0::View,
        T1::View,
        T2::View,
        T3::View,
        T4::View,
        T5::View,
        T6::View,
        T7::View,
        T8::View,
        T9::View,
    );

    open spec fn decodable(data: Seq<u8>) -> bool {
        &&& tuple_framed(data, 10)
        &&& T0::decodable(tuple_element(data, 10, 0))
        &&& T1::decodable(tuple_element(data, 10, 1))
        &&& T2::decodable(tuple_element(data, 10, 2))
        &&& T3::decodable(tuple_element(data, 10, 3))
        &&& T4::decodable(tuple_element(data, 10, 4))
        &&& T5::decodable(tuple_element(data, 10, 5))
        &&& T6::decodable(tuple_element(data, 10, 6))
        &&& T7::decodable(tuple_element(data, 10, 7))
        &&& T8::decodable(tuple_element(data, 10, 8))
        &&& T9::decodable(tuple_element(data, 10, 9))
    }

    open spec fn decodes_to(
        data: Seq<u8>,
        value: (
            T0::View,
            T1::View,
            T2::View,
            T3::View,
            T4::View,
            T5::View,
            T6::View,
            T7::View,
            T8::View,
            T9::View,
        ),
    ) -> bool {
        &&& T0::decodes_to(tuple_element(data, 10, 0), value.0)
        &&& T1::decodes_to(tuple_element(data, 10, 1), value.1)
        &&& T2::decodes_to(tuple_element(data, 10, 2), value.2)
        &&& T3::decodes_to(tuple_element(data, 10, 3), value.3)
        &&& T4::decodes_to(tuple_element(data, 10, 4), value.4)
        &&& T5::decodes_to(tuple_element(data, 10, 5), value.5)
        &&& T6::decodes_to(tuple_element(data, 10, 6), value.6)
        &&& T7::decodes_to(tuple_element(data, 10, 7), value.7)
        &&& T8::decodes_to(tuple_element(data, 10, 8), value.8)
        &&& T9::decodes_to(tuple_element(data, 10, 9), value.9)
    }

    open spec fn encoding(&self) -> Seq<u8> {
        tuple_encoding(
            seq![
                self.0.encoding(),
                self.1.encoding(),
                self.2.encoding(),
                self.3.encoding(),
                self.4.encoding(),
                self.5.encoding(),
                self.6.encoding(),
                self.7.encoding(),
                self.8.encoding(),
                self.9.encoding(),
            ],
        )
    }

    open spec fn type_name_spec() -> Seq<char> {
        "("@
            + T0::type_name_spec()
            + ","@
            + T1::type_name_spec()
            + ","@
            + T2::type_name_spec()
            + ","@
            + T3::type_name_spec()
            + ","@
            + T4::type_name_spec()
            + ","@
            + T5::type_name_spec()
            + ","@
            + T6::type_name_spec()
            + ","@
            + T7::type_name_spec()
            + ","@
            + T8::type_name_spec()
            + ","@
            + T9::type_name_spec()
            + ")"@
    }

    open spec fn storable(&self) -> bool {
        &&& self.0.storable()
        &&& self.1.storable()
        &&& self.2.storable()
        &&& self.3.storable()
        &&& self.4.storable()
        &&& self.5.storable()
        &&& self.6.storable()
        &&& self.7.storable()
        &&& self.8.storable()
        &&& self.9.storable()
        &&& self.0.encoding().len() <= u32::MAX
        &&& self.1.encoding().len() <= u32::MAX
        &&& self.2.encoding().len() <= u32::MAX
        &&& self.3.encoding().len() <= u32::MAX
        &&& self.4.encoding().len() <= u32::MAX
        &&& self.5.encoding().len() <= u32::MAX
        &&& self.6.encoding().len() <= u32::MAX
        &&& self.7.encoding().len() <= u32::MAX
        &&& self.8.encoding().len() <= u32::MAX
    }

    proof fn storable_decodable(&self) {
        let parts = seq![
            self.0.encoding(),
            self.1.encoding(),
            self.2.encoding(),
            self.3.encoding(),
            self.4.encoding(),
            self.5.encoding(),
            self.6.encoding(),
            self.7.encoding(),
            self.8.encoding(),
            self.9.encoding(),
        ];
        tuple_round_trip(parts);
        self.0.storable_decodable();
        assert(tuple_element(tuple_encoding(parts), 10, 0) == parts[0]);
        self.1.storable_decodable();
        assert(tuple_element(tuple_encoding(parts), 10, 1) == parts[1]);
        self.2.storable_decodable();
        assert(tuple_element(tuple_encoding(parts), 10, 2) == parts[2]);
        self.3.storable_decodable();
        assert(tuple_element(tuple_encoding(parts), 10, 3) == parts[3]);
        self.4.storable_decodable();
        assert(tuple_element(tuple_encoding(parts), 10, 4) == parts[4]);
        self.5.storable_decodable();
        assert(tuple_element(tuple_encoding(parts), 10, 5) == parts[5]);
        self.6.storable_decodable();
        assert(tuple_element(tuple_encoding(parts), 10, 6) == parts[6]);
        self.7.storable_decodable();
        assert(tuple_element(tuple_encoding(parts), 10, 7) == parts[7]);
        self.8.storable_decodable();
        assert(tuple_element(tuple_encoding(parts), 10, 8) == parts[8]);
        self.9.storable_decodable();
        assert(tuple_element(tuple_encoding(parts), 10, 9) == parts[9]);
    }

    fn from_bytes(data: &[u8]) -> (value: (
        T0::View,
        T1::View,
        T2::View,
        T3::View,
        T4::View,
        T5::View,
        T6::View,
        T7::View,
        T8::View,
        T9::View,
    )) {
        proof {
            framed_layout(data@, 10);
        }
        let lens: [usize; 9] = parse_lens(data);
        let total: usize = data.len();
        let mut offset: usize = 36;
        let t0 = T0::from_bytes(slice_subrange(data, offset, offset + lens[0]));
        offset += lens[0];
        let t1 = T1::from_bytes(slice_subrange(data, offset, offset + lens[1]));
        offset += lens[1];
        let t2 = T2::from_bytes(slice_subrange(data, offset, offset + lens[2]));
        offset += lens[2];
        let t3 = T3::from_bytes(slice_subrange(data, offset, offset + lens[3]));
        offset += lens[3];
        let t4 = T4::from_bytes(slice_subrange(data, offset, offset + lens[4]));
        offset += lens[4];
        let t5 = T5::from_bytes(slice_subrange(data, offset, offset + lens[5]));
        offset += lens[5];
        let t6 = T6::from_bytes(slice_subrange(data, offset, offset + lens[6]));
        offset += lens[6];
        let t7 = T7::from_bytes(slice_subrange(data, offset, offset + lens[7]));
        offset += lens[7];
        let t8 = T8::from_bytes(slice_subrange(data, offset, offset + lens[8]));
        offset += lens[8];
        let t9 = T9::from_bytes(slice_subrange(data, offset, total));
        (t0, t1, t2, t3, t4, t5, t6, t7, t8, t9)
    }

    fn as_bytes(&self) -> (bytes: Vec<u8>) {
        let b0 = self.0.as_bytes();
        let b1 = self.1.as_bytes();
        let b2 = self.2.as_bytes();
        let b3 = self.3.as_bytes();
        let b4 = self.4.as_bytes();
        let b5 = self.5.as_bytes();
        let b6 = self.6.as_bytes();
        let b7 = self.7.as_bytes();
        let b8 = self.8.as_bytes();
        let b9 = self.9.as_bytes();
        let parts: [&[u8]; 10] = [
            b0.as_slice(),
            b1.as_slice(),
            b2.as_slice(),
            b3.as_slice(),
            b4.as_slice(),
            b5.as_slice(),
            b6.as_slice(),
            b7.as_slice(),
            b8.as_slice(),
            b9.as_slice(),
        ];
        assert(slice_views(parts@) =~= seq![
            self.0.encoding(),
            self.1.encoding(),
            self.2.encoding(),
            self.3.encoding(),
            self.4.encoding(),
            self.5.encoding(),
            self.6.encoding(),
            self.7.encoding(),
            self.8.encoding(),
            self.9.encoding(),
        ]);
        serialize_tuple_elements(parts.as_slice())
    }

    fn redb_type_name() -> (name: String) {
        let mut name = String::from_str("(");
        name.append(T0::redb_type_name().as_str());
        name.append(",");
        name.append(T1::redb_type_name().as_str());
        name.append(",");
        name.append(T2::redb_type_name().as_str());
        name.append(",");
        name.append(T3::redb_type_name().as_str());
        name.append(",");
        name.append(T4::redb_type_name().as_str());
        name.append(",");
        name.append(T5::redb_type_name().as_str());
        name.append(",");
        name.append(T6::redb_type_name().as_str());
        name.append(",");
        name.append(T7::redb_type_name().as_str());
        name.append(",");
        name.append(T8::redb_type_name().as_str());
        name.append(",");
        name.append(T9::redb_type_name().as_str());
        name.append(")");
        name
    }
}

impl<T0: RedbKey, T1: RedbKey> RedbKey for (T0, T1) {
    open spec fn compare_spec(data1: Seq<u8>, data2: Seq<u8>) -> Ordering {
        first_unequal(
            T0::compare_spec(tuple_element(data1, 2, 0), tuple_element(data2, 2, 0)),
            T1::compare_spec(tuple_element(data1, 2, 1), tuple_element(data2, 2, 1)),
        )
    }

    fn compare(data1: &[u8], data2: &[u8]) -> (order: Ordering) {
        proof {
            framed_layout(data1@, 2);
            framed_layout(data2@, 2);
        }
        let lens0: [usize; 1] = parse_lens(data1);
        let lens1: [usize; 1] = parse_lens(data2);
        let total0: usize = data1.len();
        let total1: usize = data2.len();

        let mut offset0: usize = 4;
        let mut offset1: usize = 4;
        if let Some(order) = not_equal::<T0>(
            slice_subrange(data1, offset0, offset0 + lens0[0]),
            slice_subrange(data2, offset1, offset1 + lens1[0]),
        ) {
            return order;
        }
        offset0 += lens0[0];
        offset1 += lens1[0];

        T1::compare(
            slice_subrange(data1, offset0, total0),
            slice_subrange(data2, offset1, total1),
        )
    }

    proof fn compare_reflexive(data: Seq<u8>) {
        T0::compare_reflexive(tuple_element(data, 2, 0));
        T1::compare_reflexive(tuple_element(data, 2, 1));
    }

    proof fn compare_flip(data1: Seq<u8>, data2: Seq<u8>) {
        T0::compare_flip(tuple_element(data1, 2, 0), tuple_element(data2, 2, 0));
        T1::compare_flip(tuple_element(data1, 2, 1), tuple_element(data2, 2, 1));
    }

    proof fn compare_transitive(data1: Seq<u8>, data2: Seq<u8>, data3: Seq<u8>) {
        component_order::<T0>(
            tuple_element(data1, 2, 0),
            tuple_element(data2, 2, 0),
            tuple_element(data3, 2, 0),
        );
        component_order::<T1>(
            tuple_element(data1, 2, 1),
            tuple_element(data2, 2, 1),
            tuple_element(data3, 2, 1),
        );
    }
}

impl<T0: RedbKey, T1: RedbKey, T2: RedbKey> RedbKey for (T0, T1, T2) {
    open spec fn compare_spec(data1: Seq<u8>, data2: Seq<u8>) -> Ordering {
        let from2 = T2::compare_spec(tuple_element(data1, 3, 2), tuple_element(data2, 3, 2));
        let from1 = first_unequal(
            T1::compare_spec(tuple_element(data1, 3, 1), tuple_element(data2, 3, 1)),
            from2,
        );
        first_unequal(
            T0::compare_spec(tuple_element(data1, 3, 0), tuple_element(data2, 3, 0)),
            from1,
        )
    }

    fn compare(data1: &[u8], data2: &[u8]) -> (order: Ordering) {
        proof {
            framed_layout(data1@, 3);
            framed_layout(data2@, 3);
        }
        let lens0: [usize; 2] = parse_lens(data1);
        let lens1: [usize; 2] = parse_lens(data2);
        let total0: usize = data1.len();
        let total1: usize = data2.len();

        let mut offset0: usize = 8;
        let mut offset1: usize = 8;
        if let Some(order) = not_equal::<T0>(
            slice_subrange(data1, offset0, offset0 + lens0[0]),
            slice_subrange(data2, offset1, offset1 + lens1[0]),
        ) {
            return order;
        }
        offset0 += lens0[0];
        offset1 += lens1[0];

        if let Some(order) = not_equal::<T1>(
            slice_subrange(data1, offset0, offset0 + lens0[1]),
            slice_subrange(data2, offset1, offset1 + lens1[1]),
        ) {
            return order;
        }
        offset0 += lens0[1];
        offset1 += lens1[1];

        T2::compare(
            slice_subrange(data1, offset0, total0),
            slice_subrange(data2, offset1, total1),
        )
    }

    proof fn compare_reflexive(data: Seq<u8>) {
        T0::compare_reflexive(tuple_element(data, 3, 0));
        T1::compare_reflexive(tuple_element(data, 3, 1));
        T2::compare_reflexive(tuple_element(data, 3, 2));
    }

    proof fn compare_flip(data1: Seq<u8>, data2: Seq<u8>) {
        T0::compare_flip(tuple_element(data1, 3, 0), tuple_element(data2, 3, 0));
        T1::compare_flip(tuple_element(data1, 3, 1), tuple_element(data2, 3, 1));
        T2::compare_flip(tuple_element(data1, 3, 2), tuple_element(data2, 3, 2));
    }

    proof fn compare_transitive(data1: Seq<u8>, data2: Seq<u8>, data3: Seq<u8>) {
        component_order::<T0>(
            tuple_element(data1, 3, 0),
            tuple_element(data2, 3, 0),
            tuple_element(data3, 3, 0),
        );
        component_order::<T1>(
            tuple_element(data1, 3, 1),
            tuple_element(data2, 3, 1),
            tuple_element(data3, 3, 1),
        );
        component_order::<T2>(
            tuple_element(data1, 3, 2),
            tuple_element(data2, 3, 2),
            tuple_element(data3, 3, 2),
        );
    }
}

impl<T0: RedbKey, T1: RedbKey, T2: RedbKey, T3: RedbKey> RedbKey for (T0, T1, T2, T3) {
    open spec fn compare_spec(data1: Seq<u8>, data2: Seq<u8>) -> Ordering {
        let from3 = T3::compare_spec(tuple_element(data1, 4, 3), tuple_element(data2, 4, 3));
        let from2 = first_unequal(
            T2::compare_spec(tuple_element(data1, 4, 2), tuple_element(data2, 4, 2)),
            from3,
        );
        let from1 = first_unequal(
            T1::compare_spec(tuple_element(data1, 4, 1), tuple_element(data2, 4, 1)),
            from2,
        );
        first_unequal(
            T0::compare_spec(tuple_element(data1, 4, 0), tuple_element(data2, 4, 0)),
            from1,
        )
    }

    fn compare(data1: &[u8], data2: &[u8]) -> (order: Ordering) {
        proof {
            framed_layout(data1@, 4);
            framed_layout(data2@, 4);
        }
        let lens0: [usize; 3] = parse_lens(data1);
        let lens1: [usize; 3] = parse_lens(data2);
        let total0: usize = data1.len();
        let total1: usize = data2.len();

        let mut offset0: usize = 12;
        let mut offset1: usize = 12;
        if let Some(order) = not_equal::<T0>(
            slice_subrange(data1, offset0, offset0 + lens0[0]),
            slice_subrange(data2, offset1, offset1 + lens1[0]),
        ) {
            return order;
        }
        offset0 += lens0[0];
        offset1 += lens1[0];

        if let Some(order) = not_equal::<T1>(
            slice_subrange(data1, offset0, offset0 + lens0[1]),
            slice_subrange(data2, offset1, offset1 + lens1[1]),
        ) {
            return order;
        }
        offset0 += lens0[1];
        offset1 += lens1[1];

        if let Some(order) = not_equal::<T2>(
            slice_subrange(data1, offset0, offset0 + lens0[2]),
            slice_subrange(data2, offset1, offset1 + lens1[2]),
        ) {
            return order;
        }
        offset0 += lens0[2];
        offset1 += lens1[2];

        T3::compare(
            slice_subrange(data1, offset0, total0),
            slice_subrange(data2, offset1, total1),
        )
    }

    proof fn compare_reflexive(data: Seq<u8>) {
        T0::compare_reflexive(tuple_element(data, 4, 0));
        T1::compare_reflexive(tuple_element(data, 4, 1));
        T2::compare_reflexive(tuple_element(data, 4, 2));
        T3::compare_reflexive(tuple_element(data, 4, 3));
    }

    proof fn compare_flip(data1: Seq<u8>, data2: Seq<u8>) {
        T0::compare_flip(tuple_element(data1, 4, 0), tuple_element(data2, 4, 0));
        T1::compare_flip(tuple_element(data1, 4, 1), tuple_element(data2, 4, 1));
        T2::compare_flip(tuple_element(data1, 4, 2), tuple_element(data2, 4, 2));
        T3::compare_flip(tuple_element(data1, 4, 3), tuple_element(data2, 4, 3));
    }

    proof fn compare_transitive(data1: Seq<u8>, data2: Seq<u8>, data3: Seq<u8>) {
        component_order::<T0>(
            tuple_element(data1, 4, 0),
            tuple_element(data2, 4, 0),
            tuple_element(data3, 4, 0),
        );
        component_order::<T1>(
            tuple_element(data1, 4, 1),
            tuple_element(data2, 4, 1),
            tuple_element(data3, 4, 1),
        );
        component_order::<T2>(
            tuple_element(data1, 4, 2),
            tuple_element(data2, 4, 2),
            tuple_element(data3, 4, 2),
        );
        component_order::<T3>(
            tuple_element(data1, 4, 3),
            tuple_element(data2, 4, 3),
            tuple_element(data3, 4, 3),
        );
    }
}

impl<
    T0: RedbKey,
    T1: RedbKey,
    T2: RedbKey,
    T3: RedbKey,
    T4: RedbKey,
> RedbKey for (T0, T1, T2, T3, T4) {
    open spec fn compare_spec(data1: Seq<u8>, data2: Seq<u8>) -> Ordering {
        let from4 = T4::compare_spec(tuple_element(data1, 5, 4), tuple_element(data2, 5, 4));
        let from3 = first_unequal(
            T3::compare_spec(tuple_element(data1, 5, 3), tuple_element(data2, 5, 3)),
            from4,
        );
        let from2 = first_unequal(
            T2::compare_spec(tuple_element(data1, 5, 2), tuple_element(data2, 5, 2)),
            from3,
        );
        let from1 = first_unequal(
            T1::compare_spec(tuple_element(data1, 5, 1), tuple_element(data2, 5, 1)),
            from2,
        );
        first_unequal(
            T0::compare_spec(tuple_element(data1, 5, 0), tuple_element(data2, 5, 0)),
            from1,
        )
    }

    fn compare(data1: &[u8], data2: &[u8]) -> (order: Ordering) {
        proof {
            framed_layout(data1@, 5);
            framed_layout(data2@, 5);
        }
        let lens0: [usize; 4] = parse_lens(data1);
        let lens1: [usize; 4] = parse_lens(data2);
        let total0: usize = data1.len();
        let total1: usize = data2.len();

        let mut offset0: usize = 16;
        let mut offset1: usize = 16;
        if let Some(order) = not_equal::<T0>(
            slice_subrange(data1, offset0, offset0 + lens0[0]),
            slice_subrange(data2, offset1, offset1 + lens1[0]),
        ) {
            return order;
        }
        offset0 += lens0[0];
        offset1 += lens1[0];

        if let Some(order) = not_equal::<T1>(
            slice_subrange(data1, offset0, offset0 + lens0[1]),
            slice_subrange(data2, offset1, offset1 + lens1[1]),
        ) {
            return order;
        }
        offset0 += lens0[1];
        offset1 += lens1[1];

        if let Some(order) = not_equal::<T2>(
            slice_subrange(data1, offset0, offset0 + lens0[2]),
            slice_subrange(data2, offset1, offset1 + lens1[2]),
        ) {
            return order;
        }
        offset0 += lens0[2];
        offset1 += lens1[2];

        if let Some(order) = not_equal::<T3>(
            slice_subrange(data1, offset0, offset0 + lens0[3]),
            slice_subrange(data2, offset1, offset1 + lens1[3]),
        ) {
            return order;
        }
        offset0 += lens0[3];
        offset1 += lens1[3];

        T4::compare(
            slice_subrange(data1, offset0, total0),
            slice_subrange(data2, offset1, total1),
        )
    }

    proof fn compare_reflexive(data: Seq<u8>) {
        T0::compare_reflexive(tuple_element(data, 5, 0));
        T1::compare_reflexive(tuple_element(data, 5, 1));
        T2::compare_reflexive(tuple_element(data, 5, 2));
        T3::compare_reflexive(tuple_element(data, 5, 3));
        T4::compare_reflexive(tuple_element(data, 5, 4));
    }

    proof fn compare_flip(data1: Seq<u8>, data2: Seq<u8>) {
        T0::compare_flip(tuple_element(data1, 5, 0), tuple_element(data2, 5, 0));
        T1::compare_flip(tuple_element(data1, 5, 1), tuple_element(data2, 5, 1));
        T2::compare_flip(tuple_element(data1, 5, 2), tuple_element(data2, 5, 2));
        T3::compare_flip(tuple_element(data1, 5, 3), tuple_element(data2, 5, 3));
        T4::compare_flip(tuple_element(data1, 5, 4), tuple_element(data2, 5, 4));
    }

    proof fn compare_transitive(data1: Seq<u8>, data2: Seq<u8>, data3: Seq<u8>) {
        component_order::<T0>(
            tuple_element(data1, 5, 0),
            tuple_element(data2, 5, 0),
            tuple_element(data3, 5, 0),
        );
        component_order::<T1>(
            tuple_element(data1, 5, 1),
            tuple_element(data2, 5, 1),
            tuple_element(data3, 5, 1),
        );
        component_order::<T2>(
            tuple_element(data1, 5, 2),
            tuple_element(data2, 5, 2),
            tuple_element(data3, 5, 2),
        );
        component_order::<T3>(
            tuple_element(data1, 5, 3),
            tuple_element(data2, 5, 3),
            tuple_element(data3, 5, 3),
        );
        component_order::<T4>(
            tuple_element(data1, 5, 4),
            tuple_element(data2, 5, 4),
            tuple_element(data3, 5, 4),
        );
    }
}

impl<
    T0: RedbKey,
    T1: RedbKey,
    T2: RedbKey,
    T3: RedbKey,
    T4: RedbKey,
    T5: RedbKey,
> RedbKey for (T0, T1, T2, T3, T4, T5) {
    open spec fn compare_spec(data1: Seq<u8>, data2: Seq<u8>) -> Ordering {
        let from5 = T5::compare_spec(tuple_element(data1, 6, 5), tuple_element(data2, 6, 5));
        let from4 = first_unequal(
            T4::compare_spec(tuple_element(data1, 6, 4), tuple_element(data2, 6, 4)),
            from5,
        );
        let from3 = first_unequal(
            T3::compare_spec(tuple_element(data1, 6, 3), tuple_element(data2, 6, 3)),
            from4,
        );
        let from2 = first_unequal(
            T2::compare_spec(tuple_element(data1, 6, 2), tuple_element(data2, 6, 2)),
            from3,
        );
        let from1 = first_unequal(
            T1::compare_spec(tuple_element(data1, 6, 1), tuple_element(data2, 6, 1)),
            from2,
        );
        first_unequal(
            T0::compare_spec(tuple_element(data1, 6, 0), tuple_element(data2, 6, 0)),
            from1,
        )
    }

    fn compare(data1: &[u8], data2: &[u8]) -> (order: Ordering) {
        proof {
            framed_layout(data1@, 6);
            framed_layout(data2@, 6);
        }
        let lens0: [usize; 5] = parse_lens(data1);
        let lens1: [usize; 5] = parse_lens(data2);
        let total0: usize = data1.len();
        let total1: usize = data2.len();

        let mut offset0: usize = 20;
        let mut offset1: usize = 20;
        if let Some(order) = not_equal::<T0>(
            slice_subrange(data1, offset0, offset0 + lens0[0]),
            slice_subrange(data2, offset1, offset1 + lens1[0]),
        ) {
            return order;
        }
        offset0 += lens0[0];
        offset1 += lens1[0];

        if let Some(order) = not_equal::<T1>(
            slice_subrange(data1, offset0, offset0 + lens0[1]),
            slice_subrange(data2, offset1, offset1 + lens1[1]),
        ) {
            return order;
        }
        offset0 += lens0[1];
        offset1 += lens1[1];

        if let Some(order) = not_equal::<T2>(
            slice_subrange(data1, offset0, offset0 + lens0[2]),
            slice_subrange(data2, offset1, offset1 + lens1[2]),
        ) {
            return order;
        }
        offset0 += lens0[2];
        offset1 += lens1[2];

        if let Some(order) = not_equal::<T3>(
            slice_subrange(data1, offset0, offset0 + lens0[3]),
            slice_subrange(data2, offset1, offset1 + lens1[3]),
        ) {
            return order;
        }
        offset0 += lens0[3];
        offset1 += lens1[3];

        if let Some(order) = not_equal::<T4>(
            slice_subrange(data1, offset0, offset0 + lens0[4]),
            slice_subrange(data2, offset1, offset1 + lens1[4]),
        ) {
            return order;
        }
        offset0 += lens0[4];
        offset1 += lens1[4];

        T5::compare(
            slice_subrange(data1, offset0, total0),
            slice_subrange(data2, offset1, total1),
        )
    }

    proof fn compare_reflexive(data: Seq<u8>) {
        T0::compare_reflexive(tuple_element(data, 6, 0));
        T1::compare_reflexive(tuple_element(data, 6, 1));
        T2::compare_reflexive(tuple_element(data, 6, 2));
        T3::compare_reflexive(tuple_element(data, 6, 3));
        T4::compare_reflexive(tuple_element(data, 6, 4));
        T5::compare_reflexive(tuple_element(data, 6, 5));
    }

    proof fn compare_flip(data1: Seq<u8>, data2: Seq<u8>) {
        T0::compare_flip(tuple_element(data1, 6, 0), tuple_element(data2, 6, 0));
        T1::compare_flip(tuple_element(data1, 6, 1), tuple_element(data2, 6, 1));
        T2::compare_flip(tuple_element(data1, 6, 2), tuple_element(data2, 6, 2));
        T3::compare_flip(tuple_element(data1, 6, 3), tuple_element(data2, 6, 3));
        T4::compare_flip(tuple_element(data1, 6, 4), tuple_element(data2, 6, 4));
        T5::compare_flip(tuple_element(data1, 6, 5), tuple_element(data2, 6, 5));
    }

    proof fn compare_transitive(data1: Seq<u8>, data2: Seq<u8>, data3: Seq<u8>) {
        component_order::<T0>(
            tuple_element(data1, 6, 0),
            tuple_element(data2, 6, 0),
            tuple_element(data3, 6, 0),
        );
        component_order::<T1>(
            tuple_element(data1, 6, 1),
            tuple_element(data2, 6, 1),
            tuple_element(data3, 6, 1),
        );
        component_order::<T2>(
            tuple_element(data1, 6, 2),
            tuple_element(data2, 6, 2),
            tuple_element(data3, 6, 2),
        );
        component_order::<T3>(
            tuple_element(data1, 6, 3),
            tuple_element(data2, 6, 3),
            tuple_element(data3, 6, 3),
        );
        component_order::<T4>(
            tuple_element(data1, 6, 4),
            tuple_element(data2, 6, 4),
            tuple_element(data3, 6, 4),
        );
        component_order::<T5>(
            tuple_element(data1, 6, 5),
            tuple_element(data2, 6, 5),
            tuple_element(data3, 6, 5),
        );
    }
}

impl<
    T0: RedbKey,
    T1: RedbKey,
    T2: RedbKey,
    T3: RedbKey,
    T4: RedbKey,
    T5: RedbKey,
    T6: RedbKey,
> RedbKey for (T0, T1, T2, T3, T4, T5, T6) {
    open spec fn compare_spec(data1: Seq<u8>, data2: Seq<u8>) -> Ordering {
        let from6 = T6::compare_spec(tuple_element(data1, 7, 6), tuple_element(data2, 7, 6));
        let from5 = first_unequal(
            T5::compare_spec(tuple_element(data1, 7, 5), tuple_element(data2, 7, 5)),
            from6,
        );
        let from4 = first_unequal(
            T4::compare_spec(tuple_element(data1, 7, 4), tuple_element(data2, 7, 4)),
            from5,
        );
        let from3 = first_unequal(
            T3::compare_spec(tuple_element(data1, 7, 3), tuple_element(data2, 7, 3)),
            from4,
        );
        let from2 = first_unequal(
            T2::compare_spec(tuple_element(data1, 7, 2), tuple_element(data2, 7, 2)),
            from3,
        );
        let from1 = first_unequal(
            T1::compare_spec(tuple_element(data1, 7, 1), tuple_element(data2, 7, 1)),
            from2,
        );
        first_unequal(
            T0::compare_spec(tuple_element(data1, 7, 0), tuple_element(data2, 7, 0)),
            from1,
        )
    }

    fn compare(data1: &[u8], data2: &[u8]) -> (order: Ordering) {
        proof {
            framed_layout(data1@, 7);
            framed_layout(data2@, 7);
        }
        let lens0: [usize; 6] = parse_lens(data1);
        let lens1: [usize; 6] = parse_lens(data2);
        let total0: usize = data1.len();
        let total1: usize = data2.len();

        let mut offset0: usize = 24;
        let mut offset1: usize = 24;
        if let Some(order) = not_equal::<T0>(
            slice_subrange(data1, offset0, offset0 + lens0[0]),
            slice_subrange(data2, offset1, offset1 + lens1[0]),
        ) {
            return order;
        }
        offset0 += lens0[0];
        offset1 += lens1[0];

        if let Some(order) = not_equal::<T1>(
            slice_subrange(data1, offset0, offset0 + lens0[1]),
            slice_subrange(data2, offset1, offset1 + lens1[1]),
        ) {
            return order;
        }
        offset0 += lens0[1];
        offset1 += lens1[1];

        if let Some(order) = not_equal::<T2>(
            slice_subrange(data1, offset0, offset0 + lens0[2]),
            slice_subrange(data2, offset1, offset1 + lens1[2]),
        ) {
            return order;
        }
        offset0 += lens0[2];
        offset1 += lens1[2];

        if let Some(order) = not_equal::<T3>(
            slice_subrange(data1, offset0, offset0 + lens0[3]),
            slice_subrange(data2, offset1, offset1 + lens1[3]),
        ) {
            return order;
        }
        offset0 += lens0[3];
        offset1 += lens1[3];

        if let Some(order) = not_equal::<T4>(
            slice_subrange(data1, offset0, offset0 + lens0[4]),
            slice_subrange(data2, offset1, offset1 + lens1[4]),
        ) {
            return order;
        }
        offset0 += lens0[4];
        offset1 += lens1[4];

        if let Some(order) = not_equal::<T5>(
            slice_subrange(data1, offset0, offset0 + lens0[5]),
            slice_subrange(data2, offset1, offset1 + lens1[5]),
        ) {
            return order;
        }
        offset0 += lens0[5];
        offset1 += lens1[5];

        T6::compare(
            slice_subrange(data1, offset0, total0),
            slice_subrange(data2, offset1, total1),
        )
    }

    proof fn compare_reflexive(data: Seq<u8>) {
        T0::compare_reflexive(tuple_element(data, 7, 0));
        T1::compare_reflexive(tuple_element(data, 7, 1));
        T2::compare_reflexive(tuple_element(data, 7, 2));
        T3::compare_reflexive(tuple_element(data, 7, 3));
        T4::compare_reflexive(tuple_element(data, 7, 4));
        T5::compare_reflexive(tuple_element(data, 7, 5));
        T6::compare_reflexive(tuple_element(data, 7, 6));
    }

    proof fn compare_flip(data1: Seq<u8>, data2: Seq<u8>) {
        T0::compare_flip(tuple_element(data1, 7, 0), tuple_element(data2, 7, 0));
        T1::compare_flip(tuple_element(data1, 7, 1), tuple_element(data2, 7, 1));
        T2::compare_flip(tuple_element(data1, 7, 2), tuple_element(data2, 7, 2));
        T3::compare_flip(tuple_element(data1, 7, 3), tuple_element(data2, 7, 3));
        T4::compare_flip(tuple_element(data1, 7, 4), tuple_element(data2, 7, 4));
        T5::compare_flip(tuple_element(data1, 7, 5), tuple_element(data2, 7, 5));
        T6::compare_flip(tuple_element(data1, 7, 6), tuple_element(data2, 7, 6));
    }

    proof fn compare_transitive(data1: Seq<u8>, data2: Seq<u8>, data3: Seq<u8>) {
        component_order::<T0>(
            tuple_element(data1, 7, 0),
            tuple_element(data2, 7, 0),
            tuple_element(data3, 7, 0),
        );
        component_order::<T1>(
            tuple_element(data1, 7, 1),
            tuple_element(data2, 7, 1),
            tuple_element(data3, 7, 1),
        );
        component_order::<T2>(
            tuple_element(data1, 7, 2),
            tuple_element(data2, 7, 2),
            tuple_element(data3, 7, 2),
        );
        component_order::<T3>(
            tuple_element(data1, 7, 3),
            tuple_element(data2, 7, 3),
            tuple_element(data3, 7, 3),
        );
        component_order::<T4>(
            tuple_element(data1, 7, 4),
            tuple_element(data2, 7, 4),
            tuple_element(data3, 7, 4),
        );
        component_order::<T5>(
            tuple_element(data1, 7, 5),
            tuple_element(data2, 7, 5),
            tuple_element(data3, 7, 5),
        );
        component_order::<T6>(
            tuple_element(data1, 7, 6),
            tuple_element(data2, 7, 6),
            tuple_element(data3, 7, 6),
        );
    }
}

impl<
    T0: RedbKey,
    T1: RedbKey,
    T2: RedbKey,
    T3: RedbKey,
    T4: RedbKey,
    T5: RedbKey,
    T6: RedbKey,
    T7: RedbKey,
> RedbKey for (T0, T1, T2, T3, T4, T5, T6, T7) {
    open spec fn compare_spec(data1: Seq<u8>, data2: Seq<u8>) -> Ordering {
        let from7 = T7::compare_spec(tuple_element(data1, 8, 7), tuple_element(data2, 8, 7));
        let from6 = first_unequal(
            T6::compare_spec(tuple_element(data1, 8, 6), tuple_element(data2, 8, 6)),
            from7,
        );
        let from5 = first_unequal(
            T5::compare_spec(tuple_element(data1, 8, 5), tuple_element(data2, 8, 5)),
            from6,
        );
        let from4 = first_unequal(
            T4::compare_spec(tuple_element(data1, 8, 4), tuple_element(data2, 8, 4)),
            from5,
        );
        let from3 = first_unequal(
            T3::compare_spec(tuple_element(data1, 8, 3), tuple_element(data2, 8, 3)),
            from4,
        );
        let from2 = first_unequal(
            T2::compare_spec(tuple_element(data1, 8, 2), tuple_element(data2, 8, 2)),
            from3,
        );
        let from1 = first_unequal(
            T1::compare_spec(tuple_element(data1, 8, 1), tuple_element(data2, 8, 1)),
            from2,
        );
        first_unequal(
            T0::compare_spec(tuple_element(data1, 8, 0), tuple_element(data2, 8, 0)),
            from1,
        )
    }

    fn compare(data1: &[u8], data2: &[u8]) -> (order: Ordering) {
        proof {
            framed_layout(data1@, 8);
            framed_layout(data2@, 8);
        }
        let lens0: [usize; 7] = parse_lens(data1);
        let lens1: [usize; 7] = parse_lens(data2);
        let total0: usize = data1.len();
        let total1: usize = data2.len();

        let mut offset0: usize = 28;
        let mut offset1: usize = 28;
        if let Some(order) = not_equal::<T0>(
            slice_subrange(data1, offset0, offset0 + lens0[0]),
            slice_subrange(data2, offset1, offset1 + lens1[0]),
        ) {
            return order;
        }
        offset0 += lens0[0];
        offset1 += lens1[0];

        if let Some(order) = not_equal::<T1>(
            slice_subrange(data1, offset0, offset0 + lens0[1]),
            slice_subrange(data2, offset1, offset1 + lens1[1]),
        ) {
            return order;
        }
        offset0 += lens0[1];
        offset1 += lens1[1];

        if let Some(order) = not_equal::<T2>(
            slice_subrange(data1, offset0, offset0 + lens0[2]),
            slice_subrange(data2, offset1, offset1 + lens1[2]),
        ) {
            return order;
        }
        offset0 += lens0[2];
        offset1 += lens1[2];

        if let Some(order) = not_equal::<T3>(
            slice_subrange(data1, offset0, offset0 + lens0[3]),
            slice_subrange(data2, offset1, offset1 + lens1[3]),
        ) {
            return order;
        }
        offset0 += lens0[3];
        offset1 += lens1[3];

        if let Some(order) = not_equal::<T4>(
            slice_subrange(data1, offset0, offset0 + lens0[4]),
            slice_subrange(data2, offset1, offset1 + lens1[4]),
        ) {
            return order;
        }
        offset0 += lens0[4];
        offset1 += lens1[4];

        if let Some(order) = not_equal::<T5>(
            slice_subrange(data1, offset0, offset0 + lens0[5]),
            slice_subrange(data2, offset1, offset1 + lens1[5]),
        ) {
            return order;
        }
        offset0 += lens0[5];
        offset1 += lens1[5];

        if let Some(order) = not_equal::<T6>(
            slice_subrange(data1, offset0, offset0 + lens0[6]),
            slice_subrange(data2, offset1, offset1 + lens1[6]),
        ) {
            return order;
        }
        offset0 += lens0[6];
        offset1 += lens1[6];

        T7::compare(
            slice_subrange(data1, offset0, total0),
            slice_subrange(data2, offset1, total1),
        )
    }

    proof fn compare_reflexive(data: Seq<u8>) {
        T0::compare_reflexive(tuple_element(data, 8, 0));
        T1::compare_reflexive(tuple_element(data, 8, 1));
        T2::compare_reflexive(tuple_element(data, 8, 2));
        T3::compare_reflexive(tuple_element(data, 8, 3));
        T4::compare_reflexive(tuple_element(data, 8, 4));
        T5::compare_reflexive(tuple_element(data, 8, 5));
        T6::compare_reflexive(tuple_element(data, 8, 6));
        T7::compare_reflexive(tuple_element(data, 8, 7));
    }

    proof fn compare_flip(data1: Seq<u8>, data2: Seq<u8>) {
        T0::compare_flip(tuple_element(data1, 8, 0), tuple_element(data2, 8, 0));
        T1::compare_flip(tuple_element(data1, 8, 1), tuple_element(data2, 8, 1));
        T2::compare_flip(tuple_element(data1, 8, 2), tuple_element(data2, 8, 2));
        T3::compare_flip(tuple_element(data1, 8, 3), tuple_element(data2, 8, 3));
        T4::compare_flip(tuple_element(data1, 8, 4), tuple_element(data2, 8, 4));
        T5::compare_flip(tuple_element(data1, 8, 5), tuple_element(data2, 8, 5));
        T6::compare_flip(tuple_element(data1, 8, 6), tuple_element(data2, 8, 6));
        T7::compare_flip(tuple_element(data1, 8, 7), tuple_element(data2, 8, 7));
    }

    proof fn compare_transitive(data1: Seq<u8>, data2: Seq<u8>, data3: Seq<u8>) {
        component_order::<T0>(
            tuple_element(data1, 8, 0),
            tuple_element(data2, 8, 0),
            tuple_element(data3, 8, 0),
        );
        component_order::<T1>(
            tuple_element(data1, 8, 1),
            tuple_element(data2, 8, 1),
            tuple_element(data3, 8, 1),
        );
        component_order::<T2>(
            tuple_element(data1, 8, 2),
            tuple_element(data2, 8, 2),
            tuple_element(data3, 8, 2),
        );
        component_order::<T3>(
            tuple_element(data1, 8, 3),
            tuple_element(data2, 8, 3),
            tuple_element(data3, 8, 3),
        );
        component_order::<T4>(
            tuple_element(data1, 8, 4),
            tuple_element(data2, 8, 4),
            tuple_element(data3, 8, 4),
        );
        component_order::<T5>(
            tuple_element(data1, 8, 5),
            tuple_element(data2, 8, 5),
            tuple_element(data3, 8, 5),
        );
        component_order::<T6>(
            tuple_element(data1, 8, 6),
            tuple_element(data2, 8, 6),
            tuple_element(data3, 8, 6),
        );
        component_order::<T7>(
            tuple_element(data1, 8, 7),
            tuple_element(data2, 8, 7),
            tuple_element(data3, 8, 7),
        );
    }
}

impl<
    T0: RedbKey,
    T1: RedbKey,
    T2: RedbKey,
    T3: RedbKey,
    T4: RedbKey,
    T5: RedbKey,
    T6: RedbKey,
    T7: RedbKey,
    T8: RedbKey,
> RedbKey for (T0, T1, T2, T3, T4, T5, T6, T7, T8) {
    open spec fn compare_spec(data1: Seq<u8>, data2: Seq<u8>) -> Ordering {
        let from8 = T8::compare_spec(tuple_element(data1, 9, 8), tuple_element(data2, 9, 8));
        let from7 = first_unequal(
            T7::compare_spec(tuple_element(data1, 9, 7), tuple_element(data2, 9, 7)),
            from8,
        );
        let from6 = first_unequal(
            T6::compare_spec(tuple_element(data1, 9, 6), tuple_element(data2, 9, 6)),
            from7,
        );
        let from5 = first_unequal(
            T5::compare_spec(tuple_element(data1, 9, 5), tuple_element(data2, 9, 5)),
            from6,
        );
        let from4 = first_unequal(
            T4::compare_spec(tuple_element(data1, 9, 4), tuple_element(data2, 9, 4)),
            from5,
        );
        let from3 = first_unequal(
            T3::compare_spec(tuple_element(data1, 9, 3), tuple_element(data2, 9, 3)),
            from4,
        );
        let from2 = first_unequal(
            T2::compare_spec(tuple_element(data1, 9, 2), tuple_element(data2, 9, 2)),
            from3,
        );
        let from1 = first_unequal(
            T1::compare_spec(tuple_element(data1, 9, 1), tuple_element(data2, 9, 1)),
            from2,
        );
        first_unequal(
            T0::compare_spec(tuple_element(data1, 9, 0), tuple_element(data2, 9, 0)),
            from1,
        )
    }

    fn compare(data1: &[u8], data2: &[u8]) -> (order: Ordering) {
        proof {
            framed_layout(data1@, 9);
            framed_layout(data2@, 9);
        }
        let lens0: [usize; 8] = parse_lens(data1);
        let lens1: [usize; 8] = parse_lens(data2);
        let total0: usize = data1.len();
        let total1: usize = data2.len();

        let mut offset0: usize = 32;
        let mut offset1: usize = 32;
        if let Some(order) = not_equal::<T0>(
            slice_subrange(data1, offset0, offset0 + lens0[0]),
            slice_subrange(data2, offset1, offset1 + lens1[0]),
        ) {
            return order;
        }
        offset0 += lens0[0];
        offset1 += lens1[0];

        if let Some(order) = not_equal::<T1>(
            slice_subrange(data1, offset0, offset0 + lens0[1]),
            slice_subrange(data2, offset1, offset1 + lens1[1]),
        ) {
            return order;
        }
        offset0 += lens0[1];
        offset1 += lens1[1];

        if let Some(order) = not_equal::<T2>(
            slice_subrange(data1, offset0, offset0 + lens0[2]),
            slice_subrange(data2, offset1, offset1 + lens1[2]),
        ) {
            return order;
        }
        offset0 += lens0[2];
        offset1 += lens1[2];

        if let Some(order) = not_equal::<T3>(
            slice_subrange(data1, offset0, offset0 + lens0[3]),
            slice_subrange(data2, offset1, offset1 + lens1[3]),
        ) {
            return order;
        }
        offset0 += lens0[3];
        offset1 += lens1[3];

        if let Some(order) = not_equal::<T4>(
            slice_subrange(data1, offset0, offset0 + lens0[4]),
            slice_subrange(data2, offset1, offset1 + lens1[4]),
        ) {
            return order;
        }
        offset0 += lens0[4];
        offset1 += lens1[4];

        if let Some(order) = not_equal::<T5>(
            slice_subrange(data1, offset0, offset0 + lens0[5]),
            slice_subrange(data2, offset1, offset1 + lens1[5]),
        ) {
            return order;
        }
        offset0 += lens0[5];
        offset1 += lens1[5];

        if let Some(order) = not_equal::<T6>(
            slice_subrange(data1, offset0, offset0 + lens0[6]),
            slice_subrange(data2, offset1, offset1 + lens1[6]),
        ) {
            return order;
        }
        offset0 += lens0[6];
        offset1 += lens1[6];

        if let Some(order) = not_equal::<T7>(
            slice_subrange(data1, offset0, offset0 + lens0[7]),
            slice_subrange(data2, offset1, offset1 + lens1[7]),
        ) {
            return order;
        }
        offset0 += lens0[7];
        offset1 += lens1[7];

        T8::compare(
            slice_subrange(data1, offset0, total0),
            slice_subrange(data2, offset1, total1),
        )
    }

    proof fn compare_reflexive(data: Seq<u8>) {
        T0::compare_reflexive(tuple_element(data, 9, 0));
        T1::compare_reflexive(tuple_element(data, 9, 1));
        T2::compare_reflexive(tuple_element(data, 9, 2));
        T3::compare_reflexive(tuple_element(data, 9, 3));
        T4::compare_reflexive(tuple_element(data, 9, 4));
        T5::compare_reflexive(tuple_element(data, 9, 5));
        T6::compare_reflexive(tuple_element(data, 9, 6));
        T7::compare_reflexive(tuple_element(data, 9, 7));
        T8::compare_reflexive(tuple_element(data, 9, 8));
    }

    proof fn compare_flip(data1: Seq<u8>, data2: Seq<u8>) {
        T0::compare_flip(tuple_element(data1, 9, 0), tuple_element(data2, 9, 0));
        T1::compare_flip(tuple_element(data1, 9, 1), tuple_element(data2, 9, 1));
        T2::compare_flip(tuple_element(data1, 9, 2), tuple_element(data2, 9, 2));
        T3::compare_flip(tuple_element(data1, 9, 3), tuple_element(data2, 9, 3));
        T4::compare_flip(tuple_element(data1, 9, 4), tuple_element(data2, 9, 4));
        T5::compare_flip(tuple_element(data1, 9, 5), tuple_element(data2, 9, 5));
        T6::compare_flip(tuple_element(data1, 9, 6), tuple_element(data2, 9, 6));
        T7::compare_flip(tuple_element(data1, 9, 7), tuple_element(data2, 9, 7));
        T8::compare_flip(tuple_element(data1, 9, 8), tuple_element(data2, 9, 8));
    }

    proof fn compare_transitive(data1: Seq<u8>, data2: Seq<u8>, data3: Seq<u8>) {
        component_order::<T0>(
            tuple_element(data1, 9, 0),
            tuple_element(data2, 9, 0),
            tuple_element(data3, 9, 0),
        );
        component_order::<T1>(
            tuple_element(data1, 9, 1),
            tuple_element(data2, 9, 1),
            tuple_element(data3, 9, 1),
        );
        component_order::<T2>(
            tuple_element(data1, 9, 2),
            tuple_element(data2, 9, 2),
            tuple_element(data3, 9, 2),
        );
        component_order::<T3>(
            tuple_element(data1, 9, 3),
            tuple_element(data2, 9, 3),
            tuple_element(data3, 9, 3),
        );
        component_order::<T4>(
            tuple_element(data1, 9, 4),
            tuple_element(data2, 9, 4),
            tuple_element(data3, 9, 4),
        );
        component_order::<T5>(
            tuple_element(data1, 9, 5),
            tuple_element(data2, 9, 5),
            tuple_element(data3, 9, 5),
        );
        component_order::<T6>(
            tuple_element(data1, 9, 6),
            tuple_element(data2, 9, 6),
            tuple_element(data3, 9, 6),
        );
        component_order::<T7>(
            tuple_element(data1, 9, 7),
            tuple_element(data2, 9, 7),
            tuple_element(data3, 9, 7),
        );
        component_order::<T8>(
            tuple_element(data1, 9, 8),
            tuple_element(data2, 9, 8),
            tuple_element(data3, 9, 8),
        );
    }
}

impl<
    T0: RedbKey,
    T1: RedbKey,
    T2: RedbKey,
    T3: RedbKey,
    T4: RedbKey,
    T5: RedbKey,
    T6: RedbKey,
    T7: RedbKey,
    T8: RedbKey,
    T9: RedbKey,
> RedbKey for (T0, T1, T2, T3, T4, T5, T6, T7, T8, T9) {
    open spec fn compare_spec(data1: Seq<u8>, data2: Seq<u8>) -> Ordering {
        let from9 = T9::compare_spec(tuple_element(data1, 10, 9), tuple_element(data2, 10, 9));
        let from8 = first_unequal(
            T8::compare_spec(tuple_element(data1, 10, 8), tuple_element(data2, 10, 8)),
            from9,
        );
        let from7 = first_unequal(
            T7::compare_spec(tuple_element(data1, 10, 7), tuple_element(data2, 10, 7)),
            from8,
        );
        let from6 = first_unequal(
            T6::compare_spec(tuple_element(data1, 10, 6), tuple_element(data2, 10, 6)),
            from7,
        );
        let from5 = first_unequal(
            T5::compare_spec(tuple_element(data1, 10, 5), tuple_element(data2, 10, 5)),
            from6,
        );
        let from4 = first_unequal(
            T4::compare_spec(tuple_element(data1, 10, 4), tuple_element(data2, 10, 4)),
            from5,
        );
        let from3 = first_unequal(
            T3::compare_spec(tuple_element(data1, 10, 3), tuple_element(data2, 10, 3)),
            from4,
        );
        let from2 = first_unequal(
            T2::compare_spec(tuple_element(data1, 10, 2), tuple_element(data2, 10, 2)),
            from3,
        );
        let from1 = first_unequal(
            T1::compare_spec(tuple_element(data1, 10, 1), tuple_element(data2, 10, 1)),
            from2,
        );
        first_unequal(
            T0::compare_spec(tuple_element(data1, 10, 0), tuple_element(data2, 10, 0)),
            from1,
        )
    }

    fn compare(data1: &[u8], data2: &[u8]) -> (order: Ordering) {
        proof {
            framed_layout(data1@, 10);
            framed_layout(data2@, 10);
        }
        let lens0: [usize; 9] = parse_lens(data1);
        let lens1: [usize; 9] = parse_lens(data2);
        let total0: usize = data1.len();
        let total1: usize = data2.len();

        let mut offset0: usize = 36;
        let mut offset1: usize = 36;
        if let Some(order) = not_equal::<T0>(
            slice_subrange(data1, offset0, offset0 + lens0[0]),
            slice_subrange(data2, offset1, offset1 + lens1[0]),
        ) {
            return order;
        }
        offset0 += lens0[0];
        offset1 += lens1[0];

        if let Some(order) = not_equal::<T1>(
            slice_subrange(data1, offset0, offset0 + lens0[1]),
            slice_subrange(data2, offset1, offset1 + lens1[1]),
        ) {
            return order;
        }
        offset0 += lens0[1];
        offset1 += lens1[1];

        if let Some(order) = not_equal::<T2>(
            slice_subrange(data1, offset0, offset0 + lens0[2]),
            slice_subrange(data2, offset1, offset1 + lens1[2]),
        ) {
            return order;
        }
        offset0 += lens0[2];
        offset1 += lens1[2];

        if let Some(order) = not_equal::<T3>(
            slice_subrange(data1, offset0, offset0 + lens0[3]),
            slice_subrange(data2, offset1, offset1 + lens1[3]),
        ) {
            return order;
        }
        offset0 += lens0[3];
        offset1 += lens1[3];

        if let Some(order) = not_equal::<T4>(
            slice_subrange(data1, offset0, offset0 + lens0[4]),
            slice_subrange(data2, offset1, offset1 + lens1[4]),
        ) {
            return order;
        }
        offset0 += lens0[4];
        offset1 += lens1[4];

        if let Some(order) = not_equal::<T5>(
            slice_subrange(data1, offset0, offset0 + lens0[5]),
            slice_subrange(data2, offset1, offset1 + lens1[5]),
        ) {
            return order;
        }
        offset0 += lens0[5];
        offset1 += lens1[5];

        if let Some(order) = not_equal::<T6>(
            slice_subrange(data1, offset0, offset0 + lens0[6]),
            slice_subrange(data2, offset1, offset1 + lens1[6]),
        ) {
            return order;
        }
        offset0 += lens0[6];
        offset1 += lens1[6];

        if let Some(order) = not_equal::<T7>(
            slice_subrange(data1, offset0, offset0 + lens0[7]),
            slice_subrange(data2, offset1, offset1 + lens1[7]),
        ) {
            return order;
        }
        offset0 += lens0[7];
        offset1 += lens1[7];

        if let Some(order) = not_equal::<T8>(
            slice_subrange(data1, offset0, offset0 + lens0[8]),
            slice_subrange(data2, offset1, offset1 + lens1[8]),
        ) {
            return order;
        }
        offset0 += lens0[8];
        offset1 += lens1[8];

        T9::compare(
            slice_subrange(data1, offset0, total0),
            slice_subrange(data2, offset1, total1),
        )
    }

    proof fn compare_reflexive(data: Seq<u8>) {
        T0::compare_reflexive(tuple_element(data, 10, 0));
        T1::compare_reflexive(tuple_element(data, 10, 1));
        T2::compare_reflexive(tuple_element(data, 10, 2));
        T3::compare_reflexive(tuple_element(data, 10, 3));
        T4::compare_reflexive(tuple_element(data, 10, 4));
        T5::compare_reflexive(tuple_element(data, 10, 5));
        T6::compare_reflexive(tuple_element(data, 10, 6));
        T7::compare_reflexive(tuple_element(data, 10, 7));
        T8::compare_reflexive(tuple_element(data, 10, 8));
        T9::compare_reflexive(tuple_element(data, 10, 9));
    }

    proof fn compare_flip(data1: Seq<u8>, data2: Seq<u8>) {
        T0::compare_flip(tuple_element(data1, 10, 0), tuple_element(data2, 10, 0));
        T1::compare_flip(tuple_element(data1, 10, 1), tuple_element(data2, 10, 1));
        T2::compare_flip(tuple_element(data1, 10, 2), tuple_element(data2, 10, 2));
        T3::compare_flip(tuple_element(data1, 10, 3), tuple_element(data2, 10, 3));
        T4::compare_flip(tuple_element(data1, 10, 4), tuple_element(data2, 10, 4));
        T5::compare_flip(tuple_element(data1, 10, 5), tuple_element(data2, 10, 5));
        T6::compare_flip(tuple_element(data1, 10, 6), tuple_element(data2, 10, 6));
        T7::compare_flip(tuple_element(data1, 10, 7), tuple_element(data2, 10, 7));
        T8::compare_flip(tuple_element(data1, 10, 8), tuple_element(data2, 10, 8));
        T9::compare_flip(tuple_element(data1, 10, 9), tuple_element(data2, 10, 9));
    }

    proof fn compare_transitive(data1: Seq<u8>, data2: Seq<u8>, data3: Seq<u8>) {
        component_order::<T0>(
            tuple_element(data1, 10, 0),
            tuple_element(data2, 10, 0),
            tuple_element(data3, 10, 0),
        );
        component_order::<T1>(
            tuple_element(data1, 10, 1),
            tuple_element(data2, 10, 1),
            tuple_element(data3, 10, 1),
        );
        component_order::<T2>(
            tuple_element(data1, 10, 2),
            tuple_element(data2, 10, 2),
            tuple_element(data3, 10, 2),
        );
        component_order::<T3>(
            tuple_element(data1, 10, 3),
            tuple_element(data2, 10, 3),
            tuple_element(data3, 10, 3),
        );
        component_order::<T4>(
            tuple_element(data1, 10, 4),
            tuple_element(data2, 10, 4),
            tuple_element(data3, 10, 4),
        );
        component_order::<T5>(
            tuple_element(data1, 10, 5),
            tuple_element(data2, 10, 5),
            tuple_element(data3, 10, 5),
        );
        component_order::<T6>(
            tuple_element(data1, 10, 6),
            tuple_element(data2, 10, 6),
            tuple_element(data3, 10, 6),
        );
        component_order::<T7>(
            tuple_element(data1, 10, 7),
            tuple_element(data2, 10, 7),
            tuple_element(data3, 10, 7),
        );
        component_order::<T8>(
            tuple_element(data1, 10, 8),
            tuple_element(data2, 10, 8),
            tuple_element(data3, 10, 8),
        );
        component_order::<T9>(
            tuple_element(data1, 10, 9),
            tuple_element(data2, 10, 9),
            tuple_element(data3, 10, 9),
        );
    }
}

} // verus!
