//! What a type must offer to be stored as a value or used as a key, and the
//! byte strings and text that can be stored as they are.

use crate::byte_order::{
    compare_bytes, lex_order, lex_order_equal, lex_order_flip, lex_order_transitive,
};
use std::cmp::Ordering;
use vstd::prelude::*;
use vstd::slice::slice_to_vec;
use vstd::string::*;
use vstd::utf8::{encode_utf8, encode_utf8_valid_utf8, valid_utf8};

verus! {

/// A type whose values can be stored: they are written as bytes and read
/// back from bytes.
pub trait RedbValue {
    /// What reading a stored value gives.
    type View;

    /// The byte strings that stand for a value of this type. Reading any
    /// other byte string is an error of the caller.
    spec fn decodable(data: Seq<u8>) -> bool;

    /// Whether `value` is what `data` stands for.
    spec fn decodes_to(data: Seq<u8>, value: Self::View) -> bool;

    /// The bytes that stand for `self`.
    spec fn encoding(&self) -> Seq<u8>;

    /// The name under which this type is recorded in a database file.
    spec fn type_name_spec() -> Seq<char>;

    /// Whether `self` can be read back from the bytes that stand for it.
    spec fn storable(&self) -> bool;

    /// The bytes that stand for a value that can be read back stand for a
    /// value of this type.
    proof fn storable_decodable(&self)
        requires
            self.storable(),
        ensures
            Self::decodable(self.encoding()),
    ;

    /// Deserializes data.
    fn from_bytes(data: &[u8]) -> (value: Self::View)
        requires
            Self::decodable(data@),
        ensures
            Self::decodes_to(data@, value),
    ;

    /// Serializes the value.
    fn as_bytes(&self) -> (bytes: Vec<u8>)
        ensures
            bytes@ == self.encoding(),
    ;

    /// Globally unique identifier for this type.
    fn redb_type_name() -> (name: String)
        ensures
            name@ == Self::type_name_spec(),
    ;
}

/// A type whose values can be used as keys: its stored forms are ordered.
pub trait RedbKey: RedbValue {
    /// The order of two stored keys.
    spec fn compare_spec(data1: Seq<u8>, data2: Seq<u8>) -> Ordering;

    /// Compares `data1` with `data2`.
    fn compare(data1: &[u8], data2: &[u8]) -> (order: Ordering)
        requires
            Self::decodable(data1@),
            Self::decodable(data2@),
        ensures
            order == Self::compare_spec(data1@, data2@),
    ;

    /// A stored key is equal to itself.
    proof fn compare_reflexive(data: Seq<u8>)
        requires
            Self::decodable(data),
        ensures
            Self::compare_spec(data, data) == Ordering::Equal,
    ;

    /// Swapping the two keys swaps `Less` and `Greater` and keeps `Equal`.
    proof fn compare_flip(data1: Seq<u8>, data2: Seq<u8>)
        requires
            Self::decodable(data1),
            Self::decodable(data2),
        ensures
            Self::compare_spec(data1, data2) == Ordering::Less <==> Self::compare_spec(
                data2,
                data1,
            ) == Ordering::Greater,
            Self::compare_spec(data1, data2) == Ordering::Greater <==> Self::compare_spec(
                data2,
                data1,
            ) == Ordering::Less,
    ;

    /// The order is transitive.
    proof fn compare_transitive(data1: Seq<u8>, data2: Seq<u8>, data3: Seq<u8>)
        requires
            Self::decodable(data1),
            Self::decodable(data2),
            Self::decodable(data3),
            Self::compare_spec(data1, data2) != Ordering::Greater,
            Self::compare_spec(data2, data3) != Ordering::Greater,
        ensures
            Self::compare_spec(data1, data3) != Ordering::Greater,
    ;
}

impl RedbValue for [u8] {
    type View = Vec<u8>;

    open spec fn decodable(data: Seq<u8>) -> bool {
        true
    }

    open spec fn decodes_to(data: Seq<u8>, value: Vec<u8>) -> bool {
        value@ == data
    }

    open spec fn encoding(&self) -> Seq<u8> {
        self@
    }

    open spec fn type_name_spec() -> Seq<char> {
        "[u8]"@
    }

    open spec fn storable(&self) -> bool {
        true
    }

    proof fn storable_decodable(&self) {
    }

    fn from_bytes(data: &[u8]) -> (value: Vec<u8>) {
        slice_to_vec(data)
    }

    fn as_bytes(&self) -> (bytes: Vec<u8>) {
        slice_to_vec(self)
    }

    fn redb_type_name() -> (name: String) {
        String::from_str("[u8]")
    }
}

impl RedbKey for [u8] {
    open spec fn compare_spec(data1: Seq<u8>, data2: Seq<u8>) -> Ordering {
        lex_order(data1, data2)
    }

    fn compare(data1: &[u8], data2: &[u8]) -> (order: Ordering) {
        compare_bytes(data1, data2)
    }

    proof fn compare_reflexive(data: Seq<u8>) {
        lex_order_equal(data, data);
    }

    proof fn compare_flip(data1: Seq<u8>, data2: Seq<u8>) {
        lex_order_flip(data1, data2);
    }

    proof fn compare_transitive(data1: Seq<u8>, data2: Seq<u8>, data3: Seq<u8>) {
        lex_order_transitive(data1, data2, data3);
    }
}

impl RedbValue for &[u8] {
    type View = Vec<u8>;

    open spec fn decodable(data: Seq<u8>) -> bool {
        true
    }

    open spec fn decodes_to(data: Seq<u8>, value: Vec<u8>) -> bool {
        value@ == data
    }

    open spec fn encoding(&self) -> Seq<u8> {
        (*self)@
    }

    open spec fn type_name_spec() -> Seq<char> {
        "[u8]"@
    }

    open spec fn storable(&self) -> bool {
        true
    }

    proof fn storable_decodable(&self) {
    }

    fn from_bytes(data: &[u8]) -> (value: Vec<u8>) {
        slice_to_vec(data)
    }

    fn as_bytes(&self) -> (bytes: Vec<u8>) {
        slice_to_vec(*self)
    }

    fn redb_type_name() -> (name: String) {
        String::from_str("[u8]")
    }
}

impl RedbKey for &[u8] {
    open spec fn compare_spec(data1: Seq<u8>, data2: Seq<u8>) -> Ordering {
        lex_order(data1, data2)
    }

    fn compare(data1: &[u8], data2: &[u8]) -> (order: Ordering) {
        compare_bytes(data1, data2)
    }

    proof fn compare_reflexive(data: Seq<u8>) {
        lex_order_equal(data, data);
    }

    proof fn compare_flip(data1: Seq<u8>, data2: Seq<u8>) {
        lex_order_flip(data1, data2);
    }

    proof fn compare_transitive(data1: Seq<u8>, data2: Seq<u8>, data3: Seq<u8>) {
        lex_order_transitive(data1, data2, data3);
    }
}

/// `std::str::from_utf8`: the text that `data` holds where `data` is
/// well-formed UTF-8, and `None` where it is not. The text is made of the
/// very bytes of `data`.
#[verifier::external_body]
fn utf8_text(data: &[u8]) -> (text: Option<&str>)
    ensures
        text is Some <==> valid_utf8(data@),
        text is Some ==> text->Some_0.spec_bytes() == data@,
{
    std::str::from_utf8(data).ok()
}

/// Reads stored text.
fn text_from_bytes(data: &[u8]) -> (value: String)
    requires
        valid_utf8(data@),
    ensures
        encode_utf8(value@) == data@,
{
    utf8_text(data).unwrap().to_owned()
}

impl RedbValue for str {
    type View = String;

    open spec fn decodable(data: Seq<u8>) -> bool {
        valid_utf8(data)
    }

    open spec fn decodes_to(data: Seq<u8>, value: String) -> bool {
        encode_utf8(value@) == data
    }

    open spec fn encoding(&self) -> Seq<u8> {
        self.spec_bytes()
    }

    open spec fn type_name_spec() -> Seq<char> {
        "str"@
    }

    open spec fn storable(&self) -> bool {
        true
    }

    proof fn storable_decodable(&self) {
        encode_utf8_valid_utf8(self@);
    }

    fn from_bytes(data: &[u8]) -> (value: String) {
        text_from_bytes(data)
    }

    fn as_bytes(&self) -> (bytes: Vec<u8>) {
        self.as_bytes_vec()
    }

    fn redb_type_name() -> (name: String) {
        String::from_str("str")
    }
}

impl RedbKey for str {
    open spec fn compare_spec(data1: Seq<u8>, data2: Seq<u8>) -> Ordering {
        lex_order(data1, data2)
    }

    fn compare(data1: &[u8], data2: &[u8]) -> (order: Ordering) {
        compare_bytes(data1, data2)
    }

    proof fn compare_reflexive(data: Seq<u8>) {
        lex_order_equal(data, data);
    }

    proof fn compare_flip(data1: Seq<u8>, data2: Seq<u8>) {
        lex_order_flip(data1, data2);
    }

    proof fn compare_transitive(data1: Seq<u8>, data2: Seq<u8>, data3: Seq<u8>) {
        lex_order_transitive(data1, data2, data3);
    }
}

impl RedbValue for &str {
    type View = String;

    open spec fn decodable(data: Seq<u8>) -> bool {
        valid_utf8(data)
    }

    open spec fn decodes_to(data: Seq<u8>, value: String) -> bool {
        encode_utf8(value@) == data
    }

    open spec fn encoding(&self) -> Seq<u8> {
        (*self).spec_bytes()
    }

    open spec fn type_name_spec() -> Seq<char> {
        "str"@
    }

    open spec fn storable(&self) -> bool {
        true
    }

    proof fn storable_decodable(&self) {
        encode_utf8_valid_utf8((*self)@);
    }

    fn from_bytes(data: &[u8]) -> (value: String) {
        text_from_bytes(data)
    }

    fn as_bytes(&self) -> (bytes: Vec<u8>) {
        (*self).as_bytes_vec()
    }

    fn redb_type_name() -> (name: String) {
        String::from_str("str")
    }
}

impl RedbKey for &str {
    open spec fn compare_spec(data1: Seq<u8>, data2: Seq<u8>) -> Ordering {
        lex_order(data1, data2)
    }

    fn compare(data1: &[u8], data2: &[u8]) -> (order: Ordering) {
        compare_bytes(data1, data2)
    }

    proof fn compare_reflexive(data: Seq<u8>) {
        lex_order_equal(data, data);
    }

    proof fn compare_flip(data1: Seq<u8>, data2: Seq<u8>) {
        lex_order_flip(data1, data2);
    }

    proof fn compare_transitive(data1: Seq<u8>, data2: Seq<u8>, data3: Seq<u8>) {
        lex_order_transitive(data1, data2, data3);
    }
}

} // verus!
