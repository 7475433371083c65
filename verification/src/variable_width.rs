//! Values of a type of the user's own.

use crate::types::RedbValue;
use vstd::prelude::*;

verus! {

/// An interface for types to be in tables.
///
/// Implement this trait to allow a type to be used as a value in a table.
pub trait VariableWidthValue: Sized {
    /// The byte strings that stand for a value of this type.
    spec fn readable(data: Seq<u8>) -> bool;

    /// Whether `value` is what `data` stands for.
    spec fn reads_as(data: Seq<u8>, value: Self) -> bool;

    /// The bytes that stand for `self`.
    spec fn written(&self) -> Seq<u8>;

    /// The name under which this type is recorded in a database file.
    spec fn recorded_name() -> Seq<char>;

    /// Whether `self` can be read back from the bytes that stand for it.
    spec fn readable_back(&self) -> bool;

    /// The bytes that stand for a value that can be read back stand for a
    /// value of this type.
    proof fn written_is_readable(&self)
        requires
            self.readable_back(),
        ensures
            Self::readable(self.written()),
    ;

    /// Deserialize a stored series of bytes.
    fn from_bytes(data: &[u8]) -> (value: Self)
        requires
            Self::readable(data@),
        ensures
            Self::reads_as(data@, value),
    ;

    /// Serialize the value to a series of bytes.
    fn to_bytes(&self) -> (bytes: Vec<u8>)
        ensures
            bytes@ == self.written(),
    ;

    /// Globally unique identifier for this type.
    ///
    /// This string is stored in the database file. Changing it indicates
    /// that it is a different type.
    fn value_type_name() -> (name: String)
        ensures
            name@ == Self::recorded_name(),
    ;
}

impl<V: VariableWidthValue> RedbValue for V {
    type View = V;

    open spec fn decodable(data: Seq<u8>) -> bool {
        V::readable(data)
    }

    open spec fn decodes_to(data: Seq<u8>, value: V) -> bool {
        V::reads_as(data, value)
    }

    open spec fn encoding(&self) -> Seq<u8> {
        self.written()
    }

    open spec fn type_name_spec() -> Seq<char> {
        V::recorded_name()
    }

    open spec fn storable(&self) -> bool {
        self.readable_back()
    }

    proof fn storable_decodable(&self) {
        self.written_is_readable();
    }

    fn from_bytes(data: &[u8]) -> (value: V) {
        <V as VariableWidthValue>::from_bytes(data)
    }

    fn as_bytes(&self) -> (bytes: Vec<u8>) {
        self.to_bytes()
    }

    fn redb_type_name() -> (name: String) {
        V::value_type_name()
    }
}

} // verus!
