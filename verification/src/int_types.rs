//! Integers as values and as keys. An integer is stored in as many bytes as
//! its type has, little-endian; a signed one in two's complement. Stored
//! integers are ordered as numbers.

use crate::types::{RedbKey, RedbValue};
use std::cmp::Ordering;
use vstd::bytes::*;
use vstd::prelude::*;
use vstd::slice::slice_index_get;
use vstd::string::*;

verus! {

/// The order of two numbers.
pub open spec fn int_order(a: int, b: int) -> Ordering {
    if a < b {
        Ordering::Less
    } else if a > b {
        Ordering::Greater
    } else {
        Ordering::Equal
    }
}

/// The `u8` that `data` stands for.
pub open spec fn stored_u8(data: Seq<u8>) -> int {
    data[0] as int
}

impl RedbValue for u8 {
    type View = u8;

    open spec fn decodable(data: Seq<u8>) -> bool {
        data.len() == 1
    }

    open spec fn decodes_to(data: Seq<u8>, value: u8) -> bool {
        value == stored_u8(data)
    }

    open spec fn encoding(&self) -> Seq<u8> {
        seq![*self]
    }

    open spec fn type_name_spec() -> Seq<char> {
        "u8"@
    }

    open spec fn storable(&self) -> bool {
        true
    }

    proof fn storable_decodable(&self) {
    }

    fn from_bytes(data: &[u8]) -> (value: u8) {
        *slice_index_get(data, 0)
    }

    fn as_bytes(&self) -> (bytes: Vec<u8>) {
        let bytes = vec![*self];
        assert(bytes@ =~= self.encoding());
        bytes
    }

    fn redb_type_name() -> (name: String) {
        String::from_str("u8")
    }
}

impl RedbKey for u8 {
    open spec fn compare_spec(data1: Seq<u8>, data2: Seq<u8>) -> Ordering {
        int_order(stored_u8(data1), stored_u8(data2))
    }

    fn compare(data1: &[u8], data2: &[u8]) -> (order: Ordering) {
        let value1 = Self::from_bytes(data1);
        let value2 = Self::from_bytes(data2);
        if value1 < value2 {
            Ordering::Less
        } else if value1 > value2 {
            Ordering::Greater
        } else {
            Ordering::Equal
        }
    }

    proof fn compare_reflexive(data: Seq<u8>) {
    }

    proof fn compare_flip(data1: Seq<u8>, data2: Seq<u8>) {
    }

    proof fn compare_transitive(data1: Seq<u8>, data2: Seq<u8>, data3: Seq<u8>) {
    }
}

/// The `u16` that `data` stands for.
pub open spec fn stored_u16(data: Seq<u8>) -> int {
    spec_u16_from_le_bytes(data) as int
}

impl RedbValue for u16 {
    type View = u16;

    open spec fn decodable(data: Seq<u8>) -> bool {
        data.len() == 2
    }

    open spec fn decodes_to(data: Seq<u8>, value: u16) -> bool {
        value == stored_u16(data)
    }

    open spec fn encoding(&self) -> Seq<u8> {
        spec_u16_to_le_bytes(*self)
    }

    open spec fn type_name_spec() -> Seq<char> {
        "u16"@
    }

    open spec fn storable(&self) -> bool {
        true
    }

    proof fn storable_decodable(&self) {
        lemma_auto_spec_u16_to_from_le_bytes();
    }

    fn from_bytes(data: &[u8]) -> (value: u16) {
        u16_from_le_bytes(data)
    }

    fn as_bytes(&self) -> (bytes: Vec<u8>) {
        u16_to_le_bytes(*self)
    }

    fn redb_type_name() -> (name: String) {
        String::from_str("u16")
    }
}

impl RedbKey for u16 {
    open spec fn compare_spec(data1: Seq<u8>, data2: Seq<u8>) -> Ordering {
        int_order(stored_u16(data1), stored_u16(data2))
    }

    fn compare(data1: &[u8], data2: &[u8]) -> (order: Ordering) {
        let value1 = Self::from_bytes(data1);
        let value2 = Self::from_bytes(data2);
        if value1 < value2 {
            Ordering::Less
        } else if value1 > value2 {
            Ordering::Greater
        } else {
            Ordering::Equal
        }
    }

    proof fn compare_reflexive(data: Seq<u8>) {
    }

    proof fn compare_flip(data1: Seq<u8>, data2: Seq<u8>) {
    }

    proof fn compare_transitive(data1: Seq<u8>, data2: Seq<u8>, data3: Seq<u8>) {
    }
}

/// The `u32` that `data` stands for.
pub open spec fn stored_u32(data: Seq<u8>) -> int {
    spec_u32_from_le_bytes(data) as int
}

impl RedbValue for u32 {
    type View = u32;

    open spec fn decodable(data: Seq<u8>) -> bool {
        data.len() == 4
    }

    open spec fn decodes_to(data: Seq<u8>, value: u32) -> bool {
        value == stored_u32(data)
    }

    open spec fn encoding(&self) -> Seq<u8> {
        spec_u32_to_le_bytes(*self)
    }

    open spec fn type_name_spec() -> Seq<char> {
        "u32"@
    }

    open spec fn storable(&self) -> bool {
        true
    }

    proof fn storable_decodable(&self) {
        lemma_auto_spec_u32_to_from_le_bytes();
    }

    fn from_bytes(data: &[u8]) -> (value: u32) {
        u32_from_le_bytes(data)
    }

    fn as_bytes(&self) -> (bytes: Vec<u8>) {
        u32_to_le_bytes(*self)
    }

    fn redb_type_name() -> (name: String) {
        String::from_str("u32")
    }
}

impl RedbKey for u32 {
    open spec fn compare_spec(data1: Seq<u8>, data2: Seq<u8>) -> Ordering {
        int_order(stored_u32(data1), stored_u32(data2))
    }

    fn compare(data1: &[u8], data2: &[u8]) -> (order: Ordering) {
        let value1 = Self::from_bytes(data1);
        let value2 = Self::from_bytes(data2);
        if value1 < value2 {
            Ordering::Less
        } else if value1 > value2 {
            Ordering::Greater
        } else {
            Ordering::Equal
        }
    }

    proof fn compare_reflexive(data: Seq<u8>) {
    }

    proof fn compare_flip(data1: Seq<u8>, data2: Seq<u8>) {
    }

    proof fn compare_transitive(data1: Seq<u8>, data2: Seq<u8>, data3: Seq<u8>) {
    }
}

/// The `u64` that `data` stands for.
pub open spec fn stored_u64(data: Seq<u8>) -> int {
    spec_u64_from_le_bytes(data) as int
}

impl RedbValue for u64 {
    type View = u64;

    open spec fn decodable(data: Seq<u8>) -> bool {
        data.len() == 8
    }

    open spec fn decodes_to(data: Seq<u8>, value: u64) -> bool {
        value == stored_u64(data)
    }

    open spec fn encoding(&self) -> Seq<u8> {
        spec_u64_to_le_bytes(*self)
    }

    open spec fn type_name_spec() -> Seq<char> {
        "u64"@
    }

    open spec fn storable(&self) -> bool {
        true
    }

    proof fn storable_decodable(&self) {
        lemma_auto_spec_u64_to_from_le_bytes();
    }

    fn from_bytes(data: &[u8]) -> (value: u64) {
        u64_from_le_bytes(data)
    }

    fn as_bytes(&self) -> (bytes: Vec<u8>) {
        u64_to_le_bytes(*self)
    }

    fn redb_type_name() -> (name: String) {
        String::from_str("u64")
    }
}

impl RedbKey for u64 {
    open spec fn compare_spec(data1: Seq<u8>, data2: Seq<u8>) -> Ordering {
        int_order(stored_u64(data1), stored_u64(data2))
    }

    fn compare(data1: &[u8], data2: &[u8]) -> (order: Ordering) {
        let value1 = Self::from_bytes(data1);
        let value2 = Self::from_bytes(data2);
        if value1 < value2 {
            Ordering::Less
        } else if value1 > value2 {
            Ordering::Greater
        } else {
            Ordering::Equal
        }
    }

    proof fn compare_reflexive(data: Seq<u8>) {
    }

    proof fn compare_flip(data1: Seq<u8>, data2: Seq<u8>) {
    }

    proof fn compare_transitive(data1: Seq<u8>, data2: Seq<u8>, data3: Seq<u8>) {
    }
}

/// The `u128` that `data` stands for.
pub open spec fn stored_u128(data: Seq<u8>) -> int {
    spec_u128_from_le_bytes(data) as int
}

impl RedbValue for u128 {
    type View = u128;

    open spec fn decodable(data: Seq<u8>) -> bool {
        data.len() == 16
    }

    open spec fn decodes_to(data: Seq<u8>, value: u128) -> bool {
        value == stored_u128(data)
    }

    open spec fn encoding(&self) -> Seq<u8> {
        spec_u128_to_le_bytes(*self)
    }

    open spec fn type_name_spec() -> Seq<char> {
        "u128"@
    }

    open spec fn storable(&self) -> bool {
        true
    }

    proof fn storable_decodable(&self) {
        lemma_auto_spec_u128_to_from_le_bytes();
    }

    fn from_bytes(data: &[u8]) -> (value: u128) {
        u128_from_le_bytes(data)
    }

    fn as_bytes(&self) -> (bytes: Vec<u8>) {
        u128_to_le_bytes(*self)
    }

    fn redb_type_name() -> (name: String) {
        String::from_str("u128")
    }
}

impl RedbKey for u128 {
    open spec fn compare_spec(data1: Seq<u8>, data2: Seq<u8>) -> Ordering {
        int_order(stored_u128(data1), stored_u128(data2))
    }

    fn compare(data1: &[u8], data2: &[u8]) -> (order: Ordering) {
        let value1 = Self::from_bytes(data1);
        let value2 = Self::from_bytes(data2);
        if value1 < value2 {
            Ordering::Less
        } else if value1 > value2 {
            Ordering::Greater
        } else {
            Ordering::Equal
        }
    }

    proof fn compare_reflexive(data: Seq<u8>) {
    }

    proof fn compare_flip(data1: Seq<u8>, data2: Seq<u8>) {
    }

    proof fn compare_transitive(data1: Seq<u8>, data2: Seq<u8>, data3: Seq<u8>) {
    }
}

/// The `i8` that `data` stands for.
pub open spec fn stored_i8(data: Seq<u8>) -> int {
    (data[0] as i8) as int
}

impl RedbValue for i8 {
    type View = i8;

    open spec fn decodable(data: Seq<u8>) -> bool {
        data.len() == 1
    }

    open spec fn decodes_to(data: Seq<u8>, value: i8) -> bool {
        value == stored_i8(data)
    }

    open spec fn encoding(&self) -> Seq<u8> {
        seq![*self as u8]
    }

    open spec fn type_name_spec() -> Seq<char> {
        "i8"@
    }

    open spec fn storable(&self) -> bool {
        true
    }

    proof fn storable_decodable(&self) {
    }

    fn from_bytes(data: &[u8]) -> (value: i8) {
        let raw: u8 = *slice_index_get(data, 0);
        #[verifier::truncate]
        (raw as i8)
    }

    fn as_bytes(&self) -> (bytes: Vec<u8>) {
        let raw: u8 = #[verifier::truncate] (*self as u8);
        let bytes = vec![raw];
        assert(bytes@ =~= self.encoding());
        bytes
    }

    fn redb_type_name() -> (name: String) {
        String::from_str("i8")
    }
}

impl RedbKey for i8 {
    open spec fn compare_spec(data1: Seq<u8>, data2: Seq<u8>) -> Ordering {
        int_order(stored_i8(data1), stored_i8(data2))
    }

    fn compare(data1: &[u8], data2: &[u8]) -> (order: Ordering) {
        let value1 = Self::from_bytes(data1);
        let value2 = Self::from_bytes(data2);
        if value1 < value2 {
            Ordering::Less
        } else if value1 > value2 {
            Ordering::Greater
        } else {
            Ordering::Equal
        }
    }

    proof fn compare_reflexive(data: Seq<u8>) {
    }

    proof fn compare_flip(data1: Seq<u8>, data2: Seq<u8>) {
    }

    proof fn compare_transitive(data1: Seq<u8>, data2: Seq<u8>, data3: Seq<u8>) {
    }
}

/// The `i16` that `data` stands for.
pub open spec fn stored_i16(data: Seq<u8>) -> int {
    (spec_u16_from_le_bytes(data) as i16) as int
}

impl RedbValue for i16 {
    type View = i16;

    open spec fn decodable(data: Seq<u8>) -> bool {
        data.len() == 2
    }

    open spec fn decodes_to(data: Seq<u8>, value: i16) -> bool {
        value == stored_i16(data)
    }

    open spec fn encoding(&self) -> Seq<u8> {
        spec_u16_to_le_bytes(*self as u16)
    }

    open spec fn type_name_spec() -> Seq<char> {
        "i16"@
    }

    open spec fn storable(&self) -> bool {
        true
    }

    proof fn storable_decodable(&self) {
        lemma_auto_spec_u16_to_from_le_bytes();
    }

    fn from_bytes(data: &[u8]) -> (value: i16) {
        let raw: u16 = u16_from_le_bytes(data);
        #[verifier::truncate]
        (raw as i16)
    }

    fn as_bytes(&self) -> (bytes: Vec<u8>) {
        let raw: u16 = #[verifier::truncate] (*self as u16);
        u16_to_le_bytes(raw)
    }

    fn redb_type_name() -> (name: String) {
        String::from_str("i16")
    }
}

impl RedbKey for i16 {
    open spec fn compare_spec(data1: Seq<u8>, data2: Seq<u8>) -> Ordering {
        int_order(stored_i16(data1), stored_i16(data2))
    }

    fn compare(data1: &[u8], data2: &[u8]) -> (order: Ordering) {
        let value1 = Self::from_bytes(data1);
        let value2 = Self::from_bytes(data2);
        if value1 < value2 {
            Ordering::Less
        } else if value1 > value2 {
            Ordering::Greater
        } else {
            Ordering::Equal
        }
    }

    proof fn compare_reflexive(data: Seq<u8>) {
    }

    proof fn compare_flip(data1: Seq<u8>, data2: Seq<u8>) {
    }

    proof fn compare_transitive(data1: Seq<u8>, data2: Seq<u8>, data3: Seq<u8>) {
    }
}

/// The `i32` that `data` stands for.
pub open spec fn stored_i32(data: Seq<u8>) -> int {
    (spec_u32_from_le_bytes(data) as i32) as int
}

impl RedbValue for i32 {
    type View = i32;

    open spec fn decodable(data: Seq<u8>) -> bool {
        data.len() == 4
    }

    open spec fn decodes_to(data: Seq<u8>, value: i32) -> bool {
        value == stored_i32(data)
    }

    open spec fn encoding(&self) -> Seq<u8> {
        spec_u32_to_le_bytes(*self as u32)
    }

    open spec fn type_name_spec() -> Seq<char> {
        "i32"@
    }

    open spec fn storable(&self) -> bool {
        true
    }

    proof fn storable_decodable(&self) {
        lemma_auto_spec_u32_to_from_le_bytes();
    }

    fn from_bytes(data: &[u8]) -> (value: i32) {
        let raw: u32 = u32_from_le_bytes(data);
        #[verifier::truncate]
        (raw as i32)
    }

    fn as_bytes(&self) -> (bytes: Vec<u8>) {
        let raw: u32 = #[verifier::truncate] (*self as u32);
        u32_to_le_bytes(raw)
    }

    fn redb_type_name() -> (name: String) {
        String::from_str("i32")
    }
}

impl RedbKey for i32 {
    open spec fn compare_spec(data1: Seq<u8>, data2: Seq<u8>) -> Ordering {
        int_order(stored_i32(data1), stored_i32(data2))
    }

    fn compare(data1: &[u8], data2: &[u8]) -> (order: Ordering) {
        let value1 = Self::from_bytes(data1);
        let value2 = Self::from_bytes(data2);
        if value1 < value2 {
            Ordering::Less
        } else if value1 > value2 {
            Ordering::Greater
        } else {
            Ordering::Equal
        }
    }

    proof fn compare_reflexive(data: Seq<u8>) {
    }

    proof fn compare_flip(data1: Seq<u8>, data2: Seq<u8>) {
    }

    proof fn compare_transitive(data1: Seq<u8>, data2: Seq<u8>, data3: Seq<u8>) {
    }
}

/// The `i64` that `data` stands for.
pub open spec fn stored_i64(data: Seq<u8>) -> int {
    (spec_u64_from_le_bytes(data) as i64) as int
}

impl RedbValue for i64 {
    type View = i64;

    open spec fn decodable(data: Seq<u8>) -> bool {
        data.len() == 8
    }

    open spec fn decodes_to(data: Seq<u8>, value: i64) -> bool {
        value == stored_i64(data)
    }

    open spec fn encoding(&self) -> Seq<u8> {
        spec_u64_to_le_bytes(*self as u64)
    }

    open spec fn type_name_spec() -> Seq<char> {
        "i64"@
    }

    open spec fn storable(&self) -> bool {
        true
    }

    proof fn storable_decodable(&self) {
        lemma_auto_spec_u64_to_from_le_bytes();
    }

    fn from_bytes(data: &[u8]) -> (value: i64) {
        let raw: u64 = u64_from_le_bytes(data);
        #[verifier::truncate]
        (raw as i64)
    }

    fn as_bytes(&self) -> (bytes: Vec<u8>) {
        let raw: u64 = #[verifier::truncate] (*self as u64);
        u64_to_le_bytes(raw)
    }

    fn redb_type_name() -> (name: String) {
        String::from_str("i64")
    }
}

impl RedbKey for i64 {
    open spec fn compare_spec(data1: Seq<u8>, data2: Seq<u8>) -> Ordering {
        int_order(stored_i64(data1), stored_i64(data2))
    }

    fn compare(data1: &[u8], data2: &[u8]) -> (order: Ordering) {
        let value1 = Self::from_bytes(data1);
        let value2 = Self::from_bytes(data2);
        if value1 < value2 {
            Ordering::Less
        } else if value1 > value2 {
            Ordering::Greater
        } else {
            Ordering::Equal
        }
    }

    proof fn compare_reflexive(data: Seq<u8>) {
    }

    proof fn compare_flip(data1: Seq<u8>, data2: Seq<u8>) {
    }

    proof fn compare_transitive(data1: Seq<u8>, data2: Seq<u8>, data3: Seq<u8>) {
    }
}

/// The `i128` that `data` stands for.
pub open spec fn stored_i128(data: Seq<u8>) -> int {
    (spec_u128_from_le_bytes(data) as i128) as int
}

impl RedbValue for i128 {
    type View = i128;

    open spec fn decodable(data: Seq<u8>) -> bool {
        data.len() == 16
    }

    open spec fn decodes_to(data: Seq<u8>, value: i128) -> bool {
        value == stored_i128(data)
    }

    open spec fn encoding(&self) -> Seq<u8> {
        spec_u128_to_le_bytes(*self as u128)
    }

    open spec fn type_name_spec() -> Seq<char> {
        "i128"@
    }

    open spec fn storable(&self) -> bool {
        true
    }

    proof fn storable_decodable(&self) {
        lemma_auto_spec_u128_to_from_le_bytes();
    }

    fn from_bytes(data: &[u8]) -> (value: i128) {
        let raw: u128 = u128_from_le_bytes(data);
        #[verifier::truncate]
        (raw as i128)
    }

    fn as_bytes(&self) -> (bytes: Vec<u8>) {
        let raw: u128 = #[verifier::truncate] (*self as u128);
        u128_to_le_bytes(raw)
    }

    fn redb_type_name() -> (name: String) {
        String::from_str("i128")
    }
}

impl RedbKey for i128 {
    open spec fn compare_spec(data1: Seq<u8>, data2: Seq<u8>) -> Ordering {
        int_order(stored_i128(data1), stored_i128(data2))
    }

    fn compare(data1: &[u8], data2: &[u8]) -> (order: Ordering) {
        let value1 = Self::from_bytes(data1);
        let value2 = Self::from_bytes(data2);
        if value1 < value2 {
            Ordering::Less
        } else if value1 > value2 {
            Ordering::Greater
        } else {
            Ordering::Equal
        }
    }

    proof fn compare_reflexive(data: Seq<u8>) {
    }

    proof fn compare_flip(data1: Seq<u8>, data2: Seq<u8>) {
    }

    proof fn compare_transitive(data1: Seq<u8>, data2: Seq<u8>, data3: Seq<u8>) {
    }
}

} // verus!
