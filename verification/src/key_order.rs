//! The order of stored keys as three relations, and what follows from the
//! laws of a key order.

use crate::types::RedbKey;
use std::cmp::Ordering;
use vstd::prelude::*;

verus! {

/// What is smaller than something not greater than `c` is smaller than `c`.
pub proof fn less_then_not_greater<K: RedbKey + ?Sized>(a: Seq<u8>, b: Seq<u8>, c: Seq<u8>)
    requires
        K::decodable(a),
        K::decodable(b),
        K::decodable(c),
        K::compare_spec(a, b) == Ordering::Less,
        K::compare_spec(b, c) != Ordering::Greater,
    ensures
        K::compare_spec(a, c) == Ordering::Less,
{
    K::compare_transitive(a, b, c);
    K::compare_flip(a, b);
    K::compare_flip(a, c);
    if K::compare_spec(a, c) == Ordering::Equal {
        K::compare_transitive(b, c, a);
    }
}

/// What is not greater than something smaller than `c` is smaller than `c`.
pub proof fn not_greater_then_less<K: RedbKey + ?Sized>(a: Seq<u8>, b: Seq<u8>, c: Seq<u8>)
    requires
        K::decodable(a),
        K::decodable(b),
        K::decodable(c),
        K::compare_spec(a, b) != Ordering::Greater,
        K::compare_spec(b, c) == Ordering::Less,
    ensures
        K::compare_spec(a, c) == Ordering::Less,
{
    K::compare_transitive(a, b, c);
    K::compare_flip(b, c);
    K::compare_flip(a, c);
    if K::compare_spec(a, c) == Ordering::Equal {
        K::compare_transitive(c, a, b);
    }
}

/// Equal keys stand in the same order to every third key.
pub proof fn equal_keys_order_alike<K: RedbKey + ?Sized>(a: Seq<u8>, b: Seq<u8>, c: Seq<u8>)
    requires
        K::decodable(a),
        K::decodable(b),
        K::decodable(c),
        K::compare_spec(a, b) == Ordering::Equal,
    ensures
        K::compare_spec(a, c) == K::compare_spec(b, c),
        K::compare_spec(c, a) == K::compare_spec(c, b),
{
    K::compare_flip(a, b);
    K::compare_flip(a, c);
    K::compare_flip(b, c);
    match K::compare_spec(b, c) {
        Ordering::Less => {
            not_greater_then_less::<K>(a, b, c);
        },
        Ordering::Greater => {
            less_then_not_greater::<K>(c, b, a);
        },
        Ordering::Equal => {
            K::compare_transitive(a, b, c);
            K::compare_transitive(c, b, a);
        },
    }
}

/// Whether the first stored key is smaller than the second.
pub open spec fn key_less<K: RedbKey + ?Sized>(a: Seq<u8>, b: Seq<u8>) -> bool {
    K::compare_spec(a, b) == Ordering::Less
}

/// Whether the two stored keys are equal in the order of `K`.
pub open spec fn key_equal<K: RedbKey + ?Sized>(a: Seq<u8>, b: Seq<u8>) -> bool {
    K::compare_spec(a, b) == Ordering::Equal
}

/// Whether the first stored key is greater than the second.
pub open spec fn key_greater<K: RedbKey + ?Sized>(a: Seq<u8>, b: Seq<u8>) -> bool {
    K::compare_spec(a, b) == Ordering::Greater
}

/// Of two stored keys the first is smaller than, equal to or greater than
/// the second, and only one of the three.
pub proof fn key_trichotomy<K: RedbKey + ?Sized>(a: Seq<u8>, b: Seq<u8>)
    requires
        K::decodable(a),
        K::decodable(b),
    ensures
        key_less::<K>(a, b) || key_equal::<K>(a, b) || key_greater::<K>(a, b),
        !(key_less::<K>(a, b) && key_equal::<K>(a, b)),
        !(key_less::<K>(a, b) && key_greater::<K>(a, b)),
        !(key_equal::<K>(a, b) && key_greater::<K>(a, b)),
        key_less::<K>(a, b) <==> key_greater::<K>(b, a),
        key_equal::<K>(a, b) <==> key_equal::<K>(b, a),
        key_equal::<K>(a, a),
{
    K::compare_flip(a, b);
    K::compare_reflexive(a);
}

/// How the order of `a` and `b` and that of `b` and `c` decide the order of
/// `a` and `c`.
pub proof fn key_transitivity<K: RedbKey + ?Sized>(a: Seq<u8>, b: Seq<u8>, c: Seq<u8>)
    requires
        K::decodable(a),
        K::decodable(b),
        K::decodable(c),
    ensures
        key_less::<K>(a, b) && !key_greater::<K>(b, c) ==> key_less::<K>(a, c),
        !key_greater::<K>(a, b) && key_less::<K>(b, c) ==> key_less::<K>(a, c),
        key_equal::<K>(a, b) && key_equal::<K>(b, c) ==> key_equal::<K>(a, c),
        key_equal::<K>(a, b) && key_greater::<K>(b, c) ==> key_greater::<K>(a, c),
        key_greater::<K>(a, b) && !key_less::<K>(b, c) ==> key_greater::<K>(a, c),
{
    key_trichotomy::<K>(a, b);
    key_trichotomy::<K>(b, c);
    key_trichotomy::<K>(a, c);
    if key_less::<K>(a, b) && !key_greater::<K>(b, c) {
        less_then_not_greater::<K>(a, b, c);
    }
    if !key_greater::<K>(a, b) && key_less::<K>(b, c) {
        not_greater_then_less::<K>(a, b, c);
    }
    if key_equal::<K>(a, b) {
        equal_keys_order_alike::<K>(a, b, c);
    }
    if key_greater::<K>(a, b) && !key_less::<K>(b, c) {
        not_greater_then_less::<K>(c, b, a);
    }
}

/// Whether the first stored key is smaller than the second.
pub fn is_less<K: RedbKey + ?Sized>(a: &[u8], b: &[u8]) -> (less: bool)
    requires
        K::decodable(a@),
        K::decodable(b@),
    ensures
        less == key_less::<K>(a@, b@),
{
    match K::compare(a, b) {
        Ordering::Less => true,
        _ => false,
    }
}

/// Whether the first stored key is greater than the second.
pub fn is_greater<K: RedbKey + ?Sized>(a: &[u8], b: &[u8]) -> (greater: bool)
    requires
        K::decodable(a@),
        K::decodable(b@),
    ensures
        greater == key_greater::<K>(a@, b@),
{
    match K::compare(a, b) {
        Ordering::Greater => true,
        _ => false,
    }
}

} // verus!
