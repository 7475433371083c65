use redb::tuple_format::{parse_lens, serialize_tuple_elements};
use redb::tuple_types::not_equal;
use redb::types::{RedbKey, RedbValue};
use std::cmp::Ordering;

#[test]
fn serialize_two_elements() {
    let first: &[u8] = &[1, 2, 3];
    let second: &[u8] = &[9];
    let bytes = serialize_tuple_elements(&[first, second]);
    assert_eq!(bytes, vec![3, 0, 0, 0, 1, 2, 3, 9]);
}

#[test]
fn serialize_single_element_has_no_header() {
    let only: &[u8] = &[7, 8];
    assert_eq!(serialize_tuple_elements(&[only]), vec![7, 8]);
}

#[test]
fn parse_lens_reads_little_endian_lengths() {
    let data: [u8; 9] = [1, 0, 0, 0, 0, 1, 0, 0, 42];
    let lens: [usize; 2] = parse_lens(&data);
    assert_eq!(lens, [1, 256]);
}

#[test]
fn not_equal_is_none_on_equal_keys() {
    let a = 5u32.to_le_bytes();
    let b = 5u32.to_le_bytes();
    let c = 6u32.to_le_bytes();
    assert_eq!(not_equal::<u32>(&a, &b), None);
    assert_eq!(not_equal::<u32>(&a, &c), Some(Ordering::Less));
    assert_eq!(not_equal::<u32>(&c, &a), Some(Ordering::Greater));
}

#[test]
fn pair_round_trip() {
    let value: (u32, u64) = (7, 1 << 40);
    let bytes = value.as_bytes();
    assert_eq!(bytes.len(), 4 + 4 + 8);
    assert_eq!(<(u32, u64)>::from_bytes(&bytes), (7, 1 << 40));
}

#[test]
fn pair_order_is_by_first_then_second() {
    let a = (1u8, 200u8).as_bytes();
    let b = (2u8, 0u8).as_bytes();
    let c = (2u8, 1u8).as_bytes();
    assert_eq!(<(u8, u8)>::compare(&a, &b), Ordering::Less);
    assert_eq!(<(u8, u8)>::compare(&b, &c), Ordering::Less);
    assert_eq!(<(u8, u8)>::compare(&c, &b), Ordering::Greater);
    assert_eq!(<(u8, u8)>::compare(&c, &c), Ordering::Equal);
}

#[test]
fn tuple_type_name() {
    assert_eq!(<(u32, &str, i64)>::redb_type_name(), "(u32,str,i64)");
}
