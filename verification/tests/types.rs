use redb::byte_order::{compare_bytes, first_mismatch};
use redb::types::{RedbKey, RedbValue};
use redb::utils::{drop_ref, get_page_size};
use std::cmp::Ordering;

#[test]
fn unsigned_integers_are_little_endian() {
    assert_eq!(0x0102u16.as_bytes(), vec![2, 1]);
    assert_eq!(0x01020304u32.as_bytes(), vec![4, 3, 2, 1]);
    assert_eq!(7u8.as_bytes(), vec![7]);
    assert_eq!(1u64.as_bytes(), vec![1, 0, 0, 0, 0, 0, 0, 0]);
    assert_eq!((1u128 << 120).as_bytes()[15], 1);
    assert_eq!(u16::from_bytes(&[2, 1]), 0x0102);
    assert_eq!(u32::from_bytes(&[4, 3, 2, 1]), 0x01020304);
    assert_eq!(u64::from_bytes(&u64::MAX.to_le_bytes()), u64::MAX);
    assert_eq!(u128::from_bytes(&(3u128 << 100).to_le_bytes()), 3u128 << 100);
    assert_eq!(u8::from_bytes(&[200]), 200);
}

#[test]
fn signed_integers_are_twos_complement() {
    assert_eq!((-1i8).as_bytes(), vec![255]);
    assert_eq!((-2i16).as_bytes(), vec![254, 255]);
    assert_eq!(i32::MIN.as_bytes(), vec![0, 0, 0, 128]);
    assert_eq!((-1i64).as_bytes(), vec![255; 8]);
    assert_eq!(i128::MIN.as_bytes()[15], 128);
    assert_eq!(i8::from_bytes(&[255]), -1);
    assert_eq!(i16::from_bytes(&[254, 255]), -2);
    assert_eq!(i32::from_bytes(&[0, 0, 0, 128]), i32::MIN);
    assert_eq!(i64::from_bytes(&(-5i64).to_le_bytes()), -5);
    assert_eq!(i128::from_bytes(&i128::MAX.to_le_bytes()), i128::MAX);
}

#[test]
fn integers_are_ordered_as_numbers() {
    assert_eq!(u16::compare(&[0, 1], &[255, 0]), Ordering::Greater);
    assert_eq!(u32::compare(&5u32.to_le_bytes(), &5u32.to_le_bytes()), Ordering::Equal);
    assert_eq!(i32::compare(&(-1i32).to_le_bytes(), &1i32.to_le_bytes()), Ordering::Less);
    assert_eq!(i8::compare(&[128], &[127]), Ordering::Less);
    assert_eq!(u8::compare(&[128], &[127]), Ordering::Greater);
    assert_eq!(i64::compare(&i64::MIN.to_le_bytes(), &i64::MAX.to_le_bytes()), Ordering::Less);
    assert_eq!(u64::compare(&u64::MAX.to_le_bytes(), &0u64.to_le_bytes()), Ordering::Greater);
    assert_eq!(i16::compare(&(-300i16).to_le_bytes(), &(-299i16).to_le_bytes()), Ordering::Less);
    assert_eq!(i128::compare(&(-1i128).to_le_bytes(), &0i128.to_le_bytes()), Ordering::Less);
    assert_eq!(
        u128::compare(&(1u128 << 64).to_le_bytes(), &u128::from(u64::MAX).to_le_bytes()),
        Ordering::Greater
    );
}

#[test]
fn integer_type_names() {
    assert_eq!(u8::redb_type_name(), "u8");
    assert_eq!(u16::redb_type_name(), "u16");
    assert_eq!(u32::redb_type_name(), "u32");
    assert_eq!(u64::redb_type_name(), "u64");
    assert_eq!(u128::redb_type_name(), "u128");
    assert_eq!(i8::redb_type_name(), "i8");
    assert_eq!(i16::redb_type_name(), "i16");
    assert_eq!(i32::redb_type_name(), "i32");
    assert_eq!(i64::redb_type_name(), "i64");
    assert_eq!(i128::redb_type_name(), "i128");
}

#[test]
fn bytes_are_stored_as_they_are() {
    let data: &[u8] = &[3, 1, 2];
    assert_eq!(<[u8]>::as_bytes(data), vec![3, 1, 2]);
    assert_eq!(<[u8]>::from_bytes(data), vec![3, 1, 2]);
    assert_eq!(<&[u8]>::as_bytes(&data), vec![3, 1, 2]);
    assert_eq!(<&[u8]>::from_bytes(data), vec![3, 1, 2]);
    assert_eq!(<[u8]>::redb_type_name(), "[u8]");
    assert_eq!(<&[u8]>::redb_type_name(), "[u8]");
}

#[test]
fn text_is_stored_as_utf8() {
    assert_eq!("héllo".as_bytes().to_vec(), <str as RedbValue>::as_bytes("héllo"));
    assert_eq!(<str as RedbValue>::from_bytes("héllo".as_bytes()), "héllo");
    assert_eq!(<&str as RedbValue>::from_bytes(b"abc"), "abc");
    assert_eq!(<&str as RedbValue>::as_bytes(&"abc"), b"abc".to_vec());
    assert_eq!(<str>::redb_type_name(), "str");
    assert_eq!(<&str>::redb_type_name(), "str");
}

#[test]
fn text_and_bytes_are_ordered_lexicographically() {
    assert_eq!(<str>::compare(b"a", b"b"), Ordering::Less);
    assert_eq!(<str>::compare(b"ab", b"a"), Ordering::Greater);
    assert_eq!(<&str>::compare(b"", b""), Ordering::Equal);
    assert_eq!(<&str>::compare(b"", b"a"), Ordering::Less);
    assert_eq!(<[u8]>::compare(&[1, 2, 3], &[1, 2, 4]), Ordering::Less);
    assert_eq!(<[u8]>::compare(&[2], &[1, 255]), Ordering::Greater);
    assert_eq!(<&[u8]>::compare(&[1, 2], &[1, 2]), Ordering::Equal);
    assert_eq!(<&[u8]>::compare(&[1, 2], &[1, 2, 0]), Ordering::Less);
}

#[test]
fn first_mismatch_counts_the_common_prefix() {
    assert_eq!(first_mismatch(&[1, 2, 3], &[1, 2, 4]), 2);
    assert_eq!(first_mismatch(&[1, 2], &[1, 2, 4]), 2);
    assert_eq!(first_mismatch(&[], &[1]), 0);
    assert_eq!(first_mismatch(&[9], &[1]), 0);
    assert_eq!(compare_bytes(&[9], &[1]), Ordering::Greater);
    assert_eq!(compare_bytes(&[], &[]), Ordering::Equal);
}

#[test]
fn page_size_is_the_reported_one_where_supported() {
    assert_eq!(get_page_size(4096), 4096);
    assert_eq!(get_page_size(8192), 8192);
    assert_eq!(get_page_size(16384), 16384);
    assert_eq!(get_page_size(32768), 32768);
    assert_eq!(get_page_size(65536), 65536);
}

#[test]
fn page_size_falls_back_to_4096() {
    assert_eq!(get_page_size(-1), 4096);
    assert_eq!(get_page_size(0), 4096);
    assert_eq!(get_page_size(512), 4096);
    assert_eq!(get_page_size(5000), 4096);
    assert_eq!(get_page_size(131072), 4096);
    assert_eq!(get_page_size(i64::MAX), 4096);
}

#[test]
fn drop_ref_takes_any_value() {
    let text = String::from("gone");
    drop_ref(text);
    drop_ref(&5u8);
}
