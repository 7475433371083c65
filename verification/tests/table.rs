use redb::range_bounds::Bound;
use redb::table::{RangeIter, ReadableTable, ReadOnlyTable, Table};

fn letters() -> Table<str, u64> {
    let mut table: Table<str, u64> = Table::new("letters", Vec::new());
    assert!(table.insert("a", &0).is_none());
    assert!(table.insert("b", &1).is_none());
    assert!(table.insert("c", &2).is_none());
    table
}

fn collect(mut iter: RangeIter<str, u64>) -> Vec<(String, u64)> {
    let mut items = Vec::new();
    while let Some(item) = iter.next() {
        items.push(item);
    }
    items
}

#[test]
fn range_from_a_to_c_excludes_c() {
    let table = letters();
    let items = collect(table.range(Bound::Included("a"), Bound::Excluded("c")));
    assert_eq!(items, vec![("a".to_string(), 0), ("b".to_string(), 1)]);
}

#[test]
fn range_first_item_is_a() {
    let table = letters();
    let mut iter = table.range(Bound::Included("a"), Bound::Excluded("c"));
    assert_eq!(Some(("a".to_string(), 0)), iter.next());
}

#[test]
fn range_with_included_end_holds_it() {
    let table = letters();
    let items = collect(table.range(Bound::Excluded("a"), Bound::Included("c")));
    assert_eq!(items, vec![("b".to_string(), 1), ("c".to_string(), 2)]);
}

#[test]
fn full_range_is_ascending_and_reverse_is_descending() {
    let mut table: Table<u32, u32> = Table::new("numbers", Vec::new());
    for key in [5u32, 1, 300, 2, 70000, 256] {
        table.insert(&key, &(key + 1));
    }
    let mut forward = Vec::new();
    let mut iter = table.range(Bound::Unbounded, Bound::Unbounded);
    while let Some((key, value)) = iter.next() {
        assert_eq!(value, key + 1);
        forward.push(key);
    }
    assert_eq!(forward, vec![1, 2, 5, 256, 300, 70000]);
    let mut backward = Vec::new();
    let mut iter = table.range(Bound::Unbounded, Bound::Unbounded);
    while let Some((key, _)) = iter.next_back() {
        backward.push(key);
    }
    forward.reverse();
    assert_eq!(backward, forward);
}

#[test]
fn iterator_meets_in_the_middle() {
    let table = letters();
    let mut iter = table.range(Bound::Unbounded, Bound::Unbounded);
    assert_eq!(iter.next(), Some(("a".to_string(), 0)));
    assert_eq!(iter.next_back(), Some(("c".to_string(), 2)));
    assert_eq!(iter.next_back(), Some(("b".to_string(), 1)));
    assert_eq!(iter.next(), None);
    assert_eq!(iter.next_back(), None);
}

#[test]
fn range_with_start_behind_end_is_empty() {
    let table = letters();
    let mut iter = table.range(Bound::Included("c"), Bound::Excluded("a"));
    assert_eq!(iter.next(), None);
    let mut iter = table.range(Bound::Included("c"), Bound::Included("a"));
    assert_eq!(iter.next_back(), None);
    let mut iter = table.range(Bound::Excluded("b"), Bound::Excluded("b"));
    assert_eq!(iter.next(), None);
}

#[test]
fn get_reads_the_last_inserted_value() {
    let mut table: Table<u64, str> = Table::new("names", Vec::new());
    table.insert(&7, "seven");
    table.insert(&3, "three");
    table.insert(&7, "SEVEN");
    assert_eq!(table.get(&7), Some("SEVEN".to_string()));
    assert_eq!(table.get(&3), Some("three".to_string()));
    assert_eq!(table.get(&4), None);
    assert_eq!(table.len(), 2);
}

#[test]
fn insert_of_existing_key_returns_old_value() {
    let mut table = letters();
    let old = table.insert("b", &10).unwrap();
    assert_eq!(old.to_value(), 1);
    assert_eq!(old.as_bytes(), &1u64.to_le_bytes());
    assert_eq!(table.get("b"), Some(10));
    assert_eq!(table.len(), 3);
}

#[test]
fn remove_returns_old_value_and_missing_key_is_a_no_op() {
    let mut table = letters();
    assert!(table.remove("z").is_none());
    assert_eq!(table.len(), 3);
    let old = table.remove("a").unwrap();
    assert_eq!(old.to_value(), 0);
    assert_eq!(table.get("a"), None);
    assert_eq!(table.len(), 2);
    assert!(table.remove("a").is_none());
}

#[test]
fn empty_table_has_length_zero() {
    let table: Table<str, u64> = Table::new("nothing", Vec::new());
    assert_eq!(table.len(), 0);
    assert!(table.is_empty());
    assert_eq!(table.get("a"), None);
    assert!(!letters().is_empty());
}

#[test]
fn two_tables_are_independent() {
    let mut t1: Table<str, u64> = Table::new("t1", Vec::new());
    let mut t2: Table<str, u64> = Table::new("t2", Vec::new());
    t1.insert("x", &1);
    t1.insert("y", &2);
    t2.insert("x", &100);
    assert_eq!(t1.get("x"), Some(1));
    assert_eq!(t2.get("x"), Some(100));
    t2.remove("x");
    t2.insert("y", &7);
    t2.insert("z", &8);
    assert_eq!(t1.get("x"), Some(1));
    assert_eq!(t1.get("y"), Some(2));
    assert_eq!(t1.get("z"), None);
    assert_eq!(t1.len(), 2);
    assert_eq!(t2.len(), 2);
}

#[test]
fn insert_reserve_gives_a_zeroed_region_to_fill() {
    let mut table: Table<str, [u8]> = Table::new("blobs", Vec::new());
    table.insert("a", &[9u8, 9][..]);
    {
        let region = table.insert_reserve("b", 3);
        assert_eq!(region, &[0u8, 0, 0]);
        region.copy_from_slice(&[1, 2, 3]);
    }
    assert_eq!(table.get("b"), Some(vec![1, 2, 3]));
    assert_eq!(table.get("a"), Some(vec![9, 9]));
    {
        let region = table.insert_reserve("a", 1);
        region[0] = 5;
    }
    assert_eq!(table.get("a"), Some(vec![5]));
    assert_eq!(table.len(), 2);
}

#[test]
fn print_debug_lists_the_entries_in_key_order() {
    let mut table: Table<u8, u8> = Table::new("small", Vec::new());
    table.insert(&2, &20);
    table.insert(&1, &10);
    assert_eq!(table.print_debug(true), vec![(vec![1], vec![10]), (vec![2], vec![20])]);
    assert_eq!(table.print_debug(false), vec![(vec![1], vec![]), (vec![2], vec![])]);
}

#[test]
fn read_only_table_reads_what_it_was_given() {
    let entries = vec![
        (1u32.to_le_bytes().to_vec(), b"one".to_vec()),
        (2u32.to_le_bytes().to_vec(), b"two".to_vec()),
    ];
    let table: ReadOnlyTable<u32, str> = ReadOnlyTable::new(entries);
    assert_eq!(table.len(), 2);
    assert!(!table.is_empty());
    assert_eq!(table.get(&2), Some("two".to_string()));
    assert_eq!(table.get(&3), None);
    let mut iter = table.range(Bound::Included(&2), Bound::Unbounded);
    assert_eq!(iter.next(), Some((2, "two".to_string())));
    assert_eq!(iter.next(), None);
}

#[test]
fn tuple_keys_are_ordered_by_their_elements() {
    let mut table: Table<(u32, &str), u8> = Table::new("pairs", Vec::new());
    table.insert(&(2, "a"), &1);
    table.insert(&(1, "z"), &2);
    table.insert(&(1, "b"), &3);
    let mut iter = table.range(Bound::Unbounded, Bound::Unbounded);
    assert_eq!(iter.next(), Some(((1, "b".to_string()), 3)));
    assert_eq!(iter.next(), Some(((1, "z".to_string()), 2)));
    assert_eq!(iter.next(), Some(((2, "a".to_string()), 1)));
    assert_eq!(iter.next(), None);
}
