use redb::range_bounds::Bound;
use redb::table::ReadableTable;
use redb::error::Error;
use redb::transactions::Database;

#[test]
fn reader_opened_before_commit_does_not_see_the_insert() {
    let mut db = Database::new();
    let r1 = db.begin_read();
    let mut writer = db.begin_write().unwrap();
    let mut table = writer.open_table::<str, u64>("t").unwrap();
    table.insert("x", &1);
    writer.close_table(table);
    assert_eq!(r1.open_table::<str, u64>("t").unwrap().get("x"), None);
    writer.commit(&mut db);
    assert_eq!(r1.open_table::<str, u64>("t").unwrap().get("x"), None);
    let r2 = db.begin_read();
    assert_eq!(r2.open_table::<str, u64>("t").unwrap().get("x"), Some(1));
    db.end_read(r1);
    db.end_read(r2);
}

#[test]
fn reader_never_sees_a_partial_writer() {
    let mut db = Database::new();
    let mut writer = db.begin_write().unwrap();
    let mut table = writer.open_table::<u32, u32>("numbers").unwrap();
    table.insert(&1, &10);
    writer.close_table(table);
    writer.commit(&mut db);

    let mut writer = db.begin_write().unwrap();
    let mut table = writer.open_table::<u32, u32>("numbers").unwrap();
    table.insert(&2, &20);
    table.remove(&1);
    writer.close_table(table);
    let during = db.begin_read();
    let seen = during.open_table::<u32, u32>("numbers").unwrap();
    assert_eq!(seen.get(&1), Some(10));
    assert_eq!(seen.get(&2), None);
    assert_eq!(seen.len(), 1);
    writer.commit(&mut db);
    let seen = during.open_table::<u32, u32>("numbers").unwrap();
    assert_eq!(seen.get(&1), Some(10));
    assert_eq!(seen.len(), 1);
    let after = db.begin_read();
    let seen = after.open_table::<u32, u32>("numbers").unwrap();
    assert_eq!(seen.get(&1), None);
    assert_eq!(seen.get(&2), Some(20));
}

#[test]
fn aborted_writer_leaves_the_committed_state() {
    let mut db = Database::new();
    let mut writer = db.begin_write().unwrap();
    let mut table = writer.open_table::<u32, str>("names").unwrap();
    table.insert(&1, "one");
    writer.close_table(table);
    writer.commit(&mut db);

    let mut writer = db.begin_write().unwrap();
    let mut table = writer.open_table::<u32, str>("names").unwrap();
    for key in 0..10_000u32 {
        table.insert(&key, "x");
    }
    assert_eq!(table.len(), 10_000);
    writer.close_table(table);
    let mut other = writer.open_table::<u8, u8>("other").unwrap();
    other.insert(&1, &1);
    writer.close_table(other);
    writer.abort(&mut db);

    let reader = db.begin_read();
    let names = reader.open_table::<u32, str>("names").unwrap();
    assert_eq!(names.len(), 1);
    assert_eq!(names.get(&1), Some("one".to_string()));
    assert_eq!(names.get(&0), None);
    assert!(reader.open_table::<u8, u8>("other").unwrap().is_empty());
    assert!(db.begin_write().is_some());
}

#[test]
fn tables_t1_and_t2_are_independent() {
    let mut db = Database::new();
    let mut writer = db.begin_write().unwrap();
    let mut t1 = writer.open_table::<str, u64>("t1").unwrap();
    let mut t2 = writer.open_table::<str, u64>("t2").unwrap();
    t1.insert("a", &1);
    t1.insert("b", &2);
    t2.insert("a", &100);
    t2.insert("c", &300);
    t2.insert("d", &400);
    t2.remove("a");
    writer.close_table(t1);
    writer.close_table(t2);
    writer.commit(&mut db);
    let reader = db.begin_read();
    let t1 = reader.open_table::<str, u64>("t1").unwrap();
    let t2 = reader.open_table::<str, u64>("t2").unwrap();
    assert_eq!(t1.len(), 2);
    assert_eq!(t2.len(), 2);
    assert_eq!(t1.get("a"), Some(1));
    assert_eq!(t2.get("a"), None);
    assert_eq!(t1.get("c"), None);
    assert_eq!(t2.get("c"), Some(300));
    let mut all = t1.range(Bound::Unbounded, Bound::Unbounded);
    assert_eq!(all.next(), Some(("a".to_string(), 1)));
    assert_eq!(all.next(), Some(("b".to_string(), 2)));
    assert_eq!(all.next(), None);
}

#[test]
fn one_writer_at_a_time() {
    let mut db = Database::new();
    let first = db.begin_write().unwrap();
    assert!(db.begin_write().is_none());
    first.abort(&mut db);
    let second = db.begin_write().unwrap();
    assert!(db.begin_write().is_none());
    second.commit(&mut db);
    assert!(db.begin_write().is_some());
}

#[test]
fn opening_a_table_twice_fails() {
    let mut db = Database::new();
    let mut writer = db.begin_write().unwrap();
    let table = writer.open_table::<str, u64>("t").unwrap();
    assert_eq!(writer.open_table::<str, u64>("t").err(), Some(Error::TableAlreadyOpen));
    writer.close_table(table);
    assert!(writer.open_table::<str, u64>("t").is_ok());
}

#[test]
fn opening_a_table_with_other_types_fails() {
    let mut db = Database::new();
    let mut writer = db.begin_write().unwrap();
    let table = writer.open_table::<str, u64>("t").unwrap();
    writer.close_table(table);
    assert_eq!(writer.open_table::<str, u32>("t").err(), Some(Error::TableTypeMismatch));
    assert_eq!(writer.open_table::<u64, u64>("t").err(), Some(Error::TableTypeMismatch));
    writer.commit(&mut db);
    let reader = db.begin_read();
    assert_eq!(reader.open_table::<[u8], u64>("t").err(), Some(Error::TableTypeMismatch));
    assert!(reader.open_table::<str, u64>("t").is_ok());
    assert!(reader.open_table::<&str, u64>("t").is_ok());
}

#[test]
fn oldest_live_read_is_the_smallest_snapshot() {
    let mut db = Database::new();
    assert_eq!(db.oldest_live_read(), None);
    let r0 = db.begin_read();
    db.begin_write().unwrap().commit(&mut db);
    let r1 = db.begin_read();
    db.begin_write().unwrap().commit(&mut db);
    let r2 = db.begin_read();
    assert_eq!(db.oldest_live_read(), Some(0));
    db.end_read(r1);
    assert_eq!(db.oldest_live_read(), Some(0));
    db.end_read(r0);
    assert_eq!(db.oldest_live_read(), Some(2));
    db.end_read(r2);
    assert_eq!(db.oldest_live_read(), None);
}

#[test]
fn committed_values_are_read_back_identically() {
    let mut db = Database::new();
    let mut writer = db.begin_write().unwrap();
    let mut table = writer.open_table::<[u8], [u8]>("blobs").unwrap();
    let mut seed: u64 = 1;
    let mut keys = Vec::new();
    for _ in 0..1000 {
        let mut key = Vec::new();
        for _ in 0..24 {
            seed = seed.wrapping_mul(6364136223846793005).wrapping_add(1442695040888963407);
            key.push((seed >> 33) as u8);
        }
        let value = vec![key[0]; 100];
        table.insert(&key[..], &value[..]);
        keys.push(key);
    }
    assert_eq!(table.len(), 1000);
    writer.close_table(table);
    writer.commit(&mut db);
    let reader = db.begin_read();
    let table = reader.open_table::<[u8], [u8]>("blobs").unwrap();
    assert_eq!(table.len(), 1000);
    for key in &keys {
        assert_eq!(table.get(&key[..]), Some(vec![key[0]; 100]));
    }
}
