//! Transactions: one writer at a time, whose changes become visible all at
//! once when it commits, and readers that each see the state that was
//! committed when they began.

use crate::error::Error;
use crate::live_reads::{smallest, smallest_of};
use crate::ordered_entries::{entries_view, ordered};
use crate::stored_tables::{
    copy_entries, copy_tables, find_table, position_of, tables_view, StoredTable, TableState,
};
use crate::table::{ReadOnlyTable, Table};
use crate::types::{RedbKey, RedbValue};
use vstd::prelude::*;
use vstd::string::*;

verus! {

/// A database: the state that was last committed, and who is at work on it.
pub struct Database {
    transaction_id: u64,
    tables: Vec<StoredTable>,
    writing: bool,
    readers: Vec<u64>,
}

/// A write transaction: the tables as the writer has changed them so far.
pub struct WriteTransaction {
    base: u64,
    tables: Vec<StoredTable>,
    opened: Vec<String>,
}

/// A read transaction: the tables as they were committed when it began.
pub struct ReadTransaction {
    transaction_id: u64,
    tables: Vec<StoredTable>,
}

/// What each of the names is.
pub open spec fn names_view(names: Seq<String>) -> Seq<Seq<char>> {
    Seq::new(names.len(), |i: int| names[i]@)
}

impl Database {
    /// The number of the last committed transaction.
    pub closed spec fn transaction_id(&self) -> u64 {
        self.transaction_id
    }

    /// The tables as they were last committed.
    pub closed spec fn tables(&self) -> Seq<TableState> {
        tables_view(self.tables@)
    }

    /// Whether a write transaction is under way.
    pub closed spec fn is_writing(&self) -> bool {
        self.writing
    }

    /// The transaction numbers that the live read transactions see, one for
    /// each of them.
    pub closed spec fn live_reads(&self) -> Seq<u64> {
        self.readers@
    }

    /// A database without tables, at transaction 0.
    pub fn new() -> (database: Self)
        ensures
            database.transaction_id() == 0,
            database.tables() == Seq::<TableState>::empty(),
            !database.is_writing(),
            database.live_reads() == Seq::<u64>::empty(),
    {
        let database = Database {
            transaction_id: 0,
            tables: Vec::new(),
            writing: false,
            readers: Vec::new(),
        };
        assert(database.tables() =~= Seq::<TableState>::empty());
        database
    }

    /// Begins a write transaction, unless one is under way: there is one
    /// writer at a time. The writer starts from the committed state.
    pub fn begin_write(&mut self) -> (transaction: Option<WriteTransaction>)
        ensures
            final(self).transaction_id() == old(self).transaction_id(),
            final(self).tables() == old(self).tables(),
            final(self).live_reads() == old(self).live_reads(),
            final(self).is_writing(),
            transaction is None <==> old(self).is_writing(),
            transaction matches Some(writer) ==> {
                &&& writer.base() == old(self).transaction_id()
                &&& writer.tables() == old(self).tables()
                &&& writer.opened() == Seq::<Seq<char>>::empty()
            },
    {
        if self.writing {
            None
        } else {
            self.writing = true;
            let writer = WriteTransaction {
                base: self.transaction_id,
                tables: copy_tables(&self.tables),
                opened: Vec::new(),
            };
            assert(writer.opened() =~= Seq::<Seq<char>>::empty());
            Some(writer)
        }
    }

    /// Begins a read transaction. It sees the state that is committed now,
    /// whatever is committed later.
    pub fn begin_read(&mut self) -> (transaction: ReadTransaction)
        ensures
            final(self).transaction_id() == old(self).transaction_id(),
            final(self).tables() == old(self).tables(),
            final(self).is_writing() == old(self).is_writing(),
            final(self).live_reads() == old(self).live_reads().push(old(self).transaction_id()),
            transaction.transaction_id() == old(self).transaction_id(),
            transaction.tables() == old(self).tables(),
    {
        self.readers.push(self.transaction_id);
        ReadTransaction { transaction_id: self.transaction_id, tables: copy_tables(&self.tables) }
    }

    /// Ends a read transaction: the state it saw has one reader less.
    pub fn end_read(&mut self, transaction: ReadTransaction)
        ensures
            final(self).transaction_id() == old(self).transaction_id(),
            final(self).tables() == old(self).tables(),
            final(self).is_writing() == old(self).is_writing(),
            final(self).live_reads() == old(self).live_reads().remove_value(
                transaction.transaction_id(),
            ),
    {
        let mut i: usize = 0;
        while i < self.readers.len()
            invariant
                i <= self.readers@.len(),
                self.readers@ == old(self).readers@,
                self.tables@ == old(self).tables@,
                self.transaction_id == old(self).transaction_id,
                self.writing == old(self).writing,
                forall|j: int| 0 <= j < i ==> self.readers@[j] != transaction.transaction_id,
            decreases self.readers@.len() - i,
        {
            if self.readers[i] == transaction.transaction_id {
                proof {
                    let ids = self.readers@;
                    assert(ids[i as int] == transaction.transaction_id);
                    ids.index_of_first_ensures(transaction.transaction_id);
                }
                self.readers.remove(i);
                return ;
            }
            i += 1;
        }
        proof {
            self.readers@.index_of_first_ensures(transaction.transaction_id);
        }
    }

    /// The oldest state that a live read transaction sees.
    pub fn oldest_live_read(&self) -> (oldest: Option<u64>)
        ensures
            oldest == smallest(self.live_reads()),
    {
        smallest_of(&self.readers)
    }
}

impl WriteTransaction {
    /// The number of the committed transaction that the writer started
    /// from.
    pub closed spec fn base(&self) -> u64 {
        self.base
    }

    /// The tables as the writer has changed them so far.
    pub closed spec fn tables(&self) -> Seq<TableState> {
        tables_view(self.tables@)
    }

    /// The names of the tables that are open in this transaction.
    pub closed spec fn opened(&self) -> Seq<Seq<char>> {
        names_view(self.opened@)
    }
}

/// Finds the first of `names` that is `name`.
fn find_name(names: &Vec<String>, name: &String) -> (found: Option<usize>)
    ensures
        match found {
            Some(place) => {
                &&& place < names@.len()
                &&& names_view(names@).contains(name@)
                &&& names_view(names@).index_of_first(name@) == Some(place as int)
            },
            None => !names_view(names@).contains(name@),
        },
{
    let ghost view = names_view(names@);
    let mut i: usize = 0;
    while i < names.len()
        invariant
            i <= names@.len(),
            view == names_view(names@),
            forall|j: int| 0 <= j < i ==> view[j] != name@,
        decreases names@.len() - i,
    {
        assert(view[i as int] == names@[i as int]@);
        if names[i] == *name {
            proof {
                view.index_of_first_ensures(name@);
            }
            return Some(i);
        }
        i += 1;
    }
    None
}

/// What a new table of the given name and types holds: nothing.
pub open spec fn new_table_state(
    name: Seq<char>,
    key_type: Seq<char>,
    value_type: Seq<char>,
) -> TableState {
    TableState { name, key_type, value_type, entries: Seq::empty() }
}

/// A kept table with other entries.
pub open spec fn with_entries(table: TableState, entries: Seq<(Seq<u8>, Seq<u8>)>) -> TableState {
    TableState {
        name: table.name,
        key_type: table.key_type,
        value_type: table.value_type,
        entries,
    }
}

/// Whether a kept table was recorded with the types `K` and `V`.
pub open spec fn types_match<K: RedbKey + ?Sized, V: RedbValue + ?Sized>(
    table: TableState,
) -> bool {
    table.key_type == K::type_name_spec() && table.value_type == V::type_name_spec()
}

impl WriteTransaction {
    /// Opens the table of the given name for writing, and makes it if there
    /// is none. A table cannot be open twice in a transaction, and not with
    /// other types than those it was recorded with.
    ///
    /// The entries kept under the name must be ordered as keys of type `K`
    /// are: they are wherever they were written as keys of this type.
    pub fn open_table<K: RedbKey + ?Sized, V: RedbValue + ?Sized>(&mut self, name: &str) -> (result:
        Result<Table<K, V>, Error>)
        requires
            position_of(old(self).tables(), name@) matches Some(place) ==> (types_match::<K, V>(
                old(self).tables()[place],
            ) ==> ordered::<K>(old(self).tables()[place].entries)),
        ensures
            final(self).base() == old(self).base(),
            match result {
                Ok(table) => {
                    &&& !old(self).opened().contains(name@)
                    &&& final(self).opened() == old(self).opened().push(name@)
                    &&& table.name() == name@
                    &&& ordered::<K>(table.content())
                    &&& match position_of(old(self).tables(), name@) {
                        Some(place) => {
                            &&& types_match::<K, V>(old(self).tables()[place])
                            &&& table.content() == old(self).tables()[place].entries
                            &&& final(self).tables() == old(self).tables()
                        },
                        None => {
                            &&& table.content() == Seq::<(Seq<u8>, Seq<u8>)>::empty()
                            &&& final(self).tables() == old(self).tables().push(
                                new_table_state(
                                    name@,
                                    K::type_name_spec(),
                                    V::type_name_spec(),
                                ),
                            )
                        },
                    }
                },
                Err(Error::TableAlreadyOpen) => {
                    &&& old(self).opened().contains(name@)
                    &&& final(self).opened() == old(self).opened()
                    &&& final(self).tables() == old(self).tables()
                },
                Err(Error::TableTypeMismatch) => {
                    &&& !old(self).opened().contains(name@)
                    &&& position_of(old(self).tables(), name@) matches Some(place)
                        && !types_match::<K, V>(old(self).tables()[place])
                    &&& final(self).opened() == old(self).opened()
                    &&& final(self).tables() == old(self).tables()
                },
                Err(_) => false,
            },
    {
        let ghost before = tables_view(self.tables@);
        let wanted = String::from_str(name);
        if find_name(&self.opened, &wanted).is_some() {
            return Err(Error::TableAlreadyOpen);
        }
        let key_type = K::redb_type_name();
        let value_type = V::redb_type_name();
        match find_table(&self.tables, &wanted) {
            Some(place) => {
                assert(before[place as int] == self.tables@[place as int]@);
                if self.tables[place].key_type == key_type && self.tables[place].value_type
                    == value_type {
                    let entries = copy_entries(&self.tables[place].entries);
                    self.opened.push(wanted);
                    assert(self.opened() =~= old(self).opened().push(name@));
                    Ok(Table::new(name, entries))
                } else {
                    Err(Error::TableTypeMismatch)
                }
            },
            None => {
                let entries: Vec<(Vec<u8>, Vec<u8>)> = Vec::new();
                assert(entries_view(entries@) =~= Seq::<(Seq<u8>, Seq<u8>)>::empty());
                let kept = StoredTable {
                    name: wanted.clone(),
                    key_type,
                    value_type,
                    entries: Vec::new(),
                };
                assert(kept@.entries =~= Seq::<(Seq<u8>, Seq<u8>)>::empty());
                self.tables.push(kept);
                assert(self.tables() =~= before.push(
                    new_table_state(name@, K::type_name_spec(), V::type_name_spec()),
                ));
                self.opened.push(wanted);
                assert(self.opened() =~= old(self).opened().push(name@));
                Ok(Table::new(name, entries))
            },
        }
    }

    /// Closes a table: what it holds now is what the transaction keeps under
    /// its name, and the table can be opened again.
    pub fn close_table<K: RedbKey + ?Sized, V: RedbValue + ?Sized>(&mut self, table: Table<K, V>)
        ensures
            final(self).base() == old(self).base(),
            final(self).opened() == old(self).opened().remove_value(table.name()),
            final(self).tables() == match position_of(old(self).tables(), table.name()) {
                Some(place) => old(self).tables().update(
                    place,
                    with_entries(old(self).tables()[place], table.content()),
                ),
                None => old(self).tables(),
            },
    {
        let ghost before = tables_view(self.tables@);
        let ghost names = names_view(self.opened@);
        let (name, entries) = table.into_parts();
        match find_name(&self.opened, &name) {
            Some(place) => {
                self.opened.remove(place);
                assert(self.opened() =~= names.remove(place as int));
            },
            None => {
                proof {
                    names.index_of_first_ensures(name@);
                }
            },
        }
        match find_table(&self.tables, &name) {
            Some(place) => {
                assert(before[place as int] == self.tables@[place as int]@);
                let kept = self.tables.remove(place);
                let changed = StoredTable {
                    name: kept.name,
                    key_type: kept.key_type,
                    value_type: kept.value_type,
                    entries,
                };
                assert(changed@.entries =~= table.content());
                self.tables.insert(place, changed);
                assert(self.tables() =~= before.update(
                    place as int,
                    with_entries(before[place as int], table.content()),
                ));
            },
            None => {},
        }
    }

    /// Commits the transaction: what the writer kept becomes the committed
    /// state, under the next transaction number, and the next writer may
    /// begin.
    pub fn commit(self, database: &mut Database)
        requires
            old(database).is_writing(),
            old(database).transaction_id() < u64::MAX,
        ensures
            final(database).tables() == self.tables(),
            final(database).transaction_id() == old(database).transaction_id() + 1,
            !final(database).is_writing(),
            final(database).live_reads() == old(database).live_reads(),
    {
        database.tables = self.tables;
        database.transaction_id = database.transaction_id + 1;
        database.writing = false;
    }

    /// Gives the transaction up: the committed state stays as it was, and
    /// the next writer may begin.
    pub fn abort(self, database: &mut Database)
        ensures
            final(database).tables() == old(database).tables(),
            final(database).transaction_id() == old(database).transaction_id(),
            !final(database).is_writing(),
            final(database).live_reads() == old(database).live_reads(),
    {
        database.writing = false;
    }
}

impl ReadTransaction {
    /// Opens the table of the given name for reading: it holds what was
    /// committed under that name when the transaction began, and nothing
    /// where there was no such table. A table cannot be opened with other
    /// types than those it was recorded with.
    ///
    /// The entries kept under the name must be ordered as keys of type `K`
    /// are: they are wherever they were written as keys of this type.
    pub fn open_table<K: RedbKey + ?Sized, V: RedbValue + ?Sized>(&self, name: &str) -> (result:
        Result<ReadOnlyTable<K, V>, Error>)
        requires
            position_of(self.tables(), name@) matches Some(place) ==> (types_match::<K, V>(
                self.tables()[place],
            ) ==> ordered::<K>(self.tables()[place].entries)),
        ensures
            match position_of(self.tables(), name@) {
                Some(place) => if types_match::<K, V>(self.tables()[place]) {
                    result matches Ok(table) && table.content() == self.tables()[place].entries
                } else {
                    result == Err::<ReadOnlyTable<K, V>, Error>(Error::TableTypeMismatch)
                },
                None => result matches Ok(table) && table.content() == Seq::<
                    (Seq<u8>, Seq<u8>),
                >::empty(),
            },
    {
        let ghost view = tables_view(self.tables@);
        let wanted = String::from_str(name);
        match find_table(&self.tables, &wanted) {
            Some(place) => {
                assert(view[place as int] == self.tables@[place as int]@);
                let key_type = K::redb_type_name();
                let value_type = V::redb_type_name();
                if self.tables[place].key_type == key_type && self.tables[place].value_type
                    == value_type {
                    let entries = copy_entries(&self.tables[place].entries);
                    Ok(ReadOnlyTable::new(entries))
                } else {
                    Err(Error::TableTypeMismatch)
                }
            },
            None => {
                let entries: Vec<(Vec<u8>, Vec<u8>)> = Vec::new();
                assert(entries_view(entries@) =~= Seq::<(Seq<u8>, Seq<u8>)>::empty());
                Ok(ReadOnlyTable::new(entries))
            },
        }
    }


    /// The number of the committed transaction that the reader sees.
    pub closed spec fn transaction_id(&self) -> u64 {
        self.transaction_id
    }

    /// The tables as the reader sees them.
    pub closed spec fn tables(&self) -> Seq<TableState> {
        tables_view(self.tables@)
    }
}

} // verus!
