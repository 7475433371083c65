//! The tables of a database as they are kept between transactions: each
//! under its name, with the names of its key and value types.

use crate::ordered_entries::entries_view;
use vstd::prelude::*;
use vstd::slice::slice_to_vec;

verus! {

/// A table as it is kept: its name, the recorded names of its key and value
/// types, and its entries.
pub struct StoredTable {
    pub name: String,
    pub key_type: String,
    pub value_type: String,
    pub entries: Vec<(Vec<u8>, Vec<u8>)>,
}

/// What a kept table holds.
pub struct TableState {
    pub name: Seq<char>,
    pub key_type: Seq<char>,
    pub value_type: Seq<char>,
    pub entries: Seq<(Seq<u8>, Seq<u8>)>,
}

impl View for StoredTable {
    type V = TableState;

    open spec fn view(&self) -> TableState {
        TableState {
            name: self.name@,
            key_type: self.key_type@,
            value_type: self.value_type@,
            entries: entries_view(self.entries@),
        }
    }
}

/// What each of the kept tables holds.
pub open spec fn tables_view(tables: Seq<StoredTable>) -> Seq<TableState> {
    Seq::new(tables.len(), |i: int| tables[i]@)
}

/// The place of the table of the given name among `tables`, if there is
/// one: the first that has the name.
pub open spec fn position_of(tables: Seq<TableState>, name: Seq<char>) -> Option<int>
    decreases tables.len(),
{
    if tables.len() == 0 {
        None
    } else {
        match position_of(tables.drop_last(), name) {
            Some(place) => Some(place),
            None => if tables.last().name == name {
                Some(tables.len() - 1)
            } else {
                None
            },
        }
    }
}

/// `position_of` finds the first table of the name, and none only where no
/// table has the name.
pub proof fn position_of_first(tables: Seq<TableState>, name: Seq<char>)
    ensures
        match position_of(tables, name) {
            Some(place) => {
                &&& 0 <= place < tables.len()
                &&& tables[place].name == name
                &&& forall|i: int| 0 <= i < place ==> (#[trigger] tables[i]).name != name
            },
            None => forall|i: int| 0 <= i < tables.len() ==> (#[trigger] tables[i]).name != name,
        },
    decreases tables.len(),
{
    if tables.len() > 0 {
        let front = tables.drop_last();
        position_of_first(front, name);
        match position_of(front, name) {
            Some(place) => {
                assert(front[place] == tables[place]);
                assert forall|i: int| 0 <= i < place implies (#[trigger] tables[i]).name
                    != name by {
                    assert(front[i] == tables[i]);
                }
            },
            None => {
                assert forall|i: int| 0 <= i < front.len() implies (#[trigger] tables[i]).name
                    != name by {
                    assert(front[i] == tables[i]);
                }
            },
        }
    }
}

/// Finds the table of the given name.
pub fn find_table(tables: &Vec<StoredTable>, name: &String) -> (found: Option<usize>)
    ensures
        match found {
            Some(place) => position_of(tables_view(tables@), name@) == Some(place as int) && place
                < tables@.len(),
            None => position_of(tables_view(tables@), name@) is None,
        },
{
    let ghost view = tables_view(tables@);
    let mut i: usize = 0;
    while i < tables.len()
        invariant
            i <= tables@.len(),
            view == tables_view(tables@),
            forall|j: int| 0 <= j < i ==> (#[trigger] view[j]).name != name@,
        decreases tables@.len() - i,
    {
        assert(view[i as int] == tables@[i as int]@);
        if tables[i].name == *name {
            proof {
                position_of_first(view, name@);
            }
            return Some(i);
        }
        i += 1;
    }
    proof {
        position_of_first(view, name@);
    }
    None
}

/// Copies entries.
pub fn copy_entries(entries: &Vec<(Vec<u8>, Vec<u8>)>) -> (copy: Vec<(Vec<u8>, Vec<u8>)>)
    ensures
        entries_view(copy@) == entries_view(entries@),
{
    let mut copy: Vec<(Vec<u8>, Vec<u8>)> = Vec::new();
    let mut i: usize = 0;
    while i < entries.len()
        invariant
            i <= entries@.len(),
            copy@.len() == i,
            forall|j: int|
                0 <= j < i ==> (#[trigger] copy@[j]).0@ == entries@[j].0@ && copy@[j].1@
                    == entries@[j].1@,
        decreases entries@.len() - i,
    {
        let key = slice_to_vec(entries[i].0.as_slice());
        let value = slice_to_vec(entries[i].1.as_slice());
        copy.push((key, value));
        i += 1;
    }
    assert(entries_view(copy@) =~= entries_view(entries@));
    copy
}

/// Copies kept tables.
pub fn copy_tables(tables: &Vec<StoredTable>) -> (copy: Vec<StoredTable>)
    ensures
        tables_view(copy@) == tables_view(tables@),
{
    let mut copy: Vec<StoredTable> = Vec::new();
    let mut i: usize = 0;
    while i < tables.len()
        invariant
            i <= tables@.len(),
            copy@.len() == i,
            forall|j: int| 0 <= j < i ==> (#[trigger] copy@[j])@ == tables@[j]@,
        decreases tables@.len() - i,
    {
        let table = &tables[i];
        let entries = copy_entries(&table.entries);
        let kept = StoredTable {
            name: table.name.clone(),
            key_type: table.key_type.clone(),
            value_type: table.value_type.clone(),
            entries,
        };
        copy.push(kept);
        i += 1;
    }
    assert(tables_view(copy@) =~= tables_view(tables@));
    copy
}

} // verus!
