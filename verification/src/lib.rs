//! An embedded key-value store, as far as it can be reasoned about without a
//! file: typed keys and values and how they are written as bytes, tables that
//! keep their entries in the order of the keys, transactions that isolate
//! readers from the writer, the pages of the file and who may still see them,
//! and the order in which a commit reaches the disk.

pub mod byte_order;
pub mod commit_protocol;
pub mod entry_ops;
pub mod error;
pub mod int_types;
pub mod key_order;
pub mod live_reads;
pub mod node_header;
pub mod ordered_entries;
pub mod page_allocator;
pub mod page_number;
pub mod page_tracker;
pub mod range_bounds;
pub mod region;
pub mod stored_tables;
pub mod table;
pub mod table_laws;
pub mod transactions;
pub mod tuple_format;
pub mod tuple_types;
pub mod types;
pub mod utils;
pub mod variable_width;
