//! How a node of a tree starts in its page: the kind of the node, the number
//! of its entries, the number of the transaction that wrote it, and its
//! checksum. Numbers are little-endian.

use crate::error::Error;
use vstd::bytes::*;
use vstd::prelude::*;
use vstd::slice::{slice_index_get, slice_subrange};

verus! {

/// The number of bytes at the start of a node that say what the node is.
pub const NODE_HEADER_BYTES: usize = 19;

/// The byte that marks a leaf.
pub const LEAF_KIND: u8 = 1;

/// The byte that marks an internal node.
pub const INTERNAL_KIND: u8 = 2;

/// What a node is.
#[derive(Clone, Copy, Debug, PartialEq, Eq, Structural)]
pub enum NodeKind {
    /// The node holds entries.
    Leaf,
    /// The node holds separator keys and the pages of its children.
    Internal,
}

/// What the start of a node says.
#[derive(Clone, Copy, Debug, PartialEq, Eq, Structural)]
pub struct NodeHeader {
    pub kind: NodeKind,
    pub entry_count: u16,
    pub transaction_id: u64,
    pub checksum: u64,
}

/// The byte that marks a node of the given kind.
pub open spec fn kind_byte(kind: NodeKind) -> u8 {
    match kind {
        NodeKind::Leaf => LEAF_KIND,
        NodeKind::Internal => INTERNAL_KIND,
    }
}

/// The bytes at the start of a node with the given header.
pub open spec fn header_bytes(header: NodeHeader) -> Seq<u8> {
    seq![kind_byte(header.kind)] + spec_u16_to_le_bytes(header.entry_count)
        + spec_u64_to_le_bytes(header.transaction_id) + spec_u64_to_le_bytes(header.checksum)
}

/// What the start of a node says, where the data is long enough to hold it
/// and marks a kind of node that there is.
pub open spec fn header_of(data: Seq<u8>) -> Option<NodeHeader> {
    let kind = if data.len() < NODE_HEADER_BYTES {
        None
    } else if data[0] == LEAF_KIND {
        Some(NodeKind::Leaf)
    } else if data[0] == INTERNAL_KIND {
        Some(NodeKind::Internal)
    } else {
        None
    };
    match kind {
        Some(kind) => Some(
            NodeHeader {
                kind,
                entry_count: spec_u16_from_le_bytes(data.subrange(1, 3)),
                transaction_id: spec_u64_from_le_bytes(data.subrange(3, 11)),
                checksum: spec_u64_from_le_bytes(data.subrange(11, 19)),
            },
        ),
        None => None,
    }
}

/// Writes the start of a node.
pub fn write_node_header(header: &NodeHeader) -> (bytes: Vec<u8>)
    ensures
        bytes@ == header_bytes(*header),
        bytes@.len() == NODE_HEADER_BYTES,
{
    proof {
        lemma_auto_spec_u16_to_from_le_bytes();
        lemma_auto_spec_u64_to_from_le_bytes();
    }
    let mut bytes: Vec<u8> = Vec::new();
    bytes.push(
        match header.kind {
            NodeKind::Leaf => LEAF_KIND,
            NodeKind::Internal => INTERNAL_KIND,
        },
    );
    let mut count = u16_to_le_bytes(header.entry_count);
    bytes.append(&mut count);
    let mut transaction_id = u64_to_le_bytes(header.transaction_id);
    bytes.append(&mut transaction_id);
    let mut checksum = u64_to_le_bytes(header.checksum);
    bytes.append(&mut checksum);
    assert(bytes@ =~= header_bytes(*header));
    bytes
}

/// Reads the start of a node. A page that is too short for it, or that
/// starts with the mark of no kind of node, is corrupt.
pub fn read_node_header(data: &[u8]) -> (result: Result<NodeHeader, Error>)
    ensures
        result == match header_of(data@) {
            Some(header) => Ok::<NodeHeader, Error>(header),
            None => Err::<NodeHeader, Error>(Error::Corruption),
        },
{
    if data.len() < NODE_HEADER_BYTES {
        return Err(Error::Corruption);
    }
    let mark = *slice_index_get(data, 0);
    let kind = if mark == LEAF_KIND {
        NodeKind::Leaf
    } else if mark == INTERNAL_KIND {
        NodeKind::Internal
    } else {
        return Err(Error::Corruption);
    };
    let entry_count = u16_from_le_bytes(slice_subrange(data, 1, 3));
    let transaction_id = u64_from_le_bytes(slice_subrange(data, 3, 11));
    let checksum = u64_from_le_bytes(slice_subrange(data, 11, 19));
    Ok(NodeHeader { kind, entry_count, transaction_id, checksum })
}

/// Reading what `write_node_header` wrote gives the header back.
pub proof fn node_header_round_trip(header: NodeHeader)
    ensures
        header_bytes(header).len() == NODE_HEADER_BYTES,
        header_of(header_bytes(header)) == Some(header),
{
    lemma_auto_spec_u16_to_from_le_bytes();
    lemma_auto_spec_u64_to_from_le_bytes();
    let data = header_bytes(header);
    assert(data.subrange(1, 3) =~= spec_u16_to_le_bytes(header.entry_count));
    assert(data.subrange(3, 11) =~= spec_u64_to_le_bytes(header.transaction_id));
    assert(data.subrange(11, 19) =~= spec_u64_to_le_bytes(header.checksum));
}

} // verus!
