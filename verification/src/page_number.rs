//! The number of a page: the region it lies in, the page of the region at
//! which it starts, and its order. A page of order k is a block of two to
//! the power of k pages of the region.

use crate::region::{block_pages, block_size};
use vstd::bytes::*;
use vstd::prelude::*;
use vstd::slice::{slice_index_get, slice_subrange};

verus! {

/// The number of a page.
#[derive(Clone, Copy, Debug, PartialEq, Eq, Structural)]
pub struct PageNumber {
    pub region: u32,
    pub page_index: u32,
    pub page_order: u8,
}

/// The number of bytes that a page number takes in a file.
pub const PAGE_NUMBER_BYTES: usize = 9;

impl PageNumber {
    /// The page behind the last page of the block.
    pub open spec fn end(&self) -> int {
        self.page_index + block_pages(self.page_order as nat)
    }

    /// Whether the block holds page `page` of region `region`.
    pub open spec fn covers(&self, region: int, page: int) -> bool {
        self.region == region && self.page_index <= page < self.end()
    }

    /// Whether the two blocks have a page in common.
    pub open spec fn overlaps(&self, other: PageNumber) -> bool {
        self.region == other.region && self.page_index < other.end() && other.page_index
            < self.end()
    }

    /// The bytes that stand for the page number in a file: region, page and
    /// order, the first two as four little-endian bytes each.
    pub open spec fn encoding(&self) -> Seq<u8> {
        spec_u32_to_le_bytes(self.region) + spec_u32_to_le_bytes(self.page_index)
            + seq![self.page_order]
    }

    /// The page number for a block of the given order that starts at page
    /// `page_index` of region `region`.
    pub fn new(region: u32, page_index: u32, page_order: u8) -> (page: Self)
        ensures
            page == (PageNumber { region, page_index, page_order }),
    {
        PageNumber { region, page_index, page_order }
    }

    /// Whether the block ends behind page `page` of its region.
    fn ends_behind(&self, page: u32) -> (behind: bool)
        ensures
            behind == (page < self.end()),
    {
        match block_size(self.page_order, 0xffff_ffff) {
            Some(count) => {
                let end: u64 = self.page_index as u64 + count as u64;
                end > page as u64
            },
            None => true,
        }
    }

    /// Whether the two blocks have a page in common.
    pub fn intersects(&self, other: &PageNumber) -> (common: bool)
        ensures
            common == self.overlaps(*other),
    {
        self.region == other.region && other.ends_behind(self.page_index) && self.ends_behind(
            other.page_index,
        )
    }

    /// Writes the page number as it stands in a file.
    pub fn to_le_bytes(&self) -> (bytes: Vec<u8>)
        ensures
            bytes@ == self.encoding(),
            bytes@.len() == PAGE_NUMBER_BYTES,
    {
        proof {
            lemma_auto_spec_u32_to_from_le_bytes();
        }
        let mut bytes = u32_to_le_bytes(self.region);
        let mut index = u32_to_le_bytes(self.page_index);
        bytes.append(&mut index);
        bytes.push(self.page_order);
        assert(bytes@ =~= self.encoding());
        bytes
    }

    /// Reads a page number as it stands in a file: from nine bytes, and from
    /// nothing else.
    pub fn from_le_bytes(bytes: &[u8]) -> (page: Option<Self>)
        ensures
            page == decoded_page_number(bytes@),
    {
        if bytes.len() != PAGE_NUMBER_BYTES {
            return None;
        }
        let region = u32_from_le_bytes(slice_subrange(bytes, 0, 4));
        let page_index = u32_from_le_bytes(slice_subrange(bytes, 4, 8));
        let page_order = *slice_index_get(bytes, 8);
        Some(PageNumber { region, page_index, page_order })
    }
}

/// The page number that the bytes stand for, if they are nine.
pub open spec fn decoded_page_number(bytes: Seq<u8>) -> Option<PageNumber> {
    if bytes.len() == PAGE_NUMBER_BYTES {
        Some(
            PageNumber {
                region: spec_u32_from_le_bytes(bytes.subrange(0, 4)),
                page_index: spec_u32_from_le_bytes(bytes.subrange(4, 8)),
                page_order: bytes[8],
            },
        )
    } else {
        None
    }
}

/// Reading what `to_le_bytes` wrote gives the page number back.
pub proof fn page_number_round_trip(page: PageNumber)
    ensures
        decoded_page_number(page.encoding()) == Some(page),
{
    lemma_auto_spec_u32_to_from_le_bytes();
    assert(page.encoding().subrange(0, 4) =~= spec_u32_to_le_bytes(page.region));
    assert(page.encoding().subrange(4, 8) =~= spec_u32_to_le_bytes(page.page_index));
}

} // verus!
