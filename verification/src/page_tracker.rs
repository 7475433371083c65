//! The pages of a database through its transactions. A page that a writer
//! frees is kept until no reader can see it any more; a page that a reader
//! can see is never handed out, and never written.

use crate::error::Error;
use crate::live_reads::{smallest, smallest_is_least, smallest_of};
use crate::page_allocator::{
    bit_at, block_freed, block_held, block_held_by_pages, block_taken, first_with_room_found,
    region_with_block, region_without_block, state_well_formed, total_population, PageAllocator,
    RegionState,
};
use crate::page_number::PageNumber;
use crate::region::{block_pages, population};
use vstd::prelude::*;

verus! {

/// Whether page `page` of region `region` was allocated in `bitmaps`.
pub open spec fn base_bit(bitmaps: Seq<Seq<bool>>, region: int, page: int) -> bool {
    &&& 0 <= region < bitmaps.len()
    &&& 0 <= page < bitmaps[region].len()
    &&& bitmaps[region][page]
}

/// Whether one of the blocks holds page `page` of region `region`.
pub open spec fn covered_by(blocks: Seq<PageNumber>, region: int, page: int) -> bool {
    exists|k: int| 0 <= k < blocks.len() && (#[trigger] blocks[k]).covers(region, page)
}

/// Whether no two of the blocks have a page in common.
pub open spec fn disjoint_blocks(blocks: Seq<PageNumber>) -> bool {
    forall|j: int, k: int|
        #![trigger blocks[j], blocks[k]]
        0 <= j < k < blocks.len() ==> !blocks[j].overlaps(blocks[k])
}

/// The blocks of the freed pages.
pub open spec fn freed_blocks(pending: Seq<(u64, PageNumber)>) -> Seq<PageNumber> {
    Seq::new(pending.len(), |k: int| pending[k].1)
}

/// The bitmaps of the regions.
pub open spec fn bitmaps_of(regions: Seq<RegionState>) -> Seq<Seq<bool>> {
    Seq::new(regions.len(), |r: int| regions[r].bits)
}

/// A page is held by the blocks with one more block if it is held by the
/// blocks or by that block.
pub proof fn covered_by_push(blocks: Seq<PageNumber>, block: PageNumber, region: int, page: int)
    ensures
        covered_by(blocks.push(block), region, page) <==> covered_by(blocks, region, page)
            || block.covers(region, page),
{
    let more = blocks.push(block);
    if covered_by(blocks, region, page) {
        let k = choose|k: int| 0 <= k < blocks.len() && (#[trigger] blocks[k]).covers(region, page);
        assert(more[k].covers(region, page));
    }
    if block.covers(region, page) {
        assert(more[blocks.len() as int].covers(region, page));
    }
    if covered_by(more, region, page) {
        let k = choose|k: int| 0 <= k < more.len() && (#[trigger] more[k]).covers(region, page);
        if k < blocks.len() {
            assert(blocks[k].covers(region, page));
        }
    }
}

/// Of blocks of which no two have a page in common, a page is held by those
/// that are left after one is taken away if it is held by one of the blocks
/// and not by the one taken away.
pub proof fn covered_by_remove(blocks: Seq<PageNumber>, index: int, region: int, page: int)
    requires
        disjoint_blocks(blocks),
        0 <= index < blocks.len(),
    ensures
        covered_by(blocks.remove(index), region, page) <==> covered_by(blocks, region, page)
            && !blocks[index].covers(region, page),
        disjoint_blocks(blocks.remove(index)),
{
    let fewer = blocks.remove(index);
    if covered_by(blocks, region, page) && !blocks[index].covers(region, page) {
        let k = choose|k: int| 0 <= k < blocks.len() && (#[trigger] blocks[k]).covers(region, page);
        let moved = if k < index {
            k
        } else {
            k - 1
        };
        assert(fewer[moved] == blocks[k]);
    }
    if covered_by(fewer, region, page) {
        let k = choose|k: int| 0 <= k < fewer.len() && (#[trigger] fewer[k]).covers(region, page);
        let from = if k < index {
            k
        } else {
            k + 1
        };
        assert(fewer[k] == blocks[from]);
        assert(blocks[from].covers(region, page));
        if blocks[index].covers(region, page) {
            if from < index {
                assert(!blocks[from].overlaps(blocks[index]));
            } else {
                assert(!blocks[index].overlaps(blocks[from]));
            }
        }
    }
    assert forall|j: int, k: int|
        #![trigger fewer[j], fewer[k]]
        0 <= j < k < fewer.len() implies !fewer[j].overlaps(fewer[k]) by {
        let from_j = if j < index {
            j
        } else {
            j + 1
        };
        let from_k = if k < index {
            k
        } else {
            k + 1
        };
        assert(fewer[j] == blocks[from_j]);
        assert(fewer[k] == blocks[from_k]);
        assert(!blocks[from_j].overlaps(blocks[from_k]));
    }
}

/// Two blocks that have a page in common have a page that both hold.
pub proof fn overlap_has_common_page(first: PageNumber, second: PageNumber)
    requires
        first.overlaps(second),
    ensures
        exists|page: int|
            #![trigger first.covers(first.region as int, page)]
            first.covers(first.region as int, page) && second.covers(first.region as int, page),
{
    block_pages_positive(first.page_order as nat);
    block_pages_positive(second.page_order as nat);
    let page = if first.page_index < second.page_index {
        second.page_index as int
    } else {
        first.page_index as int
    };
    assert(first.covers(first.region as int, page) && second.covers(first.region as int, page));
}

/// A block has a page.
pub proof fn block_pages_positive(order: nat)
    ensures
        block_pages(order) >= 1,
{
    crate::region::block_pages_monotonic(0, order);
}

/// A block that is held stays held when more pages are allocated.
pub proof fn held_after_taking(
    before: Seq<RegionState>,
    after: Seq<RegionState>,
    block: PageNumber,
)
    requires
        block_held(before, block),
        before.len() <= after.len(),
        forall|r: int|
            0 <= r < before.len() ==> (#[trigger] after[r]).bits.len() == before[r].bits.len(),
        forall|r: int, i: int| #[trigger] bit_at(before, r, i) ==> bit_at(after, r, i),
    ensures
        block_held(after, block),
{
    block_held_by_pages(before, block);
    block_held_by_pages(after, block);
    assert(after[block.region as int].bits.len() == before[block.region as int].bits.len());
    assert forall|i: int| block.page_index <= i < block.end() implies #[trigger] bit_at(
        after,
        block.region as int,
        i,
    ) by {
        assert(bit_at(before, block.region as int, i));
    }
}

/// A block that is held stays held when pages are freed that it does not
/// hold.
pub proof fn held_after_freeing(
    before: Seq<RegionState>,
    after: Seq<RegionState>,
    freed: PageNumber,
    block: PageNumber,
)
    requires
        block_held(before, block),
        !freed.overlaps(block),
        before.len() == after.len(),
        forall|r: int|
            0 <= r < before.len() ==> (#[trigger] after[r]).bits.len() == before[r].bits.len(),
        forall|r: int, i: int|
            #[trigger] bit_at(before, r, i) && !freed.covers(r, i) ==> bit_at(after, r, i),
    ensures
        block_held(after, block),
{
    block_held_by_pages(before, block);
    block_held_by_pages(after, block);
    assert(after[block.region as int].bits.len() == before[block.region as int].bits.len());
    assert forall|i: int| block.page_index <= i < block.end() implies #[trigger] bit_at(
        after,
        block.region as int,
        i,
    ) by {
        assert(bit_at(before, block.region as int, i));
    }
}

/// The number up to which freed pages can be released: that of the
/// transaction that the oldest live reader sees; every number, where no
/// reader is live.
pub open spec fn release_bound(reads: Seq<u64>) -> u64 {
    match smallest(reads) {
        Some(oldest) => oldest,
        None => u64::MAX,
    }
}

/// The freed pages that are not released: those that a transaction behind
/// `bound` freed.
pub open spec fn kept_entries(pending: Seq<(u64, PageNumber)>, bound: u64) -> Seq<
    (u64, PageNumber),
>
    decreases pending.len(),
{
    if pending.len() == 0 {
        Seq::empty()
    } else if pending.last().0 > bound {
        kept_entries(pending.drop_last(), bound).push(pending.last())
    } else {
        kept_entries(pending.drop_last(), bound)
    }
}

/// The regions after the freed pages were released that a transaction up
/// to `bound` freed.
pub open spec fn released_regions(
    regions: Seq<RegionState>,
    pending: Seq<(u64, PageNumber)>,
    bound: u64,
) -> Seq<RegionState>
    decreases pending.len(),
{
    if pending.len() == 0 {
        regions
    } else {
        let earlier = released_regions(regions, pending.drop_last(), bound);
        let entry = pending.last();
        if entry.0 <= bound {
            earlier.update(
                entry.1.region as int,
                region_without_block(
                    earlier[entry.1.region as int],
                    entry.1.page_index as int,
                    block_pages(entry.1.page_order as nat),
                ),
            )
        } else {
            earlier
        }
    }
}

/// Whether one of the blocks has a page in common with `page`.
pub open spec fn overlaps_one(blocks: Seq<PageNumber>, page: PageNumber) -> bool {
    exists|k: int| 0 <= k < blocks.len() && (#[trigger] blocks[k]).overlaps(page)
}

/// Finds the first of the blocks that is `page`.
fn find_block(blocks: &Vec<PageNumber>, page: PageNumber) -> (found: Option<usize>)
    ensures
        match found {
            Some(index) => {
                &&& index < blocks@.len()
                &&& blocks@[index as int] == page
                &&& blocks@.contains(page)
                &&& blocks@.index_of_first(page) == Some(index as int)
            },
            None => !blocks@.contains(page),
        },
{
    let mut i: usize = 0;
    while i < blocks.len()
        invariant
            i <= blocks@.len(),
            forall|j: int| 0 <= j < i ==> blocks@[j] != page,
        decreases blocks@.len() - i,
    {
        if blocks[i] == page {
            proof {
                blocks@.index_of_first_ensures(page);
            }
            return Some(i);
        }
        i += 1;
    }
    None
}

/// Whether one of the blocks has a page in common with `page`.
fn overlaps_any(blocks: &Vec<PageNumber>, page: PageNumber) -> (common: bool)
    ensures
        common == overlaps_one(blocks@, page),
{
    let mut i: usize = 0;
    while i < blocks.len()
        invariant
            i <= blocks@.len(),
            forall|j: int| 0 <= j < i ==> !(#[trigger] blocks@[j]).overlaps(page),
        decreases blocks@.len() - i,
    {
        if blocks[i].intersects(&page) {
            return true;
        }
        i += 1;
    }
    false
}

/// Whether one of the freed blocks has a page in common with `page`.
fn overlaps_freed(pending: &Vec<(u64, PageNumber)>, page: PageNumber) -> (common: bool)
    ensures
        common == overlaps_one(freed_blocks(pending@), page),
{
    let ghost blocks = freed_blocks(pending@);
    let mut i: usize = 0;
    while i < pending.len()
        invariant
            i <= pending@.len(),
            blocks == freed_blocks(pending@),
            forall|j: int| 0 <= j < i ==> !(#[trigger] blocks[j]).overlaps(page),
        decreases pending@.len() - i,
    {
        assert(blocks[i as int] == pending@[i as int].1);
        if pending[i].1.intersects(&page) {
            return true;
        }
        i += 1;
    }
    false
}

/// The number of allocated pages in all bitmaps together.
pub open spec fn bitmaps_population(bitmaps: Seq<Seq<bool>>) -> int
    decreases bitmaps.len(),
{
    if bitmaps.len() == 0 {
        0
    } else {
        bitmaps_population(bitmaps.drop_last()) + population(bitmaps.last())
    }
}

/// A bitmap without an allocated page has a population of none.
pub proof fn population_of_free(bits: Seq<bool>)
    requires
        forall|i: int| 0 <= i < bits.len() ==> !#[trigger] bits[i],
    ensures
        population(bits) == 0,
    decreases bits.len(),
{
    if bits.len() > 0 {
        assert forall|i: int|
            0 <= i < bits.drop_last().len() implies !#[trigger] bits.drop_last()[i]
        by {
            assert(bits.drop_last()[i] == bits[i]);
        }
        population_of_free(bits.drop_last());
    }
}

/// Regions in which the same pages are allocated as in `bitmaps`, and none
/// in the regions that `bitmaps` does not reach to, have the population of
/// `bitmaps`.
pub proof fn same_bits_same_population(regions: Seq<RegionState>, bitmaps: Seq<Seq<bool>>)
    requires
        bitmaps.len() <= regions.len(),
        forall|r: int|
            0 <= r < bitmaps.len() ==> (#[trigger] bitmaps[r]).len() == regions[r].bits.len(),
        forall|r: int, i: int| #[trigger] bit_at(regions, r, i) <==> base_bit(bitmaps, r, i),
    ensures
        total_population(regions) == bitmaps_population(bitmaps),
    decreases regions.len(),
{
    if regions.len() > 0 {
        let last = regions.len() - 1;
        let front = regions.drop_last();
        if bitmaps.len() == regions.len() {
            let fewer = bitmaps.drop_last();
            assert forall|r: int, i: int| #[trigger]
                bit_at(front, r, i) <==> base_bit(fewer, r, i) by {
                if 0 <= r < front.len() {
                    assert(front[r] == regions[r]);
                    assert(fewer[r] == bitmaps[r]);
                    assert(bit_at(regions, r, i) <==> base_bit(bitmaps, r, i));
                }
            }
            assert forall|r: int| 0 <= r < fewer.len() implies (#[trigger] fewer[r]).len()
                == front[r].bits.len() by {
                assert(fewer[r] == bitmaps[r]);
                assert(front[r] == regions[r]);
            }
            same_bits_same_population(front, fewer);
            assert(regions[last].bits =~= bitmaps[last]) by {
                assert forall|i: int| 0 <= i < bitmaps[last].len() implies regions[last].bits[i]
                    == bitmaps[last][i] by {
                    assert(bit_at(regions, last, i) <==> base_bit(bitmaps, last, i));
                }
            }
        } else {
            assert forall|r: int, i: int| #[trigger]
                bit_at(front, r, i) <==> base_bit(bitmaps, r, i) by {
                if 0 <= r < front.len() {
                    assert(front[r] == regions[r]);
                    assert(bit_at(regions, r, i) <==> base_bit(bitmaps, r, i));
                }
            }
            assert forall|r: int| 0 <= r < bitmaps.len() implies (#[trigger] bitmaps[r]).len()
                == front[r].bits.len() by {
                assert(front[r] == regions[r]);
            }
            same_bits_same_population(front, bitmaps);
            assert forall|i: int|
                0 <= i < regions[last].bits.len() implies !#[trigger] regions[last].bits[i]
            by {
                assert(bit_at(regions, last, i) <==> base_bit(bitmaps, last, i));
            }
            population_of_free(regions[last].bits);
        }
    }
}

/// The bitmaps of regions have the population of the regions.
pub proof fn bitmaps_keep_population(regions: Seq<RegionState>)
    ensures
        bitmaps_population(bitmaps_of(regions)) == total_population(regions),
    decreases regions.len(),
{
    if regions.len() > 0 {
        bitmaps_keep_population(regions.drop_last());
        assert(bitmaps_of(regions).drop_last() =~= bitmaps_of(regions.drop_last()));
    }
}

/// Which pages there are, and who can see them.
pub struct PageTracker {
    allocator: PageAllocator,
    pending: Vec<(u64, PageNumber)>,
    tentative_from: usize,
    allocated: Vec<PageNumber>,
    committed: u64,
    readers: Vec<u64>,
    writing: bool,
    seen: Ghost<Map<u64, Set<(int, int)>>>,
    base: Ghost<Seq<Seq<bool>>>,
}

impl PageTracker {
    /// The page allocator.
    pub closed spec fn allocator(&self) -> PageAllocator {
        self.allocator
    }

    /// The regions of the file.
    pub open spec fn regions(&self) -> Seq<RegionState> {
        self.allocator().regions()
    }

    /// The freed pages that are kept for the readers that can see them:
    /// each with the number of the transaction that freed it. Those of the
    /// writer that is under way come last.
    pub closed spec fn pending(&self) -> Seq<(u64, PageNumber)> {
        self.pending@
    }

    /// Where in `pending` the pages start that the writer under way freed.
    pub closed spec fn tentative_from(&self) -> int {
        self.tentative_from as int
    }

    /// The pages that the writer under way allocated.
    pub closed spec fn writer_pages(&self) -> Seq<PageNumber> {
        self.allocated@
    }

    /// The number of the last committed transaction.
    pub closed spec fn committed(&self) -> u64 {
        self.committed
    }

    /// The transaction numbers that the live readers see, one for each.
    pub closed spec fn live_reads(&self) -> Seq<u64> {
        self.readers@
    }

    /// Whether a writer is under way.
    pub closed spec fn is_writing(&self) -> bool {
        self.writing
    }

    /// The pages that the readers of transaction `id` see.
    pub closed spec fn seen(&self, id: u64) -> Set<(int, int)> {
        self.seen@[id]
    }

    /// The bitmaps as they were when the writer under way began.
    pub closed spec fn base(&self) -> Seq<Seq<bool>> {
        self.base@
    }

    /// The pages of the committed state: those that are allocated, were not
    /// freed by a committed transaction, and were not allocated by the
    /// writer under way.
    pub open spec fn snapshot(&self) -> Set<(int, int)> {
        Set::new(
            |at: (int, int)|
                {
                    &&& bit_at(self.regions(), at.0, at.1)
                    &&& !covered_by(self.writer_pages(), at.0, at.1)
                    &&& forall|k: int|
                        0 <= k < self.tentative_from() ==> !(#[trigger] self.pending()[k]).1.covers(
                            at.0,
                            at.1,
                        )
                },
        )
    }

    /// Whether the freed pages and the pages of the writer are all
    /// allocated blocks, no two of which have a page in common.
    pub open spec fn blocks_held(&self) -> bool {
        &&& forall|k: int|
            0 <= k < self.pending().len() ==> self.allocator().holds_page(
                (#[trigger] self.pending()[k]).1,
            )
        &&& forall|k: int|
            0 <= k < self.writer_pages().len() ==> self.allocator().holds_page(
                #[trigger] self.writer_pages()[k],
            )
        &&& disjoint_blocks(freed_blocks(self.pending()))
        &&& disjoint_blocks(self.writer_pages())
        &&& forall|j: int, k: int|
            0 <= j < self.pending().len() && 0 <= k < self.writer_pages().len() ==> !(
            #[trigger] self.pending()[j]).1.overlaps(#[trigger] self.writer_pages()[k])
    }

    /// Whether the freed pages bear the numbers of the transactions that
    /// freed them.
    pub open spec fn numbers_in_order(&self) -> bool {
        &&& 0 <= self.tentative_from() <= self.pending().len()
        &&& forall|k: int|
            0 <= k < self.tentative_from() ==> (#[trigger] self.pending()[k]).0 <= self.committed()
        &&& forall|k: int|
            self.tentative_from() <= k < self.pending().len() ==> (#[trigger] self.pending()[k]).0
                == self.committed() + 1
        &&& !self.is_writing() ==> self.tentative_from() == self.pending().len()
            && self.writer_pages().len() == 0
        &&& self.is_writing() ==> self.committed() < u64::MAX
    }

    /// Whether the bitmaps are those of the moment when the writer under
    /// way began, with the pages that it allocated since.
    pub open spec fn based(&self) -> bool {
        &&& self.base().len() <= self.regions().len()
        &&& forall|r: int|
            0 <= r < self.base().len() ==> (#[trigger] self.base()[r]).len()
                == self.allocator().region_pages()
        &&& forall|r: int, i: int|
            0 <= r < self.regions().len() && 0 <= i < self.allocator().region_pages() ==> (
            #[trigger] bit_at(self.regions(), r, i) <==> base_bit(self.base(), r, i) || covered_by(
                self.writer_pages(),
                r,
                i,
            ))
        &&& forall|r: int, i: int|
            #[trigger] base_bit(self.base(), r, i) ==> !covered_by(self.writer_pages(), r, i)
    }

    /// Whether every live reader sees only pages that are allocated, that
    /// the writer under way did not allocate, and that no transaction freed
    /// which the reader could see.
    pub open spec fn snapshots_safe(&self) -> bool {
        forall|n: int, region: int, page: int|
            0 <= n < self.live_reads().len() && #[trigger] self.seen(
                #[trigger] self.live_reads()[n],
            ).contains((region, page)) ==> self.safe_for(self.live_reads()[n], region, page)
    }

    /// Whether a page that the readers of transaction `id` see is safe: it
    /// is allocated, the writer under way did not allocate it, and if it
    /// was freed, then by a transaction behind `id`.
    pub open spec fn safe_for(&self, id: u64, region: int, page: int) -> bool {
        &&& id <= self.committed()
        &&& bit_at(self.regions(), region, page)
        &&& !covered_by(self.writer_pages(), region, page)
        &&& forall|k: int|
            0 <= k < self.pending().len() && (#[trigger] self.pending()[k]).1.covers(region, page)
                ==> self.pending()[k].0 > id
    }

    /// Whether `page` is a block of the committed state that the writer
    /// under way may free: it is allocated, and has no page in common with
    /// a page that was freed or that the writer allocated.
    pub open spec fn can_retire(&self, page: PageNumber) -> bool {
        &&& self.allocator().holds_page(page)
        &&& !overlaps_one(freed_blocks(self.pending()), page)
        &&& !overlaps_one(self.writer_pages(), page)
    }

    /// Whether all but the pages is the same in `self` and `other`.
    pub open spec fn same_transactions(&self, other: &Self) -> bool {
        &&& self.allocator().region_pages() == other.allocator().region_pages()
        &&& self.allocator().max_regions() == other.allocator().max_regions()
        &&& self.allocator().last_region() == other.allocator().last_region()
        &&& self.tentative_from() == other.tentative_from()
        &&& self.committed() == other.committed()
        &&& self.is_writing() == other.is_writing()
        &&& self.base() == other.base()
        &&& self.live_reads() == other.live_reads()
        &&& forall|id: u64| self.seen(id) == other.seen(id)
    }

    /// Whether the tracker is as every tracker is.
    pub open spec fn well_formed(&self) -> bool {
        &&& self.allocator().well_formed()
        &&& self.blocks_held()
        &&& self.numbers_in_order()
        &&& self.based()
        &&& self.snapshots_safe()
    }

    /// Whether the pages and the writer are the same in `self` and `other`.
    pub open spec fn same_pages(&self, other: &Self) -> bool {
        &&& self.regions() == other.regions()
        &&& self.allocator().last_region() == other.allocator().last_region()
        &&& self.same_writer(other)
    }

    /// Whether all but the regions and the pages of the writer is the same
    /// in `self` and `other`.
    pub open spec fn same_writer(&self, other: &Self) -> bool {
        &&& self.allocator().region_pages() == other.allocator().region_pages()
        &&& self.allocator().max_regions() == other.allocator().max_regions()
        &&& self.pending() == other.pending()
        &&& self.tentative_from() == other.tentative_from()
        &&& self.committed() == other.committed()
        &&& self.is_writing() == other.is_writing()
        &&& self.base() == other.base()
        &&& self.live_reads() == other.live_reads()
        &&& forall|id: u64| self.seen(id) == other.seen(id)
    }

    /// Whether all but the readers is the same in `self` and `other`.
    pub open spec fn unchanged_but_readers(&self, other: &Self) -> bool {
        &&& self.regions() == other.regions()
        &&& self.allocator().last_region() == other.allocator().last_region()
        &&& self.allocator().region_pages() == other.allocator().region_pages()
        &&& self.allocator().max_regions() == other.allocator().max_regions()
        &&& self.pending() == other.pending()
        &&& self.tentative_from() == other.tentative_from()
        &&& self.writer_pages() == other.writer_pages()
        &&& self.committed() == other.committed()
        &&& self.is_writing() == other.is_writing()
        &&& self.base() == other.base()
    }

    /// A tracker for a file without pages yet, which may grow to
    /// `max_regions` regions of `region_pages` pages each.
    pub fn new(region_pages: u32, max_regions: u32) -> (tracker: Self)
        ensures
            tracker.well_formed(),
            tracker.regions() == Seq::<RegionState>::empty(),
            tracker.allocator().region_pages() == region_pages,
            tracker.allocator().max_regions() == max_regions,
            tracker.pending() == Seq::<(u64, PageNumber)>::empty(),
            tracker.writer_pages() == Seq::<PageNumber>::empty(),
            tracker.committed() == 0,
            tracker.live_reads() == Seq::<u64>::empty(),
            !tracker.is_writing(),
    {
        PageTracker {
            allocator: PageAllocator::new(region_pages, max_regions),
            pending: Vec::new(),
            tentative_from: 0,
            allocated: Vec::new(),
            committed: 0,
            readers: Vec::new(),
            writing: false,
            seen: Ghost(Map::empty()),
            base: Ghost(Seq::empty()),
        }
    }

    /// Begins a read transaction, and returns the number of the committed
    /// transaction that it sees. What it sees are the pages of the
    /// committed state.
    pub fn begin_read(&mut self) -> (id: u64)
        requires
            old(self).well_formed(),
        ensures
            final(self).well_formed(),
            final(self).unchanged_but_readers(old(self)),
            id == old(self).committed(),
            final(self).live_reads() == old(self).live_reads().push(id),
            final(self).seen(id) == old(self).snapshot(),
            forall|other: u64| other != id ==> final(self).seen(other) == old(self).seen(other),
    {
        let id = self.committed;
        let ghost pages = self.snapshot();
        self.readers.push(id);
        proof {
            self.seen@ = self.seen@.insert(id, pages);
        }
        assert forall|n: int, region: int, page: int|
            0 <= n < self.live_reads().len() && #[trigger] self.seen(
                #[trigger] self.live_reads()[n],
            ).contains((region, page)) implies self.safe_for(
                self.live_reads()[n],
                region,
                page,
            ) by {
            if self.live_reads()[n] != id {
                assert(self.live_reads()[n] == old(self).live_reads()[n]);
                assert(old(self).seen(old(self).live_reads()[n]).contains((region, page)));
            }
        }
        id
    }

    /// Begins a write transaction, and says whether it did: there is one
    /// writer at a time, and no writer behind the last transaction number.
    /// The freed pages that no live reader can see are released first.
    pub fn begin_write(&mut self) -> (started: bool)
        requires
            old(self).well_formed(),
        ensures
            final(self).well_formed(),
            started == (!old(self).is_writing() && old(self).committed() < u64::MAX),
            final(self).committed() == old(self).committed(),
            final(self).live_reads() == old(self).live_reads(),
            forall|id: u64| final(self).seen(id) == old(self).seen(id),
            final(self).allocator().region_pages() == old(self).allocator().region_pages(),
            final(self).allocator().max_regions() == old(self).allocator().max_regions(),
            final(self).allocator().last_region() == old(self).allocator().last_region(),
            final(self).writer_pages() == old(self).writer_pages(),
            started ==> {
                &&& final(self).is_writing()
                &&& final(self).pending() == kept_entries(
                    old(self).pending(),
                    release_bound(old(self).live_reads()),
                )
                &&& final(self).tentative_from() == final(self).pending().len()
                &&& final(self).regions() == released_regions(
                    old(self).regions(),
                    old(self).pending(),
                    release_bound(old(self).live_reads()),
                )
                &&& final(self).base() == bitmaps_of(final(self).regions())
            },
            !started ==> {
                &&& final(self).is_writing() == old(self).is_writing()
                &&& final(self).pending() == old(self).pending()
                &&& final(self).tentative_from() == old(self).tentative_from()
                &&& final(self).regions() == old(self).regions()
                &&& final(self).base() == old(self).base()
            },
    {
        if self.writing || self.committed == u64::MAX {
            return false;
        }
        let bound: u64 = match smallest_of(&self.readers) {
            Some(oldest) => oldest,
            None => u64::MAX,
        };
        let ghost pages = self.allocator().region_pages();
        let ghost entries = self.pending();
        let ghost start = self.regions();
        proof {
            smallest_is_least(self.live_reads());
        }
        let mut kept: Vec<(u64, PageNumber)> = Vec::new();
        let ghost mut origin: Seq<int> = Seq::empty();
        let mut i: usize = 0;
        while i < self.pending.len()
            invariant
                i <= entries.len(),
                old(self).well_formed(),
                !old(self).is_writing(),
                entries == old(self).pending(),
                start == old(self).regions(),
                pages == old(self).allocator().region_pages(),
                bound == release_bound(old(self).live_reads()),
                forall|n: int|
                    0 <= n < old(self).live_reads().len() ==> bound <= #[trigger] old(
                        self,
                    ).live_reads()[n],
                self.pending@ == entries,
                self.allocated@ == old(self).allocated@,
                self.readers@ == old(self).readers@,
                self.seen@ == old(self).seen@,
                self.committed == old(self).committed,
                self.writing == old(self).writing,
                self.tentative_from == old(self).tentative_from,
                self.base@ == old(self).base@,
                self.allocator().well_formed(),
                self.allocator().region_pages() == pages,
                self.allocator().max_regions() == old(self).allocator().max_regions(),
                self.allocator().last_region() == old(self).allocator().last_region(),
                self.regions().len() == start.len(),
                kept@ == kept_entries(entries.take(i as int), bound),
                self.regions() == released_regions(start, entries.take(i as int), bound),
                origin.len() == kept@.len(),
                forall|k: int|
                    0 <= k < origin.len() ==> 0 <= #[trigger] origin[k] < i && kept@[k]
                        == entries[origin[k]] && entries[origin[k]].0 > bound,
                forall|j: int, k: int|
                    0 <= j < k < origin.len() ==> #[trigger] origin[j] < #[trigger] origin[k],
                forall|k: int|
                    0 <= k < entries.len() && (k >= i || entries[k].0 > bound) ==> block_held(
                        self.regions(),
                        (#[trigger] entries[k]).1,
                    ),
                forall|n: int, region: int, page: int|
                    0 <= n < old(self).live_reads().len() && #[trigger] old(self).seen(
                        #[trigger] old(self).live_reads()[n],
                    ).contains((region, page)) ==> bit_at(self.regions(), region, page),
            decreases entries.len() - i,
        {
            let ghost before = self.regions();
            let entry = self.pending[i];
            proof {
                let next = entries.take(i + 1);
                assert(next.drop_last() =~= entries.take(i as int));
                assert(next.last() == entry);
            }
            if entry.0 <= bound {
                let page = entry.1;
                assert(block_held(before, entries[i as int].1));
                self.allocator.free(page);
                proof {
                    let after = self.regions();
                    block_freed(
                        before,
                        page.region as int,
                        page.page_index as int,
                        block_pages(page.page_order as nat),
                    );
                    assert forall|r: int|
                        0 <= r < before.len() implies (#[trigger] after[r]).bits.len()
                        == before[r].bits.len() by {
                        assert(state_well_formed(after[r], pages));
                        assert(state_well_formed(before[r], pages));
                    }
                    assert forall|k: int|
                        0 <= k < entries.len() && (k >= i + 1 || entries[k].0 > bound)
                            implies block_held(
                        after,
                        (#[trigger] entries[k]).1,
                    ) by {
                        let blocks = freed_blocks(entries);
                        assert(blocks[k] == entries[k].1);
                        assert(blocks[i as int] == page);
                        if k < i {
                            assert(!blocks[k].overlaps(blocks[i as int]));
                        } else {
                            assert(!blocks[i as int].overlaps(blocks[k]));
                        }
                        held_after_freeing(before, after, page, entries[k].1);
                    }
                    assert forall|n: int, region: int, at: int|
                        0 <= n < old(self).live_reads().len() && #[trigger] old(self).seen(
                            #[trigger] old(self).live_reads()[n],
                        ).contains((region, at)) implies bit_at(after, region, at) by {
                        assert(bit_at(before, region, at));
                        if page.covers(region, at) {
                            assert(old(self).pending()[i as int].1.covers(region, at));
                        }
                    }
                }
            } else {
                kept.push(entry);
                proof {
                    origin = origin.push(i as int);
                }
            }
            i += 1;
        }
        proof {
            assert(entries.take(i as int) =~= entries);
        }
        self.pending = kept;
        self.tentative_from = self.pending.len();
        self.writing = true;
        proof {
            self.base@ = bitmaps_of(self.regions());
            let regions = self.regions();
            assert(self.writer_pages().len() == 0);
            assert forall|k: int| 0 <= k < self.pending().len() implies self.allocator().holds_page(
                (#[trigger] self.pending()[k]).1,
            ) by {
                assert(self.pending()[k] == entries[origin[k]]);
                assert(block_held(regions, entries[origin[k]].1));
            }
            assert forall|j: int, k: int|
                #![trigger freed_blocks(self.pending())[j], freed_blocks(self.pending())[k]]
                0 <= j < k < self.pending().len() implies !freed_blocks(self.pending())[j].overlaps(
                freed_blocks(self.pending())[k],
            ) by {
                let all = freed_blocks(entries);
                assert(freed_blocks(self.pending())[j] == all[origin[j]]);
                assert(freed_blocks(self.pending())[k] == all[origin[k]]);
                assert(origin[j] < origin[k]);
            }
            assert forall|k: int| 0 <= k < self.tentative_from() implies (
            #[trigger] self.pending()[k]).0 <= self.committed() by {
                assert(self.pending()[k] == entries[origin[k]]);
            }
            assert forall|r: int, i: int|
                0 <= r < regions.len() && 0 <= i < pages implies (#[trigger] bit_at(regions, r, i)
                <==> base_bit(self.base(), r, i) || covered_by(self.writer_pages(), r, i)) by {
                assert(state_well_formed(regions[r], pages));
            }
            assert forall|r: int|
                0 <= r < self.base().len() implies (#[trigger] self.base()[r]).len()
                == pages by {
                assert(state_well_formed(regions[r], pages));
            }
            assert forall|n: int, at_region: int, at_page: int|
                0 <= n < self.live_reads().len() && #[trigger] self.seen(
                    #[trigger] self.live_reads()[n],
                ).contains((at_region, at_page)) implies self.safe_for(
                    self.live_reads()[n],
                    at_region,
                    at_page,
                ) by {
                assert(old(self).seen(old(self).live_reads()[n]).contains((at_region, at_page)));
                assert forall|k: int|
                    0 <= k < self.pending().len() && (#[trigger] self.pending()[k]).1.covers(
                        at_region,
                        at_page,
                    ) implies self.pending()[k].0 > self.live_reads()[n] by {
                    assert(self.pending()[k] == entries[origin[k]]);
                    assert(old(self).pending()[origin[k]].1.covers(at_region, at_page));
                }
            }
        }
        true
    }

    /// Allocates a block of the given order for the writer under way. The
    /// block is of pages that no reader can see.
    pub fn allocate(&mut self, order: u8) -> (result: Result<PageNumber, Error>)
        requires
            old(self).well_formed(),
            old(self).is_writing(),
        ensures
            final(self).well_formed(),
            final(self).same_writer(old(self)),
            match old(self).allocator().placement(order as nat) {
                Some((region, start)) => {
                    let page = PageNumber {
                        region: region as u32,
                        page_index: start as u32,
                        page_order: order,
                    };
                    let regions = if region < old(self).regions().len() {
                        old(self).regions()
                    } else {
                        old(self).allocator().grown()
                    };
                    &&& result == Ok::<PageNumber, Error>(page)
                    &&& final(self).regions() == regions.update(
                        region,
                        region_with_block(regions[region], start, block_pages(order as nat)),
                    )
                    &&& final(self).allocator().last_region() == region
                    &&& final(self).writer_pages() == old(self).writer_pages().push(page)
                },
                None => {
                    &&& result == Err::<PageNumber, Error>(Error::OutOfSpace)
                    &&& final(self).same_pages(old(self))
                    &&& final(self).writer_pages() == old(self).writer_pages()
                },
            },
    {
        let ghost before = self.regions();
        let ghost count = block_pages(order as nat);
        let ghost pages = self.allocator().region_pages();
        match self.allocator.allocate(order) {
            Ok(page) => {
                self.allocated.push(page);
                proof {
                    let after = self.regions();
                    let placed = old(self).allocator().placement(order as nat)->Some_0;
                    let region = placed.0;
                    let start = placed.1;
                    let last = old(self).allocator().last_region();
                    first_with_room_found(before, count, last, before.len() as int);
                    first_with_room_found(before, count, 0, last);
                    let grown = old(self).allocator().grown();
                    let regions = if region < before.len() {
                        before
                    } else {
                        grown
                    };
                    assert(0 <= region < regions.len());
                    assert(0 <= start && start + count <= regions[region].bits.len());
                    assert(state_well_formed(after[region], pages));
                    assert(page.region == region && page.page_index == start);
                    block_taken(regions, region, start, count);
                    assert forall|r: int, i: int| #[trigger]
                        bit_at(regions, r, i) <==> bit_at(before, r, i) by {
                        if 0 <= r < before.len() {
                            assert(regions[r] == before[r]);
                        }
                    }
                    assert(forall|r: int, i: int| #[trigger]
                        bit_at(after, r, i) <==> bit_at(before, r, i) || page.covers(r, i));
                    assert forall|r: int|
                        0 <= r < before.len() implies (#[trigger] after[r]).bits.len()
                        == before[r].bits.len() by {
                        assert(state_well_formed(after[r], pages));
                        assert(state_well_formed(before[r], pages));
                    }
                    assert forall|k: int| 0 <= k < self.pending().len() implies block_held(
                        after,
                        (#[trigger] self.pending()[k]).1,
                    ) by {
                        held_after_taking(before, after, self.pending()[k].1);
                    }
                    block_held_by_pages(after, page);
                    assert(state_well_formed(after[region], pages));
                    assert forall|k: int| 0 <= k < self.writer_pages().len() implies block_held(
                        after,
                        #[trigger] self.writer_pages()[k],
                    ) by {
                        if k < old(self).writer_pages().len() {
                            held_after_taking(before, after, old(self).writer_pages()[k]);
                        }
                    }
                    assert forall|j: int, k: int|
                        #![trigger self.writer_pages()[j], self.writer_pages()[k]]
                        0 <= j < k < self.writer_pages().len()
                            implies !self.writer_pages()[j].overlaps(
                        self.writer_pages()[k],
                    ) by {
                        if k == old(self).writer_pages().len() {
                            let other = old(self).writer_pages()[j];
                            if other.overlaps(page) {
                                overlap_has_common_page(other, page);
                                let i = choose|i: int|
                                    #![trigger other.covers(other.region as int, i)]
                                    other.covers(other.region as int, i) && page.covers(
                                        other.region as int,
                                        i,
                                    );
                                block_held_by_pages(before, other);
                                assert(bit_at(before, region, i));
                            }
                        } else {
                            assert(self.writer_pages()[j] == old(self).writer_pages()[j]);
                            assert(self.writer_pages()[k] == old(self).writer_pages()[k]);
                        }
                    }
                    assert forall|j: int, k: int|
                        0 <= j < self.pending().len() && 0 <= k < self.writer_pages().len()
                            implies !(
                    #[trigger] self.pending()[j]).1.overlaps(#[trigger] self.writer_pages()[k]) by {
                        if k == old(self).writer_pages().len() {
                            let other = self.pending()[j].1;
                            if other.overlaps(page) {
                                overlap_has_common_page(other, page);
                                let i = choose|i: int|
                                    #![trigger other.covers(other.region as int, i)]
                                    other.covers(other.region as int, i) && page.covers(
                                        other.region as int,
                                        i,
                                    );
                                block_held_by_pages(before, other);
                                assert(bit_at(before, region, i));
                            }
                        } else {
                            assert(self.writer_pages()[k] == old(self).writer_pages()[k]);
                        }
                    }
                    assert forall|r: int, i: int| #[trigger]
                        base_bit(self.base(), r, i)
                            implies !covered_by(self.writer_pages(), r, i) by {
                        assert(state_well_formed(before[r], pages));
                        assert(bit_at(before, r, i));
                    }
                    assert forall|r: int, i: int|
                        0 <= r < after.len() && 0 <= i < pages
                            implies (#[trigger] bit_at(after, r, i)
                        <==> base_bit(self.base(), r, i)
                            || covered_by(self.writer_pages(), r, i)) by {
                        covered_by_push(old(self).writer_pages(), page, r, i);
                        if r < before.len() {
                            assert(bit_at(before, r, i) <==> base_bit(self.base(), r, i)
                                || covered_by(old(self).writer_pages(), r, i));
                        } else {
                            assert(!bit_at(before, r, i));
                            if covered_by(old(self).writer_pages(), r, i) {
                                let k = choose|k: int|
                                    0 <= k < old(self).writer_pages().len() && (
                                    #[trigger] old(self).writer_pages()[k]).covers(r, i);
                                let block = old(self).writer_pages()[k];
                                assert(old(self).allocator().holds_page(block));
                            }
                        }
                    }
                    assert(self.based());
                    assert forall|n: int, at_region: int, at_page: int|
                        0 <= n < self.live_reads().len() && #[trigger] self.seen(
                            #[trigger] self.live_reads()[n],
                        ).contains((at_region, at_page)) implies self.safe_for(
                            self.live_reads()[n],
                            at_region,
                            at_page,
                        ) by {
                        assert(old(self).seen(old(self).live_reads()[n]).contains(
                            (at_region, at_page),
                        ));
                        assert(bit_at(before, at_region, at_page));
                    }
                    assert(self.snapshots_safe());
                }
                Ok(page)
            },
            Err(error) => {
                assert forall|n: int, at_region: int, at_page: int|
                    0 <= n < self.live_reads().len() && #[trigger] self.seen(
                        #[trigger] self.live_reads()[n],
                    ).contains((at_region, at_page)) implies self.safe_for(
                        self.live_reads()[n],
                        at_region,
                        at_page,
                    ) by {
                    assert(old(self).seen(old(self).live_reads()[n]).contains(
                        (at_region, at_page),
                    ));
                }
                Err(error)
            },
        }
    }

    /// Frees a block that the writer under way allocated.
    fn free_own(&mut self, index: usize)
        requires
            old(self).well_formed(),
            old(self).is_writing(),
            index < old(self).writer_pages().len(),
        ensures
            final(self).well_formed(),
            final(self).same_writer(old(self)),
            final(self).allocator().last_region() == old(self).allocator().last_region(),
            final(self).writer_pages() == old(self).writer_pages().remove(index as int),
            final(self).regions() == old(self).regions().update(
                old(self).writer_pages()[index as int].region as int,
                region_without_block(
                    old(self).regions()[old(self).writer_pages()[index as int].region as int],
                    old(self).writer_pages()[index as int].page_index as int,
                    block_pages(old(self).writer_pages()[index as int].page_order as nat),
                ),
            ),
            forall|r: int, i: int|
                #[trigger] bit_at(final(self).regions(), r, i)
                    <==> bit_at(old(self).regions(), r, i)
                    && !old(self).writer_pages()[index as int].covers(r, i),
    {
        let ghost before = self.regions();
        let ghost blocks = self.writer_pages();
        let ghost pages = self.allocator().region_pages();
        let page = self.allocated[index];
        assert(self.allocator().holds_page(self.writer_pages()[index as int]));
        self.allocator.free(page);
        self.allocated.remove(index);
        proof {
            let after = self.regions();
            let fewer = self.writer_pages();
            block_freed(
                before,
                page.region as int,
                page.page_index as int,
                block_pages(page.page_order as nat),
            );
            assert(forall|r: int, i: int| #[trigger]
                bit_at(after, r, i) <==> bit_at(before, r, i) && !page.covers(r, i));
            assert forall|r: int| 0 <= r < before.len() implies (#[trigger] after[r]).bits.len()
                == before[r].bits.len() by {
                assert(state_well_formed(after[r], pages));
                assert(state_well_formed(before[r], pages));
            }
            assert forall|k: int| 0 <= k < self.pending().len() implies block_held(
                after,
                (#[trigger] self.pending()[k]).1,
            ) by {
                let other = self.pending()[k].1;
                assert(!old(self).pending()[k].1.overlaps(old(self).writer_pages()[index as int]));
                held_after_freeing(before, after, page, other);
            }
            covered_by_remove(blocks, index as int, 0, 0);
            assert forall|k: int| 0 <= k < fewer.len() implies block_held(
                after,
                #[trigger] fewer[k],
            ) by {
                let from = if k < index {
                    k
                } else {
                    k + 1
                };
                assert(fewer[k] == blocks[from]);
                assert(old(self).allocator().holds_page(blocks[from]));
                if from < index {
                    assert(!blocks[from].overlaps(blocks[index as int]));
                } else {
                    assert(!blocks[index as int].overlaps(blocks[from]));
                }
                held_after_freeing(before, after, page, fewer[k]);
            }
            assert forall|j: int, k: int|
                0 <= j < self.pending().len() && 0 <= k < fewer.len() implies !(
            #[trigger] self.pending()[j]).1.overlaps(#[trigger] fewer[k]) by {
                let from = if k < index {
                    k
                } else {
                    k + 1
                };
                assert(fewer[k] == blocks[from]);
                assert(!old(self).pending()[j].1.overlaps(old(self).writer_pages()[from]));
            }
            assert forall|r: int, i: int|
                0 <= r < after.len() && 0 <= i < pages implies (#[trigger] bit_at(after, r, i)
                <==> base_bit(self.base(), r, i) || covered_by(fewer, r, i)) by {
                covered_by_remove(blocks, index as int, r, i);
                assert(bit_at(before, r, i) <==> base_bit(self.base(), r, i) || covered_by(
                    blocks,
                    r,
                    i,
                ));
                if page.covers(r, i) {
                    assert(blocks[index as int].covers(r, i));
                }
            }
            assert forall|r: int, i: int| #[trigger]
                base_bit(self.base(), r, i) implies !covered_by(fewer, r, i) by {
                covered_by_remove(blocks, index as int, r, i);
            }
            assert forall|n: int, at_region: int, at_page: int|
                0 <= n < self.live_reads().len() && #[trigger] self.seen(
                    #[trigger] self.live_reads()[n],
                ).contains((at_region, at_page)) implies self.safe_for(
                    self.live_reads()[n],
                    at_region,
                    at_page,
                ) by {
                assert(old(self).seen(old(self).live_reads()[n]).contains((at_region, at_page)));
                covered_by_remove(blocks, index as int, at_region, at_page);
                if page.covers(at_region, at_page) {
                    assert(blocks[index as int].covers(at_region, at_page));
                }
            }
        }
    }

    /// Frees a block for the writer under way, and says whether it did. A
    /// block that the writer allocated is free at once. A block of the
    /// committed state is kept for the readers that can see it. Anything
    /// else is refused.
    pub fn free(&mut self, page: PageNumber) -> (freed: bool)
        requires
            old(self).well_formed(),
            old(self).is_writing(),
        ensures
            final(self).well_formed(),
            final(self).same_transactions(old(self)),
            if old(self).writer_pages().contains(page) {
                &&& freed
                &&& final(self).writer_pages() == old(self).writer_pages().remove_value(page)
                &&& final(self).pending() == old(self).pending()
                &&& final(self).regions() == old(self).regions().update(
                    page.region as int,
                    region_without_block(
                        old(self).regions()[page.region as int],
                        page.page_index as int,
                        block_pages(page.page_order as nat),
                    ),
                )
            } else if old(self).can_retire(page) {
                &&& freed
                &&& final(self).writer_pages() == old(self).writer_pages()
                &&& final(self).pending() == old(self).pending().push(
                    ((old(self).committed() + 1) as u64, page),
                )
                &&& final(self).regions() == old(self).regions()
            } else {
                &&& !freed
                &&& final(self).writer_pages() == old(self).writer_pages()
                &&& final(self).pending() == old(self).pending()
                &&& final(self).regions() == old(self).regions()
            },
    {
        match find_block(&self.allocated, page) {
            Some(index) => {
                self.free_own(index);
                return true;
            },
            None => {},
        }
        if !self.allocator.holds(page) || overlaps_freed(&self.pending, page) || overlaps_any(
            &self.allocated,
            page,
        ) {
            return false;
        }
        let ghost blocks = freed_blocks(self.pending());
        self.pending.push((self.committed + 1, page));
        proof {
            let more = freed_blocks(self.pending());
            assert forall|j: int, k: int|
                #![trigger more[j], more[k]]
                0 <= j < k < more.len() implies !more[j].overlaps(more[k]) by {
                assert(more[j] == blocks[j]);
                if k < blocks.len() {
                    assert(more[k] == blocks[k]);
                } else {
                    assert(more[k] == page);
                }
            }
            assert forall|j: int, k: int|
                0 <= j < self.pending().len() && 0 <= k < self.writer_pages().len() implies !(
            #[trigger] self.pending()[j]).1.overlaps(#[trigger] self.writer_pages()[k]) by {
                if j < blocks.len() {
                    assert(self.pending()[j] == old(self).pending()[j]);
                } else {
                    assert(!self.writer_pages()[k].overlaps(page));
                }
            }
            assert forall|k: int| 0 <= k < self.pending().len() implies self.allocator().holds_page(
                (#[trigger] self.pending()[k]).1,
            ) by {
                if k < blocks.len() {
                    assert(self.pending()[k] == old(self).pending()[k]);
                }
            }
            assert forall|n: int, at_region: int, at_page: int|
                0 <= n < self.live_reads().len() && #[trigger] self.seen(
                    #[trigger] self.live_reads()[n],
                ).contains((at_region, at_page)) implies self.safe_for(
                    self.live_reads()[n],
                    at_region,
                    at_page,
                ) by {
                assert(old(self).seen(old(self).live_reads()[n]).contains((at_region, at_page)));
                assert forall|k: int|
                    0 <= k < self.pending().len() && (#[trigger] self.pending()[k]).1.covers(
                        at_region,
                        at_page,
                    ) implies self.pending()[k].0 > self.live_reads()[n] by {
                    if k < blocks.len() {
                        assert(self.pending()[k] == old(self).pending()[k]);
                    }
                }
            }
        }
        true
    }

    /// Commits the writer under way: the pages that it allocated belong to
    /// the committed state from now on, and the pages that it freed are
    /// kept for the readers that can still see them.
    pub fn commit(&mut self)
        requires
            old(self).well_formed(),
            old(self).is_writing(),
        ensures
            final(self).well_formed(),
            !final(self).is_writing(),
            final(self).committed() == old(self).committed() + 1,
            final(self).pending() == old(self).pending(),
            final(self).tentative_from() == old(self).pending().len(),
            final(self).writer_pages() == Seq::<PageNumber>::empty(),
            final(self).regions() == old(self).regions(),
            final(self).allocator().last_region() == old(self).allocator().last_region(),
            final(self).allocator().region_pages() == old(self).allocator().region_pages(),
            final(self).allocator().max_regions() == old(self).allocator().max_regions(),
            final(self).live_reads() == old(self).live_reads(),
            forall|id: u64| final(self).seen(id) == old(self).seen(id),
            final(self).base() == bitmaps_of(old(self).regions()),
    {
        let ghost pages = self.allocator().region_pages();
        self.committed = self.committed + 1;
        self.tentative_from = self.pending.len();
        self.allocated.clear();
        self.writing = false;
        proof {
            self.base@ = bitmaps_of(self.regions());
            let regions = self.regions();
            assert forall|r: int, i: int|
                0 <= r < regions.len() && 0 <= i < pages implies (#[trigger] bit_at(regions, r, i)
                <==> base_bit(self.base(), r, i) || covered_by(self.writer_pages(), r, i)) by {
                assert(state_well_formed(regions[r], pages));
            }
            assert forall|r: int|
                0 <= r < self.base().len() implies (#[trigger] self.base()[r]).len()
                == pages by {
                assert(state_well_formed(regions[r], pages));
            }
            assert forall|n: int, at_region: int, at_page: int|
                0 <= n < self.live_reads().len() && #[trigger] self.seen(
                    #[trigger] self.live_reads()[n],
                ).contains((at_region, at_page)) implies self.safe_for(
                    self.live_reads()[n],
                    at_region,
                    at_page,
                ) by {
                assert(old(self).seen(old(self).live_reads()[n]).contains((at_region, at_page)));
            }
        }
    }

    /// Gives the writer under way up: the pages that it allocated are free
    /// again, so that the bitmaps are as they were when it began, and the
    /// pages that it freed stay with the committed state.
    pub fn abort(&mut self)
        requires
            old(self).well_formed(),
            old(self).is_writing(),
        ensures
            final(self).well_formed(),
            !final(self).is_writing(),
            final(self).committed() == old(self).committed(),
            final(self).pending() == old(self).pending().take(old(self).tentative_from()),
            final(self).tentative_from() == old(self).tentative_from(),
            final(self).writer_pages() == Seq::<PageNumber>::empty(),
            final(self).allocator().last_region() == old(self).allocator().last_region(),
            final(self).allocator().region_pages() == old(self).allocator().region_pages(),
            final(self).allocator().max_regions() == old(self).allocator().max_regions(),
            final(self).live_reads() == old(self).live_reads(),
            forall|id: u64| final(self).seen(id) == old(self).seen(id),
            final(self).base() == old(self).base(),
            final(self).regions().len() == old(self).regions().len(),
            forall|r: int|
                0 <= r < final(self).regions().len()
                    ==> (#[trigger] final(self).regions()[r]).next_free
                    == old(self).regions()[r].next_free,
            forall|r: int, i: int|
                #[trigger] bit_at(final(self).regions(), r, i)
                    <==> base_bit(old(self).base(), r, i),
            total_population(final(self).regions()) == bitmaps_population(old(self).base()),
    {
        let ghost pages = self.allocator().region_pages();
        while self.allocated.len() > 0
            invariant
                self.well_formed(),
                self.is_writing(),
                self.same_writer(old(self)),
                self.allocator().last_region() == old(self).allocator().last_region(),
                self.regions().len() == old(self).regions().len(),
                forall|r: int|
                    0 <= r < self.regions().len() ==> (#[trigger] self.regions()[r]).next_free
                        == old(self).regions()[r].next_free,
            decreases self.allocated@.len(),
        {
            let ghost before = self.regions();
            let last = self.allocated.len() - 1;
            self.free_own(last);
            assert forall|r: int| 0 <= r < self.regions().len() implies (
            #[trigger] self.regions()[r]).next_free == old(self).regions()[r].next_free by {
                assert(before[r].next_free == old(self).regions()[r].next_free);
            }
        }
        let ghost emptied = *self;
        self.pending.truncate(self.tentative_from);
        self.writing = false;
        proof {
            let regions = self.regions();
            assert(self.writer_pages() =~= Seq::<PageNumber>::empty());
            assert(self.pending() =~= old(self).pending().take(old(self).tentative_from()));
            assert forall|k: int| 0 <= k < self.pending().len() implies self.allocator().holds_page(
                (#[trigger] self.pending()[k]).1,
            ) by {
                assert(emptied.allocator().holds_page(emptied.pending()[k].1));
            }
            assert forall|n: int, at_region: int, at_page: int|
                0 <= n < self.live_reads().len() && #[trigger] self.seen(
                    #[trigger] self.live_reads()[n],
                ).contains((at_region, at_page)) implies self.safe_for(
                    self.live_reads()[n],
                    at_region,
                    at_page,
                ) by {
                assert(emptied.seen(emptied.live_reads()[n]).contains((at_region, at_page)));
                assert forall|k: int|
                    0 <= k < self.pending().len() && (#[trigger] self.pending()[k]).1.covers(
                        at_region,
                        at_page,
                    ) implies self.pending()[k].0 > self.live_reads()[n] by {
                    assert(emptied.pending()[k].1.covers(at_region, at_page));
                }
            }
            assert forall|r: int, i: int| #[trigger]
                bit_at(regions, r, i) <==> base_bit(self.base(), r, i) by {
                if 0 <= r < regions.len() {
                    assert(state_well_formed(regions[r], pages));
                }
            }
            assert forall|j: int, k: int|
                #![trigger freed_blocks(self.pending())[j], freed_blocks(self.pending())[k]]
                0 <= j < k < self.pending().len() implies !freed_blocks(self.pending())[j].overlaps(
                freed_blocks(self.pending())[k],
            ) by {
                let all = freed_blocks(old(self).pending());
                assert(freed_blocks(self.pending())[j] == all[j]);
                assert(freed_blocks(self.pending())[k] == all[k]);
            }
            assert forall|r: int|
                0 <= r < self.base().len() implies (#[trigger] self.base()[r]).len()
                == regions[r].bits.len() by {
                assert(state_well_formed(regions[r], pages));
            }
            same_bits_same_population(regions, self.base());
        }
    }

    /// The number of allocated pages.
    pub fn allocated_pages(&self) -> (count: u64)
        requires
            self.well_formed(),
        ensures
            count == total_population(self.regions()),
    {
        self.allocator.count_allocated()
    }

    /// Whether the block that `page` names lies within a region and is
    /// allocated.
    pub fn holds(&self, page: PageNumber) -> (held: bool)
        ensures
            held == self.allocator().holds_page(page),
    {
        self.allocator.holds(page)
    }

    /// The number of freed pages that are kept for readers.
    pub fn pending_len(&self) -> (count: usize)
        ensures
            count == self.pending().len(),
    {
        self.pending.len()
    }

    /// The oldest state that a live reader sees.
    pub fn oldest_live_read(&self) -> (oldest: Option<u64>)
        ensures
            oldest == smallest(self.live_reads()),
    {
        smallest_of(&self.readers)
    }

    /// Ends a read transaction that saw transaction `id`.
    pub fn end_read(&mut self, id: u64)
        requires
            old(self).well_formed(),
        ensures
            final(self).well_formed(),
            final(self).unchanged_but_readers(old(self)),
            final(self).live_reads() == old(self).live_reads().remove_value(id),
            forall|other: u64| final(self).seen(other) == old(self).seen(other),
    {
        let mut i: usize = 0;
        while i < self.readers.len()
            invariant
                i <= self.readers@.len(),
                *self == *old(self),
                self.well_formed(),
                forall|j: int| 0 <= j < i ==> self.readers@[j] != id,
            decreases self.readers@.len() - i,
        {
            if self.readers[i] == id {
                proof {
                    self.readers@.index_of_first_ensures(id);
                }
                self.readers.remove(i);
                assert forall|n: int, region: int, page: int|
                    0 <= n < self.live_reads().len() && #[trigger] self.seen(
                        #[trigger] self.live_reads()[n],
                    ).contains((region, page)) implies self.safe_for(
                        self.live_reads()[n],
                        region,
                        page,
                    ) by {
                    let m = if n < i {
                        n
                    } else {
                        n + 1
                    };
                    assert(self.live_reads()[n] == old(self).live_reads()[m]);
                    assert(old(self).seen(old(self).live_reads()[m]).contains((region, page)));
                }
                return ;
            }
            i += 1;
        }
        proof {
            self.readers@.index_of_first_ensures(id);
        }
    }
}

/// Page reuse safety: a page that a live reader sees is allocated, and is
/// none of the pages that the writer under way allocated, which are the
/// only pages that are written.
pub proof fn live_snapshot_is_safe(tracker: PageTracker, reader: int, region: int, page: int)
    requires
        tracker.well_formed(),
        0 <= reader < tracker.live_reads().len(),
        tracker.seen(tracker.live_reads()[reader]).contains((region, page)),
    ensures
        bit_at(tracker.regions(), region, page),
        forall|k: int|
            0 <= k < tracker.writer_pages().len()
                ==> !(#[trigger] tracker.writer_pages()[k]).covers(
                region,
                page,
            ),
{
}

/// A page that a live reader sees is not released: if it was freed, then by
/// a transaction behind the one that the reader sees.
pub proof fn seen_pages_are_kept(tracker: PageTracker, reader: int, region: int, page: int)
    requires
        tracker.well_formed(),
        0 <= reader < tracker.live_reads().len(),
        tracker.seen(tracker.live_reads()[reader]).contains((region, page)),
    ensures
        forall|k: int|
            0 <= k < tracker.pending().len() && (#[trigger] tracker.pending()[k]).1.covers(
                region,
                page,
            ) ==> tracker.pending()[k].0 > tracker.live_reads()[reader] >= release_bound(
                tracker.live_reads(),
            ),
{
    smallest_is_least(tracker.live_reads());
}

} // verus!
