//! The page allocator: the regions of a file, of which new ones are added
//! as long as the file may grow. A block is taken from the region that the
//! last block came from, if it has room, and else from the next region in
//! turn that has.

use crate::error::Error;
use crate::page_number::PageNumber;
use crate::region::{
    block_pages, block_pages_monotonic, next_block_of, population, run_free, run_held, with_run,
    Region,
};
use vstd::prelude::*;

verus! {

/// What a region holds: its bitmap, and the page behind the last page that
/// was ever handed out.
pub struct RegionState {
    pub bits: Seq<bool>,
    pub next_free: int,
}

/// What a region holds.
pub open spec fn region_state(region: Region) -> RegionState {
    RegionState { bits: region.bits(), next_free: region.next_free() }
}

/// Whether a region of `pages` pages can hold this: no page from `next_free`
/// on is allocated.
pub open spec fn state_well_formed(state: RegionState, pages: int) -> bool {
    &&& state.bits.len() == pages
    &&& 0 <= state.next_free <= pages
    &&& forall|i: int| state.next_free <= i < pages ==> !#[trigger] state.bits[i]
}

/// A region of `pages` pages of which none was ever handed out.
pub open spec fn fresh_region(pages: int) -> RegionState {
    RegionState { bits: Seq::new(pages as nat, |i: int| false), next_free: 0 }
}

/// The region after the block of `count` pages from `start` on was taken.
pub open spec fn region_with_block(state: RegionState, start: int, count: int) -> RegionState {
    RegionState {
        bits: with_run(state.bits, start, count, true),
        next_free: if state.next_free < start + count {
            start + count
        } else {
            state.next_free
        },
    }
}

/// The region after the block of `count` pages from `start` on was freed.
pub open spec fn region_without_block(state: RegionState, start: int, count: int) -> RegionState {
    RegionState { bits: with_run(state.bits, start, count, false), next_free: state.next_free }
}

/// Whether page `page` of region `region` is allocated.
pub open spec fn bit_at(regions: Seq<RegionState>, region: int, page: int) -> bool {
    &&& 0 <= region < regions.len()
    &&& 0 <= page < regions[region].bits.len()
    &&& regions[region].bits[page]
}

/// Taking a block allocates the pages of the block and no others.
pub proof fn block_taken(regions: Seq<RegionState>, region: int, start: int, count: int)
    requires
        0 <= region < regions.len(),
        run_free(regions[region].bits, start, count),
    ensures
        forall|r: int, i: int|
            #[trigger] bit_at(
                regions.update(region, region_with_block(regions[region], start, count)),
                r,
                i,
            ) <==> bit_at(regions, r, i) || (r == region && start <= i < start + count),
        forall|i: int| start <= i < start + count ==> !#[trigger] bit_at(regions, region, i),
{
    let after = regions.update(region, region_with_block(regions[region], start, count));
    assert forall|r: int, i: int| #[trigger]
        bit_at(after, r, i) <==> bit_at(regions, r, i) || (r == region && start <= i < start
            + count) by {
        if 0 <= r < regions.len() && r != region {
            assert(after[r] == regions[r]);
        }
    }
}

/// Freeing a block frees the pages of the block and no others.
pub proof fn block_freed(regions: Seq<RegionState>, region: int, start: int, count: int)
    requires
        0 <= region < regions.len(),
        run_held(regions[region].bits, start, count),
    ensures
        forall|r: int, i: int|
            #[trigger] bit_at(
                regions.update(region, region_without_block(regions[region], start, count)),
                r,
                i,
            ) <==> bit_at(regions, r, i) && !(r == region && start <= i < start + count),
{
    let after = regions.update(region, region_without_block(regions[region], start, count));
    assert forall|r: int, i: int| #[trigger]
        bit_at(after, r, i) <==> bit_at(regions, r, i) && !(r == region && start <= i < start
            + count) by {
        if 0 <= r < regions.len() && r != region {
            assert(after[r] == regions[r]);
        }
    }
}

/// The first region from `from` up to `to` that has room for a block of
/// `count` pages.
pub open spec fn first_with_room(
    regions: Seq<RegionState>,
    count: int,
    from: int,
    to: int,
) -> Option<int>
    decreases to - from,
{
    if from >= to || from < 0 || to > regions.len() {
        None
    } else if next_block_of(regions[from].bits, regions[from].next_free, count) is Some {
        Some(from)
    } else {
        first_with_room(regions, count, from + 1, to)
    }
}

/// `first_with_room` finds a region between `from` and `to` that has room,
/// and none only where none of them has.
pub proof fn first_with_room_found(regions: Seq<RegionState>, count: int, from: int, to: int)
    requires
        0 <= from <= to <= regions.len(),
    ensures
        match first_with_room(regions, count, from, to) {
            Some(region) => {
                &&& from <= region < to
                &&& next_block_of(regions[region].bits, regions[region].next_free, count) is Some
                &&& forall|i: int|
                    from <= i < region ==> next_block_of(
                        (#[trigger] regions[i]).bits,
                        regions[i].next_free,
                        count,
                    ) is None
            },
            None => forall|i: int|
                from <= i < to ==> next_block_of(
                    (#[trigger] regions[i]).bits,
                    regions[i].next_free,
                    count,
                ) is None,
        },
    decreases to - from,
{
    if from < to {
        first_with_room_found(regions, count, from + 1, to);
    }
}

/// The region that a block of `count` pages is taken from: the first with
/// room, from the region `last` on and then from the first region on.
pub open spec fn target_region(regions: Seq<RegionState>, count: int, last: int) -> Option<int> {
    match first_with_room(regions, count, last, regions.len() as int) {
        Some(region) => Some(region),
        None => first_with_room(regions, count, 0, last),
    }
}

/// Whether the block that `page` names lies within a region of `regions` and
/// is allocated.
pub open spec fn block_held(regions: Seq<RegionState>, page: PageNumber) -> bool {
    &&& page.region < regions.len()
    &&& run_held(
        regions[page.region as int].bits,
        page.page_index as int,
        block_pages(page.page_order as nat),
    )
}

/// A block is held exactly when it lies within a region and each of its
/// pages is allocated.
pub proof fn block_held_by_pages(regions: Seq<RegionState>, page: PageNumber)
    ensures
        block_held(regions, page) <==> {
            &&& page.region < regions.len()
            &&& page.end() <= regions[page.region as int].bits.len()
            &&& forall|i: int|
                page.page_index <= i < page.end() ==> #[trigger] bit_at(
                    regions,
                    page.region as int,
                    i,
                )
        },
{
    if page.region < regions.len() && page.end() <= regions[page.region as int].bits.len() {
        let bits = regions[page.region as int].bits;
        if forall|i: int|
            page.page_index <= i < page.end()
                ==> #[trigger] bit_at(regions, page.region as int, i) {
            assert forall|i: int| page.page_index <= i < page.end() implies #[trigger] bits[i] by {
                assert(bit_at(regions, page.region as int, i));
            }
        }
    }
}

/// The number of allocated pages in all regions together.
pub open spec fn total_population(regions: Seq<RegionState>) -> int
    decreases regions.len(),
{
    if regions.len() == 0 {
        0
    } else {
        total_population(regions.drop_last()) + population(regions.last().bits)
    }
}

/// The page allocator of a file.
pub struct PageAllocator {
    regions: Vec<Region>,
    region_pages: u32,
    max_regions: u32,
    last_region: usize,
}

impl PageAllocator {
    /// The regions of the file.
    pub closed spec fn regions(&self) -> Seq<RegionState> {
        Seq::new(self.regions@.len(), |i: int| region_state(self.regions@[i]))
    }

    /// The number of pages of a region.
    pub closed spec fn region_pages(&self) -> int {
        self.region_pages as int
    }

    /// The number of regions that the file may grow to.
    pub closed spec fn max_regions(&self) -> int {
        self.max_regions as int
    }

    /// The region that the last block was taken from.
    pub closed spec fn last_region(&self) -> int {
        self.last_region as int
    }

    /// Whether the allocator is as every allocator is.
    pub open spec fn well_formed(&self) -> bool {
        &&& self.regions().len() <= self.max_regions() <= u32::MAX
        &&& 0 <= self.region_pages() <= u32::MAX
        &&& 0 <= self.last_region() <= self.regions().len()
        &&& forall|i: int|
            0 <= i < self.regions().len() ==> state_well_formed(
                #[trigger] self.regions()[i],
                self.region_pages(),
            )
    }

    /// Whether the block that `page` names lies within a region and is
    /// allocated.
    pub open spec fn holds_page(&self, page: PageNumber) -> bool {
        block_held(self.regions(), page)
    }

    /// Where the next block of the given order is taken from, region and
    /// page: from the region in turn that has room, and else from a new
    /// region, if the file may grow and a region can hold the block.
    pub open spec fn placement(&self, order: nat) -> Option<(int, int)> {
        let count = block_pages(order);
        match target_region(self.regions(), count, self.last_region()) {
            Some(region) => Some(
                (
                    region,
                    next_block_of(
                        self.regions()[region].bits,
                        self.regions()[region].next_free,
                        count,
                    )->Some_0,
                ),
            ),
            None => if self.regions().len() < self.max_regions() && count <= self.region_pages() {
                Some((self.regions().len() as int, 0int))
            } else {
                None
            },
        }
    }

    /// The regions with a new one behind them.
    pub open spec fn grown(&self) -> Seq<RegionState> {
        self.regions().push(fresh_region(self.region_pages()))
    }

    /// An allocator for a file without regions yet, which may grow to
    /// `max_regions` regions of `region_pages` pages each.
    pub fn new(region_pages: u32, max_regions: u32) -> (allocator: Self)
        ensures
            allocator.well_formed(),
            allocator.regions() == Seq::<RegionState>::empty(),
            allocator.region_pages() == region_pages,
            allocator.max_regions() == max_regions,
            allocator.last_region() == 0,
    {
        let allocator = PageAllocator {
            regions: Vec::new(),
            region_pages,
            max_regions,
            last_region: 0,
        };
        assert(allocator.regions() =~= Seq::<RegionState>::empty());
        allocator
    }

    /// Tries the regions from `from` up to `to` in turn, and takes the block
    /// from the first that has room.
    fn allocate_between(&mut self, order: u8, from: usize, to: usize) -> (block: Option<
        (usize, usize),
    >)
        requires
            old(self).well_formed(),
            from <= to <= old(self).regions().len(),
        ensures
            final(self).well_formed(),
            final(self).region_pages() == old(self).region_pages(),
            final(self).max_regions() == old(self).max_regions(),
            final(self).last_region() == old(self).last_region(),
            match first_with_room(
                old(self).regions(),
                block_pages(order as nat),
                from as int,
                to as int,
            ) {
                Some(region) => {
                    let state = old(self).regions()[region];
                    let start = next_block_of(
                        state.bits,
                        state.next_free,
                        block_pages(order as nat),
                    )->Some_0;
                    &&& block == Some((region as usize, start as usize))
                    &&& run_free(state.bits, start, block_pages(order as nat))
                    &&& final(self).regions() == old(self).regions().update(
                        region,
                        region_with_block(state, start, block_pages(order as nat)),
                    )
                },
                None => block is None && final(self).regions() == old(self).regions(),
            },
    {
        let ghost before = self.regions();
        let ghost count = block_pages(order as nat);
        let mut i: usize = from;
        while i < to
            invariant
                from <= i <= to <= self.regions@.len(),
                self.well_formed(),
                self.regions() == before,
                before == old(self).regions(),
                self.region_pages == old(self).region_pages,
                self.max_regions == old(self).max_regions,
                self.last_region == old(self).last_region,
                count == block_pages(order as nat),
                first_with_room(before, count, from as int, to as int) == first_with_room(
                    before,
                    count,
                    i as int,
                    to as int,
                ),
            decreases to - i,
        {
            assert(before[i as int] == region_state(self.regions@[i as int]));
            match self.regions[i].allocate(order) {
                Some(start) => {
                    assert(self.regions() =~= before.update(
                        i as int,
                        region_with_block(before[i as int], start as int, count),
                    ));
                    return Some((i, start));
                },
                None => {
                    assert(self.regions() =~= before);
                },
            }
            i += 1;
        }
        None
    }

    /// Allocates a block of the given order.
    pub fn allocate(&mut self, order: u8) -> (result: Result<PageNumber, Error>)
        requires
            old(self).well_formed(),
        ensures
            final(self).well_formed(),
            final(self).region_pages() == old(self).region_pages(),
            final(self).max_regions() == old(self).max_regions(),
            match old(self).placement(order as nat) {
                Some((region, start)) => {
                    let regions = if region < old(self).regions().len() {
                        old(self).regions()
                    } else {
                        old(self).grown()
                    };
                    &&& result == Ok::<PageNumber, Error>(
                        PageNumber {
                            region: region as u32,
                            page_index: start as u32,
                            page_order: order,
                        },
                    )
                    &&& run_free(regions[region].bits, start, block_pages(order as nat))
                    &&& final(self).regions() == regions.update(
                        region,
                        region_with_block(regions[region], start, block_pages(order as nat)),
                    )
                    &&& final(self).last_region() == region
                },
                None => {
                    &&& result == Err::<PageNumber, Error>(Error::OutOfSpace)
                    &&& final(self).regions() == old(self).regions()
                    &&& final(self).last_region() == old(self).last_region()
                },
            },
    {
        let ghost count = block_pages(order as nat);
        let known = self.regions.len();
        let last = self.last_region;
        proof {
            first_with_room_found(self.regions(), count, last as int, known as int);
            first_with_room_found(self.regions(), count, 0, last as int);
        }
        let found = match self.allocate_between(order, last, known) {
            Some(block) => Some(block),
            None => self.allocate_between(order, 0, last),
        };
        match found {
            Some((region, start)) => {
                self.last_region = region;
                return Ok(
                    PageNumber {
                        region: region as u32,
                        page_index: start as u32,
                        page_order: order,
                    },
                );
            },
            None => {},
        }
        if known < self.max_regions as usize {
            let mut region = Region::new(self.region_pages as usize);
            proof {
                block_pages_monotonic(0, order as nat);
            }
            match region.allocate(order) {
                Some(start) => {
                    let ghost before = self.regions();
                    self.regions.push(region);
                    self.last_region = known;
                    assert(self.regions() =~= old(self).grown().update(
                        known as int,
                        region_with_block(fresh_region(self.region_pages as int), 0, count),
                    ));
                    return Ok(
                        PageNumber {
                            region: known as u32,
                            page_index: start as u32,
                            page_order: order,
                        },
                    );
                },
                None => {},
            }
        }
        Err(Error::OutOfSpace)
    }

    /// Frees the block that `page` names.
    pub fn free(&mut self, page: PageNumber)
        requires
            old(self).well_formed(),
            old(self).holds_page(page),
        ensures
            final(self).well_formed(),
            final(self).region_pages() == old(self).region_pages(),
            final(self).max_regions() == old(self).max_regions(),
            final(self).last_region() == old(self).last_region(),
            final(self).regions() == old(self).regions().update(
                page.region as int,
                region_without_block(
                    old(self).regions()[page.region as int],
                    page.page_index as int,
                    block_pages(page.page_order as nat),
                ),
            ),
    {
        let ghost before = self.regions();
        let region = page.region as usize;
        assert(before[region as int] == region_state(self.regions@[region as int]));
        self.regions[region].free(page.page_index as usize, page.page_order);
        assert(self.regions() =~= before.update(
            region as int,
            region_without_block(
                before[region as int],
                page.page_index as int,
                block_pages(page.page_order as nat),
            ),
        ));
    }

    /// The number of allocated pages.
    pub fn count_allocated(&self) -> (count: u64)
        requires
            self.well_formed(),
        ensures
            count == total_population(self.regions()),
    {
        let ghost regions = self.regions();
        let mut count: u64 = 0;
        let mut i: usize = 0;
        while i < self.regions.len()
            invariant
                i <= self.regions@.len(),
                regions == self.regions(),
                self.well_formed(),
                count == total_population(regions.take(i as int)),
                count <= i * 0xffff_ffff,
            decreases self.regions@.len() - i,
        {
            assert(regions[i as int] == region_state(self.regions@[i as int]));
            assert(state_well_formed(regions[i as int], self.region_pages()));
            proof {
                let next = regions.take(i + 1);
                assert(next.drop_last() =~= regions.take(i as int));
                assert(next.last() == regions[i as int]);
            }
            let held = self.regions[i].count_allocated();
            assert(i * 0xffff_ffff + 0xffff_ffff <= 0xffff_ffff * 0xffff_ffff) by (nonlinear_arith)
                requires
                    i < 0xffff_ffff,
            ;
            count = count + held as u64;
            i += 1;
        }
        assert(regions.take(i as int) =~= regions);
        count
    }

    /// Whether the block that `page` names lies within a region and is
    /// allocated.
    pub fn holds(&self, page: PageNumber) -> (held: bool)
        ensures
            held == self.holds_page(page),
    {
        let region = page.region as usize;
        if region < self.regions.len() {
            assert(self.regions()[region as int] == region_state(self.regions@[region as int]));
            self.regions[region].holds(page.page_index as usize, page.page_order)
        } else {
            false
        }
    }
}

} // verus!
