//! A region: a run of pages with a bitmap that says which of them are
//! allocated. Pages are handed out in blocks of two to the power of an
//! order, first from behind the last page that was ever handed out, and,
//! when no block fits there, from the pages that were freed.

use vstd::prelude::*;

verus! {

/// The number of pages in a block of the given order.
pub open spec fn block_pages(order: nat) -> int
    decreases order,
{
    if order == 0 {
        1
    } else {
        2 * block_pages((order - 1) as nat)
    }
}

/// A block of a higher order has no fewer pages.
pub proof fn block_pages_monotonic(low: nat, high: nat)
    requires
        low <= high,
    ensures
        1 <= block_pages(low) <= block_pages(high),
    decreases high,
{
    if low < high {
        block_pages_monotonic(low, (high - 1) as nat);
    } else if low > 0 {
        block_pages_monotonic((low - 1) as nat, (high - 1) as nat);
    }
}

/// The number of pages in a block of the given order, unless that is more
/// than `limit`.
pub fn block_size(order: u8, limit: usize) -> (size: Option<usize>)
    ensures
        match size {
            Some(pages) => pages == block_pages(order as nat) && pages <= limit,
            None => block_pages(order as nat) > limit,
        },
{
    if limit == 0 {
        proof {
            block_pages_monotonic(0, order as nat);
        }
        return None;
    }
    let mut pages: usize = 1;
    let mut done: u8 = 0;
    while done < order
        invariant
            done <= order,
            pages == block_pages(done as nat),
            1 <= pages <= limit,
        decreases order - done,
    {
        if pages > limit / 2 {
            proof {
                block_pages_monotonic((done + 1) as nat, order as nat);
            }
            return None;
        }
        pages = pages * 2;
        done = done + 1;
    }
    Some(pages)
}

/// Whether the `count` pages from `start` on lie within the bitmap and are
/// all free.
pub open spec fn run_free(bits: Seq<bool>, start: int, count: int) -> bool {
    &&& 0 <= start
    &&& start + count <= bits.len()
    &&& forall|i: int| start <= i < start + count ==> !#[trigger] bits[i]
}

/// Whether the `count` pages from `start` on lie within the bitmap and are
/// all allocated.
pub open spec fn run_held(bits: Seq<bool>, start: int, count: int) -> bool {
    &&& 0 <= start
    &&& start + count <= bits.len()
    &&& forall|i: int| start <= i < start + count ==> #[trigger] bits[i]
}

/// The bitmap with the `count` pages from `start` on marked as `held` says.
pub open spec fn with_run(bits: Seq<bool>, start: int, count: int, held: bool) -> Seq<bool> {
    Seq::new(
        bits.len(),
        |i: int|
            if start <= i < start + count {
                held
            } else {
                bits[i]
            },
    )
}

/// The first page at or behind `from` at which a run of `count` free pages
/// starts, if there is one.
pub open spec fn free_run_from(bits: Seq<bool>, count: int, from: int) -> Option<int>
    decreases bits.len() - from,
{
    if from < 0 || from + count > bits.len() || count < 0 {
        None
    } else if run_free(bits, from, count) {
        Some(from)
    } else {
        free_run_from(bits, count, from + 1)
    }
}

/// The number of allocated pages.
pub open spec fn population(bits: Seq<bool>) -> int
    decreases bits.len(),
{
    if bits.len() == 0 {
        0
    } else {
        population(bits.drop_last()) + if bits.last() {
            1int
        } else {
            0int
        }
    }
}

/// Marking a run of free pages as allocated adds them to the population,
/// and freeing them again gives the bitmap back as it was.
pub proof fn allocate_then_free(bits: Seq<bool>, start: int, count: int)
    requires
        run_free(bits, start, count),
        count >= 0,
    ensures
        population(with_run(bits, start, count, true)) == population(bits) + count,
        with_run(with_run(bits, start, count, true), start, count, false) == bits,
    decreases bits.len(),
{
    let marked = with_run(bits, start, count, true);
    assert(with_run(marked, start, count, false) =~= bits);
    if count == 0 {
        assert(marked =~= bits);
    } else if bits.len() > 0 {
        let last = bits.len() - 1;
        if start + count == bits.len() {
            assert(marked.drop_last() =~= with_run(bits.drop_last(), start, count - 1, true));
            assert forall|i: int|
                start <= i < start + count - 1 implies !#[trigger] bits.drop_last()[i]
            by {
                assert(bits.drop_last()[i] == bits[i]);
            }
            allocate_then_free(bits.drop_last(), start, count - 1);
            assert(!bits[last]);
        } else {
            assert(marked.drop_last() =~= with_run(bits.drop_last(), start, count, true));
            assert forall|i: int| start <= i < start + count implies !#[trigger] bits.drop_last()[i]
            by {
                assert(bits.drop_last()[i] == bits[i]);
            }
            allocate_then_free(bits.drop_last(), start, count);
        }
    }
}

/// Where the next block of `count` pages is taken from in a region with the
/// given bitmap, in which the pages from `next_free` on were never handed
/// out: from `next_free`, if the block fits there, and else from the first
/// run of free pages that is long enough.
pub open spec fn next_block_of(bits: Seq<bool>, next_free: int, count: int) -> Option<int> {
    if next_free + count <= bits.len() {
        Some(next_free)
    } else {
        free_run_from(bits, count, 0)
    }
}

/// A region of pages.
pub struct Region {
    allocated: Vec<bool>,
    next_free: usize,
}

impl Region {
    /// The bitmap of the region: for each page whether it is allocated.
    pub closed spec fn bits(&self) -> Seq<bool> {
        self.allocated@
    }

    /// The page behind the last page that was ever handed out.
    pub closed spec fn next_free(&self) -> int {
        self.next_free as int
    }

    /// Whether the region is as every region is: no page from `next_free`
    /// on is allocated.
    pub open spec fn well_formed(&self) -> bool {
        &&& 0 <= self.next_free() <= self.bits().len()
        &&& forall|i: int| self.next_free() <= i < self.bits().len() ==> !#[trigger] self.bits()[i]
    }

    /// Where the next block of `count` pages is taken from.
    pub open spec fn next_block(&self, count: int) -> Option<int> {
        next_block_of(self.bits(), self.next_free(), count)
    }

    /// A region of `pages` pages, all free.
    pub fn new(pages: usize) -> (region: Self)
        ensures
            region.well_formed(),
            region.next_free() == 0,
            region.bits() == Seq::new(pages as nat, |i: int| false),
    {
        let allocated: Vec<bool> = vec![false; pages];
        assert(allocated@ =~= Seq::new(pages as nat, |i: int| false));
        Region { allocated, next_free: 0 }
    }

    /// The number of pages of the region.
    pub fn len(&self) -> (pages: usize)
        ensures
            pages == self.bits().len(),
    {
        self.allocated.len()
    }

    /// Whether the `count` pages from `start` on lie within the region and
    /// are all allocated, if `held`, or all free, if not.
    fn run_is(&self, start: usize, count: usize, held: bool) -> (all: bool)
        ensures
            all == if held {
                run_held(self.bits(), start as int, count as int)
            } else {
                run_free(self.bits(), start as int, count as int)
            },
    {
        let pages = self.allocated.len();
        if start > pages || count > pages - start {
            return false;
        }
        let mut i: usize = start;
        while i < start + count
            invariant
                start <= i <= start + count <= pages,
                pages == self.allocated@.len(),
                forall|j: int| start <= j < i ==> self.allocated@[j] == held,
            decreases start + count - i,
        {
            if self.allocated[i] != held {
                return false;
            }
            i += 1;
        }
        true
    }

    /// Whether the block of the given order that starts at page `start`
    /// lies within the region and is allocated.
    pub fn holds(&self, start: usize, order: u8) -> (held: bool)
        ensures
            held == run_held(self.bits(), start as int, block_pages(order as nat)),
    {
        match block_size(order, self.allocated.len()) {
            Some(count) => self.run_is(start, count, true),
            None => false,
        }
    }

    /// Finds the first run of `count` free pages.
    fn find_free_run(&self, count: usize) -> (found: Option<usize>)
        ensures
            match found {
                Some(start) => {
                    &&& free_run_from(self.bits(), count as int, 0) == Some(start as int)
                    &&& run_free(self.bits(), start as int, count as int)
                },
                None => free_run_from(self.bits(), count as int, 0) is None,
            },
    {
        let pages = self.allocated.len();
        if count > pages {
            return None;
        }
        let mut start: usize = 0;
        while start <= pages - count
            invariant
                count <= pages,
                pages == self.allocated@.len(),
                start <= pages - count + 1,
                free_run_from(self.bits(), count as int, 0) == free_run_from(
                    self.bits(),
                    count as int,
                    start as int,
                ),
            decreases pages - count + 1 - start,
        {
            if self.run_is(start, count, false) {
                return Some(start);
            }
            start += 1;
        }
        None
    }

    /// Allocates a block of the given order, and returns the page at which
    /// it starts; `None` where the region has no room for it.
    pub fn allocate(&mut self, order: u8) -> (block: Option<usize>)
        requires
            old(self).well_formed(),
        ensures
            final(self).well_formed(),
            match old(self).next_block(block_pages(order as nat)) {
                Some(start) => {
                    &&& block == Some(start as usize)
                    &&& run_free(old(self).bits(), start, block_pages(order as nat))
                    &&& final(self).bits() == with_run(
                        old(self).bits(),
                        start,
                        block_pages(order as nat),
                        true,
                    )
                    &&& final(self).next_free() == if old(self).next_free() < start + block_pages(
                        order as nat,
                    ) {
                        start + block_pages(order as nat)
                    } else {
                        old(self).next_free()
                    }
                },
                None => block is None && final(self).bits() == old(self).bits()
                    && final(self).next_free() == old(self).next_free(),
            },
    {
        let pages = self.allocated.len();
        let count = match block_size(order, pages) {
            Some(count) => count,
            None => {
                return None;
            },
        };
        let start = if count <= pages - self.next_free {
            self.next_free
        } else {
            match self.find_free_run(count) {
                Some(start) => start,
                None => {
                    return None;
                },
            }
        };
        let end: usize = start + count;
        self.mark(start, count, true);
        if self.next_free < end {
            self.next_free = end;
        }
        Some(start)
    }

    /// Frees the block of the given order that starts at page `start`.
    pub fn free(&mut self, start: usize, order: u8)
        requires
            old(self).well_formed(),
            run_held(old(self).bits(), start as int, block_pages(order as nat)),
        ensures
            final(self).well_formed(),
            final(self).next_free() == old(self).next_free(),
            final(self).bits() == with_run(
                old(self).bits(),
                start as int,
                block_pages(order as nat),
                false,
            ),
    {
        proof {
            block_pages_monotonic(0, order as nat);
        }
        match block_size(order, self.allocated.len()) {
            Some(count) => {
                self.mark(start, count, false);
            },
            None => {},
        }
    }

    /// Marks the `count` pages from `start` on as `held` says.
    fn mark(&mut self, start: usize, count: usize, held: bool)
        requires
            start + count <= old(self).bits().len(),
        ensures
            final(self).next_free() == old(self).next_free(),
            final(self).bits() == with_run(old(self).bits(), start as int, count as int, held),
    {
        let pages = self.allocated.len();
        let end: usize = start + count;
        let mut i: usize = start;
        assert(self.allocated@ =~= with_run(old(self).allocated@, start as int, 0, held));
        while i < end
            invariant
                start <= i <= end <= self.allocated@.len(),
                self.next_free == old(self).next_free,
                self.allocated@ == with_run(old(self).allocated@, start as int, i - start, held),
            decreases end - i,
        {
            self.allocated[i] = held;
            assert(self.allocated@ =~= with_run(
                old(self).allocated@,
                start as int,
                i + 1 - start,
                held,
            ));
            i += 1;
        }
    }

    /// The number of allocated pages of the region.
    pub fn count_allocated(&self) -> (count: usize)
        ensures
            count == population(self.bits()),
            count <= self.bits().len(),
    {
        let mut count: usize = 0;
        let mut i: usize = 0;
        while i < self.allocated.len()
            invariant
                i <= self.allocated@.len(),
                count == population(self.allocated@.take(i as int)),
                count <= i,
            decreases self.allocated@.len() - i,
        {
            proof {
                let next = self.allocated@.take(i + 1);
                assert(next.drop_last() =~= self.allocated@.take(i as int));
                assert(next.last() == self.allocated@[i as int]);
            }
            if self.allocated[i] {
                count += 1;
            }
            i += 1;
        }
        assert(self.allocated@.take(i as int) =~= self.allocated@);
        count
    }
}

} // verus!
