//! Small helpers of the page store.

use vstd::prelude::*;

verus! {

/// The page size that is used where the system reports none that the store
/// supports.
pub const FALLBACK_PAGE_SIZE: usize = 4096;

/// Whether a database can be laid out in pages of `size` bytes: the sizes
/// are 4 KiB, 8 KiB, 16 KiB, 32 KiB and 64 KiB.
pub open spec fn supported_page_size(size: int) -> bool {
    size == 4096 || size == 8192 || size == 16384 || size == 32768 || size == 65536
}

/// The default page size of a new database: the page size that the system
/// reported, where the store supports it, and 4 KiB otherwise.
pub fn get_page_size(reported: i64) -> (size: usize)
    ensures
        supported_page_size(size as int),
        size == if supported_page_size(reported as int) {
            reported as int
        } else {
            4096
        },
{
    if reported == 4096 {
        4096
    } else if reported == 8192 {
        8192
    } else if reported == 16384 {
        16384
    } else if reported == 32768 {
        32768
    } else if reported == 65536 {
        65536
    } else {
        FALLBACK_PAGE_SIZE
    }
}

/// Drops a value at once, so that it cannot be used later.
pub fn drop_ref<T>(_value: T) {
}

} // verus!
