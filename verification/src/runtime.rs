//! The arithmetic of the bump allocator that compiled programs link
//! against: where the next region starts and ends, and how much memory it
//! needs.  The allocator itself, with its cursor and its memory, stands
//! outside this library and asks these functions.

use vstd::prelude::*;

verus! {

/// Regions start at multiples of this number of bytes.
pub const ALIGN: usize = 8;

/// The size of a page of linear memory.
pub const PAGE_SIZE: usize = 65536;

/// The least multiple of [`ALIGN`] that is at least `value`.
pub open spec fn aligned(value: int) -> int {
    if value % 8 == 0 {
        value
    } else {
        value + (8 - value % 8)
    }
}

/// Rounds `value` up to the next multiple of [`ALIGN`].
pub fn align_up(value: usize) -> (rounded: usize)
    requires
        value + (ALIGN - 1) <= usize::MAX,
    ensures
        rounded == aligned(value as int),
        rounded % ALIGN == 0,
        value <= rounded < value + ALIGN,
{
    let rest = value % ALIGN;
    if rest == 0 {
        value
    } else {
        value + (ALIGN - rest)
    }
}

/// The region that a request of `size` bytes gets when the cursor stands at
/// `next`; a cursor of zero stands for one that was never set, and the heap
/// then starts at `heap_base`.
pub open spec fn region(next: usize, heap_base: usize, size: usize) -> (int, int) {
    let current = if next == 0 {
        heap_base
    } else {
        next
    };
    let start = aligned(current as int);
    let wanted = aligned(
        if size == 0 {
            1
        } else {
            size as int
        },
    );
    (start, start + wanted)
}

/// Where the region for a request of `size` bytes starts and ends: the
/// start is the cursor rounded up, the size is rounded up and at least one
/// byte.  `None` where the end is no address.
pub fn reserve(next: usize, heap_base: usize, size: usize) -> (found: Option<(usize, usize)>)
    ensures
        region(next, heap_base, size).1 <= usize::MAX ==> found == Some(
            (region(next, heap_base, size).0 as usize, region(next, heap_base, size).1 as usize),
        ),
        region(next, heap_base, size).1 > usize::MAX ==> found is None,
{
    let wanted = if size == 0 {
        1
    } else {
        size
    };
    if wanted > usize::MAX - (ALIGN - 1) {
        return None;
    }
    let wanted = align_up(wanted);
    let current = if next == 0 {
        heap_base
    } else {
        next
    };
    if current > usize::MAX - (ALIGN - 1) {
        return None;
    }
    let start = align_up(current);
    if wanted > usize::MAX - start {
        return None;
    }
    Some((start, start + wanted))
}

/// The number of pages that hold the addresses below `end`.
pub fn pages_needed(end: usize) -> (pages: usize)
    ensures
        pages * PAGE_SIZE >= end,
        pages == 0 || (pages - 1) * PAGE_SIZE < end,
{
    let whole = end / PAGE_SIZE;
    if end % PAGE_SIZE == 0 {
        whole
    } else {
        whole + 1
    }
}

/// Whether a heap of `heap_size` bytes from `heap_base` on holds the
/// addresses below `end`.
pub fn ensure_memory(end: usize, heap_base: usize, heap_size: usize) -> (enough: bool)
    ensures
        enough == (end <= heap_base + heap_size),
{
    end <= heap_base || end - heap_base <= heap_size
}

/// The number of bytes that a reallocation copies: no more than the old
/// region holds and no more than the new one takes.
pub fn copy_len(old_size: usize, new_size: usize) -> (len: usize)
    ensures
        len <= old_size,
        len <= new_size,
        len == old_size || len == new_size,
{
    if old_size < new_size {
        old_size
    } else {
        new_size
    }
}

} // verus!
