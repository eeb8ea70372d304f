//! The executable region allocator.

use vstd::prelude::*;

use crate::model::{align_down_word, align_up_word, is_power_of_two, RegionModel, WORD_BYTES};

verus! {

/// An allocation request the region cannot serve.
#[derive(Clone, Copy, Debug, PartialEq, Eq)]
pub enum AllocError {
    /// Too few available bytes are left for the request.
    OutOfMemory,
    /// A malformed page-alignment request.
    InvalidParam,
    /// A range handed to `extend` is not contiguous with the high boundary.
    RegionOverlap,
}

/// An early-boot allocator over one contiguous physical memory region.
///
/// Byte allocations grow upward from the low end, page allocations grow
/// downward from the high end, and the unallocated gap in the middle keeps
/// the two apart. `PAGE_SIZE` is the fixed page granularity of the instance.
pub struct EarlyAllocator<const PAGE_SIZE: usize> {
    low_bound: usize,
    high_bound: usize,
    bytes_used: usize,
    pages_used: usize,
    capacity: usize,
}

impl<const PAGE_SIZE: usize> View for EarlyAllocator<PAGE_SIZE> {
    type V = RegionModel;

    closed spec fn view(&self) -> RegionModel {
        RegionModel {
            low: self.low_bound as int,
            high: self.high_bound as int,
            bused: self.bytes_used as int,
            pused: self.pages_used as int,
            capacity: self.capacity as int,
            page_size: PAGE_SIZE as int,
        }
    }
}

impl<const PAGE_SIZE: usize> EarlyAllocator<PAGE_SIZE> {
    /// An empty, not yet registered allocator: every boundary and counter
    /// is zero, so every allocation is refused until a region is registered.
    pub fn new() -> (r: Self)
        ensures
            r@ == (RegionModel {
                low: 0,
                high: 0,
                bused: 0,
                pused: 0,
                capacity: 0,
                page_size: PAGE_SIZE as int,
            }),
            PAGE_SIZE >= 1 ==> r@.wf(),
            r@.fits(),
    {
        Self { low_bound: 0, high_bound: 0, bytes_used: 0, pages_used: 0, capacity: 0 }
    }

    /// Registers the region: `start` is rounded up and `start + size` down
    /// to the word size, the boundaries are set to the trimmed ends, and the
    /// usage counters are zeroed.
    ///
    /// The preconditions only rule out address arithmetic that would wrap;
    /// the rounding itself can never produce a backwards range.
    pub fn initialize(&mut self, start: usize, size: usize) -> (r: Result<(), AllocError>)
        requires
            start + WORD_BYTES - 1 <= usize::MAX,
            align_up_word(start as int) + size <= usize::MAX,
        ensures
            r == Ok::<(), AllocError>(()),
            final(self)@ == RegionModel::initialized(start as int, size as int, PAGE_SIZE as int),
            PAGE_SIZE >= 1 ==> final(self)@.wf(),
            final(self)@.fits(),
    {
        let s: usize = (start + (WORD_BYTES - 1)) / WORD_BYTES * WORD_BYTES;
        let e: usize = (s + size) / WORD_BYTES * WORD_BYTES;
        assert(s == align_up_word(start as int));
        assert(e == align_down_word(s + size));
        assert(s <= e) by {
            assert(s as int % (WORD_BYTES as int) == 0);
            assert((s as int + size as int) / (WORD_BYTES as int) >= s as int / (WORD_BYTES as int));
        }
        self.low_bound = s;
        self.high_bound = e;
        self.bytes_used = 0;
        self.pages_used = 0;
        self.capacity = e - s;
        Ok(())
    }

    /// Appends a further range to the region. The range is trimmed to word
    /// boundaries the same way as at registration; it is accepted only when
    /// its trimmed start sits exactly on the current high boundary, and then
    /// the high boundary and the capacity grow by the trimmed size. Any other
    /// start is refused and the state is untouched.
    ///
    /// Only the high (page) side ever grows this way; the low side is fixed
    /// at registration.
    pub fn extend(&mut self, start: usize, size: usize) -> (r: Result<(), AllocError>)
        requires
            start + WORD_BYTES - 1 <= usize::MAX,
            align_up_word(start as int) + size <= usize::MAX,
            old(self)@.extend_ok(start as int) ==> old(self)@.capacity + (align_down_word(
                align_up_word(start as int) + size,
            ) - align_up_word(start as int)) <= usize::MAX,
        ensures
            old(self)@.extend_ok(start as int) ==> r == Ok::<(), AllocError>(()) && final(self)@
                == old(self)@.extended(start as int, size as int),
            !old(self)@.extend_ok(start as int) ==> r == Err::<(), AllocError>(
                AllocError::RegionOverlap,
            ) && final(self)@ == old(self)@,
            old(self)@.wf() ==> final(self)@.wf(),
    {
        let s: usize = (start + (WORD_BYTES - 1)) / WORD_BYTES * WORD_BYTES;
        let e: usize = (s + size) / WORD_BYTES * WORD_BYTES;
        assert(s <= e) by {
            assert(s as int % (WORD_BYTES as int) == 0);
            assert((s as int + size as int) / (WORD_BYTES as int) >= s as int / (WORD_BYTES as int));
        }
        if self.high_bound == s {
            self.high_bound = e;
            self.capacity = self.capacity + (e - s);
            Ok(())
        } else {
            Err(AllocError::RegionOverlap)
        }
    }

    /// Serves a byte allocation by bumping the low boundary: the caller gets
    /// the boundary as it stood, and the boundary and the byte-usage counter
    /// advance by `size`. The request is refused with `OutOfMemory` exactly
    /// when fewer than `size` bytes are available.
    ///
    /// No padding is inserted in front of the returned address, so a stricter
    /// `align` request than the boundary happens to satisfy is not honoured;
    /// the parameter is accepted for interface completeness only.
    #[allow(unused_variables)]
    pub fn alloc_bytes(&mut self, size: usize, align: usize) -> (r: Result<usize, AllocError>)
        requires
            old(self)@.wf(),
            old(self)@.fits(),
        ensures
            r.is_ok() <==> size <= old(self)@.avail(),
            r.is_ok() ==> r == Ok::<usize, AllocError>(old(self)@.low as usize) && final(self)@
                == old(self)@.bytes_allocated(size as int),
            !r.is_ok() ==> r == Err::<usize, AllocError>(AllocError::OutOfMemory) && final(self)@
                == old(self)@,
            final(self)@.wf(),
            final(self)@.fits(),
    {
        let avail: usize = self.capacity - self.bytes_used - self.pages_used;
        if avail < size {
            return Err(AllocError::OutOfMemory);
        }
        let address: usize = self.low_bound;
        self.low_bound = self.low_bound + size;
        self.bytes_used = self.bytes_used + size;
        Ok(address)
    }

    /// Hands a byte allocation back. Only the most recent allocation is
    /// reclaimed, recognised by its range ending exactly at the low boundary;
    /// then the boundary and the byte-usage counter retreat by `size`. Any
    /// other range is ignored and stays committed.
    pub fn free_bytes(&mut self, address: usize, size: usize)
        requires
            old(self)@.wf(),
            address + size == old(self)@.low ==> size <= old(self)@.bused,
        ensures
            final(self)@ == old(self)@.bytes_freed(address as int, size as int),
            final(self)@.wf(),
            old(self)@.fits() ==> final(self)@.fits(),
    {
        if let Some(end) = address.checked_add(size) {
            if end == self.low_bound {
                self.low_bound = self.low_bound - size;
                self.bytes_used = self.bytes_used - size;
            }
        }
    }

    /// Serves a page allocation: the high boundary retreats by
    /// `count * PAGE_SIZE` bytes, the page-usage counter grows by the same
    /// amount, and the new boundary is returned as the base of the range.
    ///
    /// `align` must be a multiple of the page size with a power-of-two
    /// quotient, else the request is refused with `InvalidParam`. A request
    /// larger than the unallocated gap is refused with `OutOfMemory` rather
    /// than letting the boundaries cross; a bare bump design would leave
    /// that check to the caller.
    pub fn alloc_pages(&mut self, count: usize, align: usize) -> (r: Result<usize, AllocError>)
        requires
            old(self)@.wf(),
            old(self)@.valid_page_align(align as int) ==> count * PAGE_SIZE <= usize::MAX,
        ensures
            !old(self)@.valid_page_align(align as int) ==> r == Err::<usize, AllocError>(
                AllocError::InvalidParam,
            ) && final(self)@ == old(self)@,
            old(self)@.valid_page_align(align as int) && !old(self)@.can_alloc_pages(count as int)
                ==> r == Err::<usize, AllocError>(AllocError::OutOfMemory) && final(self)@ == old(
                self,
            )@,
            old(self)@.valid_page_align(align as int) && old(self)@.can_alloc_pages(count as int)
                ==> r == Ok::<usize, AllocError>(
                (old(self)@.high - count * PAGE_SIZE) as usize,
            ) && final(self)@ == old(self)@.pages_allocated(count as int),
            final(self)@.wf(),
            old(self)@.fits() ==> final(self)@.fits(),
    {
        if align % PAGE_SIZE != 0 {
            return Err(AllocError::InvalidParam);
        }
        if !usize_is_power_of_two(align / PAGE_SIZE) {
            return Err(AllocError::InvalidParam);
        }
        let bytes: usize = count * PAGE_SIZE;
        if bytes > self.high_bound || self.high_bound - bytes < self.low_bound {
            return Err(AllocError::OutOfMemory);
        }
        self.high_bound = self.high_bound - bytes;
        self.pages_used = self.pages_used + bytes;
        Ok(self.high_bound)
    }

    /// Hands pages back. Only the bookkeeping counter drops; the high
    /// boundary is never restored, so a page range, once handed out, never
    /// returns to the unallocated gap.
    #[allow(unused_variables)]
    pub fn free_pages(&mut self, address: usize, count: usize)
        requires
            old(self)@.wf(),
            count * PAGE_SIZE <= old(self)@.pused,
        ensures
            final(self)@ == old(self)@.pages_freed(count as int),
            final(self)@.wf(),
    {
        let bytes: usize = count * PAGE_SIZE;
        self.pages_used = self.pages_used - bytes;
    }

    /// Cumulative size, in bytes, of every range ever registered.
    pub fn total_bytes(&self) -> (r: usize)
        ensures
            r == self@.capacity,
    {
        self.capacity
    }

    /// Bytes currently committed to byte allocations.
    pub fn used_bytes(&self) -> (r: usize)
        ensures
            r == self@.bused,
    {
        self.bytes_used
    }

    /// Bytes still available for byte allocations.
    pub fn available_bytes(&self) -> (r: usize)
        requires
            self@.wf(),
        ensures
            r == self@.avail(),
    {
        self.capacity - self.bytes_used - self.pages_used
    }

    /// The registered capacity, counted in whole pages.
    pub fn total_pages(&self) -> (r: usize)
        requires
            self@.wf(),
        ensures
            r == self@.capacity / self@.page_size,
    {
        self.capacity / PAGE_SIZE
    }

    /// Pages currently committed to page allocations.
    pub fn used_pages(&self) -> (r: usize)
        requires
            self@.wf(),
        ensures
            r == self@.pused / self@.page_size,
    {
        self.pages_used / PAGE_SIZE
    }

    /// The available bytes, counted in whole pages.
    pub fn available_pages(&self) -> (r: usize)
        requires
            self@.wf(),
        ensures
            r == self@.avail() / self@.page_size,
    {
        (self.capacity - self.bytes_used - self.pages_used) / PAGE_SIZE
    }
}

/// Whether `n` is a power of two, decided by stripping factors of two.
fn usize_is_power_of_two(n: usize) -> (r: bool)
    ensures
        r == is_power_of_two(n as int),
{
    if n == 0 {
        return false;
    }
    let mut m: usize = n;
    while m % 2 == 0
        invariant
            1 <= m,
            is_power_of_two(n as int) == is_power_of_two(m as int),
        decreases m,
    {
        m = m / 2;
    }
    m == 1
}

} // verus!
