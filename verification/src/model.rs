//! Mathematical model of the region allocator.
//!
//! `RegionModel` is the ghost state that the executable allocator is proved
//! against: the two working boundaries of the unallocated gap, the two usage
//! counters, the cumulative registered capacity, and the page granularity.
//! The spec functions here define every state transition the allocator may
//! make, so the executable contracts and the global laws speak one language.

use vstd::prelude::*;

verus! {

/// Bytes in a machine word: registered ranges are trimmed to this granularity.
pub const WORD_BYTES: usize = 8;

/// `a` rounded up to the next word boundary.
pub open spec fn align_up_word(a: int) -> int {
    ((a + (WORD_BYTES - 1)) / (WORD_BYTES as int)) * (WORD_BYTES as int)
}

/// `a` rounded down to the previous word boundary.
pub open spec fn align_down_word(a: int) -> int {
    (a / (WORD_BYTES as int)) * (WORD_BYTES as int)
}

/// True for 1, 2, 4, 8, ...; false for zero and for negative numbers.
pub open spec fn is_power_of_two(n: int) -> bool
    decreases n,
{
    if n <= 0 {
        false
    } else if n == 1 {
        true
    } else {
        n % 2 == 0 && is_power_of_two(n / 2)
    }
}

/// The abstract state of the region allocator.
///
/// The region owned so far covers `capacity` bytes in all; `bused` of them
/// are committed to byte allocations below `low`, and page allocations have
/// pulled the high boundary down to `high`, with `pused` bytes of them still
/// counted as in use.
pub struct RegionModel {
    /// Low boundary of the unallocated gap; byte allocations advance it.
    pub low: int,
    /// High boundary of the unallocated gap; page allocations retreat it.
    pub high: int,
    /// Bytes committed to byte allocations.
    pub bused: int,
    /// Bytes committed to page allocations and not yet handed back.
    pub pused: int,
    /// Cumulative size of every range ever registered.
    pub capacity: int,
    /// Fixed page granularity of the allocator instance.
    pub page_size: int,
}

impl RegionModel {
    /// Bytes still available for byte allocations.
    pub open spec fn avail(self) -> int {
        self.capacity - self.bused - self.pused
    }

    /// Well-formedness: what every operation preserves.
    ///
    /// The last conjunct says the unallocated gap never exceeds the available
    /// capacity; freed pages widen the available count but never the gap, so
    /// only this direction of the comparison is invariant.
    pub open spec fn wf(self) -> bool {
        &&& 1 <= self.page_size <= usize::MAX
        &&& 0 <= self.bused
        &&& 0 <= self.pused
        &&& 0 <= self.high <= usize::MAX
        &&& self.bused <= self.low <= usize::MAX
        &&& self.bused + self.pused <= self.capacity <= usize::MAX
        &&& self.high + self.bused + self.pused <= self.low + self.capacity
    }

    /// The low boundary can absorb the whole available capacity without the
    /// address arithmetic wrapping. Established by registration; byte and
    /// page allocation keep it, handing pages back does not.
    pub open spec fn fits(self) -> bool {
        self.low + self.capacity - self.bused - self.pused <= usize::MAX
    }

    /// The freshly registered region: `start` rounded up and `start + size`
    /// rounded down to the word size, the gap spanning all of it.
    pub open spec fn initialized(start: int, size: int, page_size: int) -> RegionModel {
        let s = align_up_word(start);
        let e = align_down_word(s + size);
        RegionModel { low: s, high: e, bused: 0, pused: 0, capacity: e - s, page_size }
    }

    /// A byte allocation of `size` advances the low boundary.
    pub open spec fn bytes_allocated(self, size: int) -> RegionModel {
        RegionModel { low: self.low + size, bused: self.bused + size, ..self }
    }

    /// Handing back a byte allocation reclaims it only under the LIFO rule:
    /// the range must end exactly at the low boundary. Anything else is a
    /// no-op and the memory stays committed.
    pub open spec fn bytes_freed(self, address: int, size: int) -> RegionModel {
        if address + size == self.low {
            RegionModel { low: self.low - size, bused: self.bused - size, ..self }
        } else {
            self
        }
    }

    /// A page-allocation alignment request is valid when it is a multiple of
    /// the page size and the quotient is a power of two.
    pub open spec fn valid_page_align(self, align: int) -> bool {
        &&& align % self.page_size == 0
        &&& is_power_of_two(align / self.page_size)
    }

    /// `count` pages fit between the two boundaries.
    pub open spec fn can_alloc_pages(self, count: int) -> bool {
        count * self.page_size <= self.high - self.low
    }

    /// A page allocation of `count` pages retreats the high boundary.
    pub open spec fn pages_allocated(self, count: int) -> RegionModel {
        RegionModel {
            high: self.high - count * self.page_size,
            pused: self.pused + count * self.page_size,
            ..self
        }
    }

    /// Handing pages back lowers the usage counter and nothing else; the
    /// high boundary is never restored.
    pub open spec fn pages_freed(self, count: int) -> RegionModel {
        RegionModel { pused: self.pused - count * self.page_size, ..self }
    }

    /// A new range can be appended only where it is forward-contiguous with
    /// the high boundary.
    pub open spec fn extend_ok(self, start: int) -> bool {
        align_up_word(start) == self.high
    }

    /// Appending a range moves the high boundary to its trimmed end and grows
    /// the capacity by the trimmed size.
    pub open spec fn extended(self, start: int, size: int) -> RegionModel {
        let s = align_up_word(start);
        let e = align_down_word(s + size);
        RegionModel { high: e, capacity: self.capacity + (e - s), ..self }
    }
}

} // verus!
