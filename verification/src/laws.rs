//! Global guarantees of the region allocator, proved over its model.
//!
//! The executable contracts in `region` pin each operation to one model
//! transition; the proof functions here state what those transitions
//! guarantee across several operations or over whole runs.

use vstd::prelude::*;

use vstd::arithmetic::div_mod::{lemma_div_by_self, lemma_hoist_over_denominator,
    lemma_mod_multiples_vanish, lemma_mod_self_0};
use vstd::arithmetic::mul::{lemma_mul_inequality, lemma_mul_is_distributive_add_other_way};

use crate::model::{align_down_word, align_up_word, RegionModel, WORD_BYTES};

verus! {

/// Total of a run of requested sizes.
pub open spec fn sum_sizes(sizes: Seq<int>) -> int
    decreases sizes.len(),
{
    if sizes.len() == 0 {
        0
    } else {
        sizes[0] + sum_sizes(sizes.drop_first())
    }
}

/// The state after a run of byte allocations of the given sizes.
pub open spec fn bytes_run(m: RegionModel, sizes: Seq<int>) -> RegionModel
    decreases sizes.len(),
{
    if sizes.len() == 0 {
        m
    } else {
        bytes_run(m.bytes_allocated(sizes[0]), sizes.drop_first())
    }
}

/// Every allocation of the run finds enough available bytes at its turn.
pub open spec fn all_allocs_fit(m: RegionModel, sizes: Seq<int>) -> bool
    decreases sizes.len(),
{
    if sizes.len() == 0 {
        true
    } else {
        &&& sizes[0] <= m.avail()
        &&& all_allocs_fit(m.bytes_allocated(sizes[0]), sizes.drop_first())
    }
}

proof fn lemma_sum_push(s: Seq<int>, x: int)
    ensures
        sum_sizes(s.push(x)) == sum_sizes(s) + x,
    decreases s.len(),
{
    if s.len() == 0 {
        assert(s.push(x) =~= seq![x]);
        assert(seq![x].drop_first() =~= Seq::<int>::empty());
        assert(sum_sizes(s.push(x)) == x + sum_sizes(Seq::<int>::empty()));
    } else {
        lemma_sum_push(s.drop_first(), x);
        assert(s.push(x).drop_first() =~= s.drop_first().push(x));
        assert(s.push(x).len() != 0);
        assert(s.push(x)[0] == s[0]);
        assert(sum_sizes(s.push(x)) == s[0] + sum_sizes(s.drop_first().push(x)));
        assert(sum_sizes(s) == s[0] + sum_sizes(s.drop_first()));
    }
}

proof fn lemma_sum_take_succ(sizes: Seq<int>, i: int)
    requires
        0 <= i < sizes.len(),
    ensures
        sum_sizes(sizes.take(i + 1)) == sum_sizes(sizes.take(i)) + sizes[i],
{
    assert(sizes.take(i + 1) =~= sizes.take(i).push(sizes[i]));
    lemma_sum_push(sizes.take(i), sizes[i]);
}

proof fn lemma_sum_take_mono(sizes: Seq<int>, i: int, j: int)
    requires
        0 <= i <= j <= sizes.len(),
        forall|k: int| 0 <= k < sizes.len() ==> 0 <= #[trigger] sizes[k],
    ensures
        sum_sizes(sizes.take(i)) <= sum_sizes(sizes.take(j)),
    decreases j - i,
{
    if i < j {
        lemma_sum_take_mono(sizes, i, j - 1);
        lemma_sum_take_succ(sizes, j - 1);
    }
}

proof fn lemma_bytes_run_state(m: RegionModel, sizes: Seq<int>)
    ensures
        bytes_run(m, sizes) == (RegionModel {
            low: m.low + sum_sizes(sizes),
            bused: m.bused + sum_sizes(sizes),
            ..m
        }),
    decreases sizes.len(),
{
    if sizes.len() != 0 {
        lemma_bytes_run_state(m.bytes_allocated(sizes[0]), sizes.drop_first());
    }
}

proof fn lemma_all_fit(m: RegionModel, sizes: Seq<int>)
    requires
        forall|k: int| 0 <= k < sizes.len() ==> 0 <= #[trigger] sizes[k],
        sum_sizes(sizes) <= m.avail(),
    ensures
        all_allocs_fit(m, sizes),
    decreases sizes.len(),
{
    if sizes.len() != 0 {
        let rest = sizes.drop_first();
        assert(forall|k: int| 0 <= k < rest.len() ==> 0 <= #[trigger] rest[k]);
        assert(0 <= sum_sizes(rest)) by {
            lemma_sum_take_mono(rest, 0, rest.len() as int);
            assert(rest.take(0) =~= Seq::<int>::empty());
            assert(rest.take(rest.len() as int) =~= rest);
        }
        lemma_all_fit(m.bytes_allocated(sizes[0]), rest);
    }
}

/// A run of byte allocations whose total stays within the available
/// capacity never runs out: every request of the run is served, the states
/// along the run stay well formed, each address handed out is the low
/// boundary of its moment, and the addresses are strictly increasing with
/// pairwise disjoint ranges.
pub proof fn lemma_byte_runs_within_capacity(m: RegionModel, sizes: Seq<int>)
    requires
        m.wf(),
        m.fits(),
        forall|k: int| 0 <= k < sizes.len() ==> 1 <= #[trigger] sizes[k],
        sum_sizes(sizes) <= m.avail(),
    ensures
        all_allocs_fit(m, sizes),
        forall|i: int| 0 <= i < sizes.len() ==> {
            let at = #[trigger] bytes_run(m, sizes.take(i));
            &&& at.wf()
            &&& at.fits()
            &&& at.low == m.low + sum_sizes(sizes.take(i))
        },
        forall|i: int, j: int| 0 <= i < j < sizes.len()
            ==> (#[trigger] bytes_run(m, sizes.take(i))).low + sizes[i] <= (
        #[trigger] bytes_run(m, sizes.take(j))).low,
{
    lemma_all_fit(m, sizes);
    assert(sizes.take(sizes.len() as int) =~= sizes);
    assert forall|i: int| 0 <= i < sizes.len() implies {
        let at = #[trigger] bytes_run(m, sizes.take(i));
        &&& at.wf()
        &&& at.fits()
        &&& at.low == m.low + sum_sizes(sizes.take(i))
    } by {
        lemma_bytes_run_state(m, sizes.take(i));
        lemma_sum_take_mono(sizes, 0, i);
        assert(sizes.take(0) =~= Seq::<int>::empty());
        lemma_sum_take_mono(sizes, i, sizes.len() as int);
    }
    assert forall|i: int, j: int| 0 <= i < j < sizes.len() implies (#[trigger] bytes_run(
        m,
        sizes.take(i),
    )).low + sizes[i] <= (#[trigger] bytes_run(m, sizes.take(j))).low by {
        lemma_bytes_run_state(m, sizes.take(i));
        lemma_bytes_run_state(m, sizes.take(j));
        lemma_sum_take_succ(sizes, i);
        lemma_sum_take_mono(sizes, i + 1, j);
    }
}

/// LIFO round trip: handing back the byte allocation just served, at the
/// address it was served at and with its own size, restores the low
/// boundary and the usage counter exactly.
pub proof fn lemma_lifo_round_trip(m: RegionModel, size: int)
    requires
        m.wf(),
        0 <= size <= m.avail(),
    ensures
        m.bytes_allocated(size).bytes_freed(m.low, size) == m,
{
}

/// Handing back anything but the most recent byte allocation is a no-op:
/// a range that does not end at the low boundary changes nothing.
pub proof fn lemma_free_bytes_noop(m: RegionModel, address: int, size: int)
    requires
        address + size != m.low,
    ensures
        m.bytes_freed(address, size) == m,
{
}

/// Two consecutive page allocations, each with the plain page-size
/// alignment, are both valid and served, and their ranges are page-aligned,
/// strictly descending, adjacent without a gap, and disjoint.
pub proof fn lemma_page_runs_descend(m: RegionModel, c1: int, c2: int)
    requires
        m.wf(),
        m.high % m.page_size == 0,
        1 <= c1,
        1 <= c2,
        (c1 + c2) * m.page_size <= m.high - m.low,
    ensures
        m.valid_page_align(m.page_size),
        m.can_alloc_pages(c1),
        m.pages_allocated(c1).can_alloc_pages(c2),
        ({
            let a1 = m.pages_allocated(c1).high;
            let a2 = m.pages_allocated(c1).pages_allocated(c2).high;
            &&& a1 == m.high - c1 * m.page_size
            &&& a2 == a1 - c2 * m.page_size
            &&& m.low <= a2 < a1 < m.high
            &&& a2 + c2 * m.page_size == a1
            &&& a1 + c1 * m.page_size == m.high
            &&& a1 % m.page_size == 0
            &&& a2 % m.page_size == 0
        }),
{
    let ps: int = m.page_size;
    lemma_mod_self_0(ps);
    lemma_div_by_self(ps);
    assert(m.valid_page_align(ps));
    lemma_mul_is_distributive_add_other_way(ps, c1, c2);
    lemma_mul_inequality(1, c1, ps);
    lemma_mul_inequality(1, c2, ps);
    lemma_mul_inequality(0, c2, ps);
    assert((m.high - c1 * ps) % ps == 0) by {
        lemma_mod_multiples_vanish(-c1, m.high, ps);
        assert(ps * -c1 == -(c1 * ps)) by (nonlinear_arith);
    }
    assert((m.high - c1 * ps - c2 * ps) % ps == 0) by {
        lemma_mod_multiples_vanish(-c1 - c2, m.high, ps);
        assert(ps * (-c1 - c2) == -(c1 * ps) - c2 * ps) by (nonlinear_arith);
    }
}

/// Pages never return to the pool: handing pages back moves neither
/// boundary and registers nothing, it only lowers the usage counter — so
/// the byte accounting reports the amount as available again, while the
/// unallocated gap between the boundaries stays exactly as it was.
pub proof fn lemma_pages_never_return(m: RegionModel, count: int)
    ensures
        m.pages_freed(count).high == m.high,
        m.pages_freed(count).low == m.low,
        m.pages_freed(count).capacity == m.capacity,
        m.pages_freed(count).avail() == m.avail() + count * m.page_size,
{
}

/// A range that starts exactly on a word-aligned high boundary extends the
/// region, and the capacity grows by the word-trimmed size of the range.
pub proof fn lemma_extend_at_high_bound(m: RegionModel, size: int)
    requires
        m.high % (WORD_BYTES as int) == 0,
        0 <= size,
    ensures
        m.extend_ok(m.high),
        m.extended(m.high, size) == (RegionModel {
            high: m.high + align_down_word(size),
            capacity: m.capacity + align_down_word(size),
            ..m
        }),
{
    let w: int = WORD_BYTES as int;
    let k: int = m.high / w;
    assert(m.high == w * k);
    assert(align_up_word(m.high) == m.high);
    assert((size + k * w) / w == size / w + k) by {
        lemma_hoist_over_denominator(size, k, WORD_BYTES as nat);
    }
    assert(w * k == k * w) by (nonlinear_arith);
    assert((m.high + size) / w == size / w + k);
    assert(align_down_word(m.high + size) == (size / w + k) * w);
    assert((size / w + k) * w == (size / w) * w + k * w) by {
        lemma_mul_is_distributive_add_other_way(w, size / w, k);
    }
}

/// Registered capacity is never reduced: allocation and handing back leave
/// it untouched, and an accepted extension can only grow it.
pub proof fn lemma_capacity_never_shrinks(
    m: RegionModel,
    address: int,
    size: int,
    count: int,
    start: int,
)
    requires
        0 <= size,
    ensures
        m.bytes_allocated(size).capacity == m.capacity,
        m.bytes_freed(address, size).capacity == m.capacity,
        m.pages_allocated(count).capacity == m.capacity,
        m.pages_freed(count).capacity == m.capacity,
        m.extended(start, size).capacity >= m.capacity,
{
    let w: int = WORD_BYTES as int;
    let s: int = align_up_word(start);
    assert(s % w == 0);
    assert(align_down_word(s + size) >= s) by {
        assert((s + size) / w >= s / w);
    }
}

/// A range whose trimmed start is anywhere but the high boundary is never
/// accepted as an extension.
pub proof fn lemma_extend_elsewhere_fails(m: RegionModel, start: int)
    requires
        align_up_word(start) != m.high,
    ensures
        !m.extend_ok(start),
{
}

} // verus!
