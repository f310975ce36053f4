//! The region allocator: one contiguous memory range served from both ends.
//!
//! Byte allocations advance `b_pos` forward from `start`; page allocations
//! retreat `p_pos` backward from `end`. The two positions never cross, so in
//! every well-formed state `start <= b_pos <= p_pos <= end`. Each side is
//! reclaimed collectively: when the count of outstanding allocations on a
//! side returns to zero, that side's position snaps back to its own end of
//! the region.

use vstd::prelude::*;
use vstd::arithmetic::div_mod::*;
use vstd::arithmetic::mul::*;
use vstd::arithmetic::power2::*;
use vstd::bits::*;
use crate::align::{
    is_power_of_two, align_up_spec, align_down_spec, lemma_power_of_two_pos,
    lemma_align_up_properties, lemma_align_down_properties,
};

verus! {

/// The two failures the allocator can report: a side of the region has no
/// room for the request, or the caller asked to grow the region, which this
/// allocator never supports.
#[derive(Clone, Copy, Debug, PartialEq, Eq)]
pub enum AllocError {
    NoMemory,
    Unsupported,
}

/// An early-boot allocator over one contiguous region, generic in the page
/// size, which must be a power of two.
///
/// ```text
/// [ bytes-used | avail-area | pages-used ]
/// |            | -->    <-- |            |
/// start       b_pos        p_pos       end
/// ```
pub struct EarlyAllocator<const PAGE_SIZE: usize> {
    start: usize,
    end: usize,
    b_pos: usize,
    p_pos: usize,
    byte_count: usize,
    page_count: usize,
}

impl<const PAGE_SIZE: usize> EarlyAllocator<PAGE_SIZE> {
    /// Lower bound of the managed region.
    pub closed spec fn spec_start(self) -> int {
        self.start as int
    }

    /// Page-aligned upper bound of the managed region.
    pub closed spec fn spec_end(self) -> int {
        self.end as int
    }

    /// Next free address for forward (byte) allocation.
    pub closed spec fn spec_b_pos(self) -> int {
        self.b_pos as int
    }

    /// Next free boundary for backward (page) allocation.
    pub closed spec fn spec_p_pos(self) -> int {
        self.p_pos as int
    }

    /// Number of outstanding byte allocations.
    pub closed spec fn spec_byte_count(self) -> int {
        self.byte_count as int
    }

    /// Number of outstanding allocated pages (counted in pages, not calls).
    pub closed spec fn spec_page_count(self) -> int {
        self.page_count as int
    }

    /// Well-formedness: the invariant every operation preserves.
    pub open spec fn wf(self) -> bool {
        &&& is_power_of_two(PAGE_SIZE as int)
        &&& self.spec_start() <= self.spec_b_pos()
        &&& self.spec_b_pos() <= self.spec_p_pos()
        &&& self.spec_p_pos() <= self.spec_end()
        &&& self.spec_end() % (PAGE_SIZE as int) == 0
        &&& self.spec_byte_count() == 0 ==> self.spec_b_pos() == self.spec_start()
        &&& self.spec_page_count() * PAGE_SIZE <= self.spec_end() - self.spec_p_pos()
    }

    /// Bytes the byte side could hold at most right now: `p_pos - start`.
    pub open spec fn spec_total_bytes(self) -> int {
        self.spec_p_pos() - self.spec_start()
    }

    /// Bytes currently taken on the byte side: `b_pos - start`.
    pub open spec fn spec_used_bytes(self) -> int {
        self.spec_b_pos() - self.spec_start()
    }

    /// Bytes still free between the two sides: `p_pos - b_pos`.
    pub open spec fn spec_available_bytes(self) -> int {
        self.spec_p_pos() - self.spec_b_pos()
    }

    /// Pages the page side could hold at most right now.
    pub open spec fn spec_total_pages(self) -> int {
        (self.spec_end() - self.spec_b_pos()) / (PAGE_SIZE as int)
    }

    /// Pages currently taken on the page side.
    pub open spec fn spec_used_pages(self) -> int {
        (self.spec_end() - self.spec_p_pos()) / (PAGE_SIZE as int)
    }

    /// Pages still free between the two sides.
    pub open spec fn spec_available_pages(self) -> int {
        (self.spec_p_pos() - self.spec_b_pos()) / (PAGE_SIZE as int)
    }

    /// A fresh, uninitialized allocator: an empty region at address zero.
    pub fn new() -> (r: Self)
        requires
            is_power_of_two(PAGE_SIZE as int),
        ensures
            r.wf(),
            r.spec_start() == 0,
            r.spec_end() == 0,
            r.spec_b_pos() == 0,
            r.spec_p_pos() == 0,
            r.spec_byte_count() == 0,
            r.spec_page_count() == 0,
    {
        proof {
            lemma_power_of_two_pos(PAGE_SIZE as int);
            lemma_small_mod(0nat, PAGE_SIZE as nat);
        }
        Self { start: 0, end: 0, b_pos: 0, p_pos: 0, byte_count: 0, page_count: 0 }
    }

    /// Adopt the region `[start, start + size)`: the byte position starts at
    /// `start`, the page position at `start + size`, and `end` is `start +
    /// size` aligned down to a page boundary. The region must end on a page
    /// boundary, else the page position would start beyond `end`; and the
    /// allocator must hold no outstanding allocations (it is to be
    /// initialized once, on a fresh instance).
    pub fn init(&mut self, start: usize, size: usize)
        requires
            is_power_of_two(PAGE_SIZE as int),
            old(self).spec_byte_count() == 0,
            old(self).spec_page_count() == 0,
            start + size <= usize::MAX,
            (start + size) % (PAGE_SIZE as int) == 0,
        ensures
            final(self).wf(),
            final(self).spec_start() == start,
            final(self).spec_b_pos() == start,
            final(self).spec_end() == start + size,
            final(self).spec_p_pos() == start + size,
            final(self).spec_byte_count() == 0,
            final(self).spec_page_count() == 0,
    {
        proof {
            lemma_power_of_two_pos(PAGE_SIZE as int);
            lemma_fundamental_div_mod((start + size) as int, PAGE_SIZE as int);
            lemma_mul_is_commutative(
                (start + size) as int / (PAGE_SIZE as int),
                PAGE_SIZE as int,
            );
        }
        self.start = start;
        self.end = (start + size) / PAGE_SIZE * PAGE_SIZE;
        self.b_pos = start;
        self.p_pos = start + size;
    }

    /// Growing the region after initialization is structurally unsupported:
    /// every call fails and changes nothing.
    pub fn add_memory(&mut self, _start: usize, _size: usize) -> (r: Result<(), AllocError>)
        ensures
            r == Err::<(), AllocError>(AllocError::Unsupported),
            *final(self) == *old(self),
    {
        Err(AllocError::Unsupported)
    }

    /// The smallest multiple of `align` that is at least `v`.
    pub fn align_up(&self, v: usize, align: usize) -> (r: usize)
        requires
            align >= 1,
            align_up_spec(v as int, align as int) <= usize::MAX,
        ensures
            r == align_up_spec(v as int, align as int),
    {
        proof {
            lemma_align_up_properties(v as int, align as int);
        }
        let rem: usize = v % align;
        if rem == 0 {
            v
        } else {
            v + (align - rem)
        }
    }

    /// The largest multiple of `align` that is at most `v`.
    pub fn align_down(&self, v: usize, align: usize) -> (r: usize)
        requires
            align >= 1,
        ensures
            r == align_down_spec(v as int, align as int),
    {
        proof {
            lemma_align_down_properties(v as int, align as int);
        }
        v - v % align
    }

    /// Allocate `size` bytes at alignment `align` from the byte side.
    ///
    /// The candidate address is `b_pos` aligned up; the call succeeds — and
    /// returns the candidate while advancing `b_pos` past it — exactly when
    /// the candidate plus `size` stays at or below `p_pos`. On failure
    /// nothing changes. `b_pos` never moves backward.
    pub fn alloc_bytes(&mut self, size: usize, align: usize) -> (r: Result<usize, AllocError>)
        requires
            old(self).wf(),
            is_power_of_two(align as int),
            old(self).spec_byte_count() < usize::MAX,
        ensures
            final(self).wf(),
            final(self).spec_start() == old(self).spec_start(),
            final(self).spec_end() == old(self).spec_end(),
            final(self).spec_p_pos() == old(self).spec_p_pos(),
            final(self).spec_page_count() == old(self).spec_page_count(),
            final(self).spec_b_pos() >= old(self).spec_b_pos(),
            ({
                let candidate = align_up_spec(old(self).spec_b_pos(), align as int);
                if candidate + size <= old(self).spec_p_pos() {
                    &&& r == Ok::<usize, AllocError>(candidate as usize)
                    &&& final(self).spec_b_pos() == candidate + size
                    &&& final(self).spec_byte_count() == old(self).spec_byte_count() + 1
                } else {
                    r == Err::<usize, AllocError>(AllocError::NoMemory)
                }
            }),
            r is Err ==> *final(self) == *old(self),
    {
        proof {
            lemma_power_of_two_pos(align as int);
            lemma_align_up_properties(old(self).spec_b_pos(), align as int);
        }
        let rem: usize = self.b_pos % align;
        let pad: usize = if rem == 0 { 0 } else { align - rem };
        if pad <= usize::MAX - self.b_pos {
            let candidate: usize = self.align_up(self.b_pos, align);
            if candidate <= self.p_pos && size <= self.p_pos - candidate {
                self.b_pos = candidate + size;
                self.byte_count = self.byte_count + 1;
                return Ok(candidate);
            }
        }
        Err(AllocError::NoMemory)
    }

    /// Release one byte allocation. The address and layout are not used to
    /// locate a span: reclamation is collective, so only when the count of
    /// outstanding byte allocations returns to zero does `b_pos` snap back
    /// to `start`, freeing the whole byte area at once.
    pub fn dealloc(&mut self, _pos: usize, _size: usize, _align: usize)
        requires
            old(self).wf(),
            old(self).spec_byte_count() > 0,
        ensures
            final(self).wf(),
            final(self).spec_start() == old(self).spec_start(),
            final(self).spec_end() == old(self).spec_end(),
            final(self).spec_p_pos() == old(self).spec_p_pos(),
            final(self).spec_page_count() == old(self).spec_page_count(),
            final(self).spec_byte_count() == old(self).spec_byte_count() - 1,
            final(self).spec_byte_count() == 0 ==> final(self).spec_b_pos()
                == old(self).spec_start(),
            final(self).spec_byte_count() != 0 ==> final(self).spec_b_pos()
                == old(self).spec_b_pos(),
    {
        self.byte_count = self.byte_count - 1;
        if self.byte_count == 0 {
            self.b_pos = self.start;
        }
    }

    /// Bytes the byte side could hold at most right now.
    pub fn total_bytes(&self) -> (r: usize)
        requires
            self.wf(),
        ensures
            r == self.spec_total_bytes(),
    {
        self.p_pos - self.start
    }

    /// Bytes currently taken on the byte side.
    pub fn used_bytes(&self) -> (r: usize)
        requires
            self.wf(),
        ensures
            r == self.spec_used_bytes(),
    {
        self.b_pos - self.start
    }

    /// Bytes still free between the two sides.
    pub fn available_bytes(&self) -> (r: usize)
        requires
            self.wf(),
        ensures
            r == self.spec_available_bytes(),
    {
        self.p_pos - self.b_pos
    }

    /// Allocate `num_pages` pages, aligned to `1 << align_pow2`, from the
    /// page side.
    ///
    /// The candidate base is `p_pos` minus the requested span, aligned down;
    /// the call succeeds — and returns the candidate while lowering `p_pos`
    /// to it — exactly when the candidate does not fall below `b_pos` (in
    /// particular, never when the span exceeds `p_pos` itself). On failure
    /// nothing changes. `p_pos` never moves forward.
    pub fn alloc_pages(&mut self, num_pages: usize, align_pow2: usize)
        -> (r: Result<usize, AllocError>)
        requires
            old(self).wf(),
            align_pow2 < usize::BITS,
        ensures
            final(self).wf(),
            final(self).spec_start() == old(self).spec_start(),
            final(self).spec_end() == old(self).spec_end(),
            final(self).spec_b_pos() == old(self).spec_b_pos(),
            final(self).spec_byte_count() == old(self).spec_byte_count(),
            final(self).spec_p_pos() <= old(self).spec_p_pos(),
            ({
                let align = pow2(align_pow2 as nat) as int;
                let candidate = align_down_spec(
                    old(self).spec_p_pos() - num_pages * PAGE_SIZE,
                    align,
                );
                if candidate >= old(self).spec_b_pos() {
                    &&& r == Ok::<usize, AllocError>(candidate as usize)
                    &&& final(self).spec_p_pos() == candidate
                    &&& final(self).spec_page_count()
                        == old(self).spec_page_count() + num_pages
                } else {
                    r == Err::<usize, AllocError>(AllocError::NoMemory)
                }
            }),
            r is Err ==> *final(self) == *old(self),
    {
        proof {
            lemma_power_of_two_pos(PAGE_SIZE as int);
            lemma_usize_pow2_no_overflow(align_pow2 as nat);
            lemma_usize_shl_is_mul(1, align_pow2);
            lemma_pow2_pos(align_pow2 as nat);
        }
        let align: usize = 1usize << align_pow2;
        let ghost base_spec = old(self).spec_p_pos() - num_pages * PAGE_SIZE;
        proof {
            lemma_mod_bound(base_spec, align as int);
        }
        if num_pages <= self.p_pos / PAGE_SIZE {
            proof {
                lemma_mul_inequality(
                    num_pages as int,
                    (self.p_pos / PAGE_SIZE) as int,
                    PAGE_SIZE as int,
                );
                lemma_fundamental_div_mod(self.p_pos as int, PAGE_SIZE as int);
                lemma_mod_bound(self.p_pos as int, PAGE_SIZE as int);
                lemma_mul_is_commutative((self.p_pos / PAGE_SIZE) as int, PAGE_SIZE as int);
            }
            let base: usize = self.p_pos - num_pages * PAGE_SIZE;
            proof {
                lemma_align_down_properties(base as int, align as int);
            }
            let candidate: usize = self.align_down(base, align);
            if candidate >= self.b_pos {
                proof {
                    lemma_mul_is_distributive_add_other_way(
                        PAGE_SIZE as int,
                        old(self).spec_page_count(),
                        num_pages as int,
                    );
                    if old(self).spec_page_count() + num_pages > 0 {
                        lemma_mul_increases(
                            PAGE_SIZE as int,
                            old(self).spec_page_count() + num_pages,
                        );
                        lemma_mul_is_commutative(
                            PAGE_SIZE as int,
                            old(self).spec_page_count() + num_pages,
                        );
                    }
                }
                self.p_pos = candidate;
                self.page_count = self.page_count + num_pages;
                return Ok(candidate);
            }
        } else {
            proof {
                lemma_mul_inequality(
                    (self.p_pos / PAGE_SIZE) as int + 1,
                    num_pages as int,
                    PAGE_SIZE as int,
                );
                lemma_fundamental_div_mod(self.p_pos as int, PAGE_SIZE as int);
                lemma_mod_bound(self.p_pos as int, PAGE_SIZE as int);
                lemma_mul_is_distributive_add_other_way(
                    PAGE_SIZE as int,
                    (self.p_pos / PAGE_SIZE) as int,
                    1,
                );
                lemma_mul_is_commutative((self.p_pos / PAGE_SIZE) as int, PAGE_SIZE as int);
            }
        }
        Err(AllocError::NoMemory)
    }

    /// Release `num_pages` pages. The address is not used to locate a span:
    /// reclamation is collective, so only when the count of outstanding
    /// pages returns to zero does `p_pos` snap back to `end`, freeing the
    /// whole page area at once.
    pub fn dealloc_pages(&mut self, _pos: usize, num_pages: usize)
        requires
            old(self).wf(),
            num_pages <= old(self).spec_page_count(),
        ensures
            final(self).wf(),
            final(self).spec_start() == old(self).spec_start(),
            final(self).spec_end() == old(self).spec_end(),
            final(self).spec_b_pos() == old(self).spec_b_pos(),
            final(self).spec_byte_count() == old(self).spec_byte_count(),
            final(self).spec_page_count() == old(self).spec_page_count() - num_pages,
            final(self).spec_page_count() == 0 ==> final(self).spec_p_pos()
                == old(self).spec_end(),
            final(self).spec_page_count() != 0 ==> final(self).spec_p_pos()
                == old(self).spec_p_pos(),
    {
        proof {
            lemma_mul_inequality(
                old(self).spec_page_count() - num_pages,
                old(self).spec_page_count(),
                PAGE_SIZE as int,
            );
            lemma_mul_is_commutative(old(self).spec_page_count() - num_pages, PAGE_SIZE as int);
            lemma_mul_is_commutative(old(self).spec_page_count(), PAGE_SIZE as int);
        }
        self.page_count = self.page_count - num_pages;
        if self.page_count == 0 {
            self.p_pos = self.end;
        }
    }

    /// Pages the page side could hold at most right now.
    pub fn total_pages(&self) -> (r: usize)
        requires
            self.wf(),
        ensures
            r == self.spec_total_pages(),
    {
        proof {
            lemma_power_of_two_pos(PAGE_SIZE as int);
        }
        (self.end - self.b_pos) / PAGE_SIZE
    }

    /// Pages currently taken on the page side.
    pub fn used_pages(&self) -> (r: usize)
        requires
            self.wf(),
        ensures
            r == self.spec_used_pages(),
    {
        proof {
            lemma_power_of_two_pos(PAGE_SIZE as int);
        }
        (self.end - self.p_pos) / PAGE_SIZE
    }

    /// Pages still free between the two sides.
    pub fn available_pages(&self) -> (r: usize)
        requires
            self.wf(),
        ensures
            r == self.spec_available_pages(),
    {
        proof {
            lemma_power_of_two_pos(PAGE_SIZE as int);
        }
        (self.p_pos - self.b_pos) / PAGE_SIZE
    }

    /// Law: in every well-formed state the positions are ordered
    /// `start <= b_pos <= p_pos <= end`, and `end` lies on a page boundary.
    pub proof fn lemma_region_invariant(self)
        requires
            self.wf(),
        ensures
            self.spec_start() <= self.spec_b_pos(),
            self.spec_b_pos() <= self.spec_p_pos(),
            self.spec_p_pos() <= self.spec_end(),
            self.spec_end() % (PAGE_SIZE as int) == 0,
    {
    }

    /// Law: whenever no byte allocations are outstanding, the whole byte
    /// area stands reclaimed — `b_pos` sits at `start` and every byte the
    /// side could hold is available.
    pub proof fn lemma_bytes_collectively_reclaimed(self)
        requires
            self.wf(),
            self.spec_byte_count() == 0,
        ensures
            self.spec_b_pos() == self.spec_start(),
            self.spec_available_bytes() == self.spec_total_bytes(),
    {
    }

    /// Law: once the page position is back at `end` — as after a release
    /// that brings the outstanding page count to zero — every page the side
    /// could hold is available.
    pub proof fn lemma_pages_collectively_reclaimed(self)
        requires
            self.wf(),
            self.spec_p_pos() == self.spec_end(),
        ensures
            self.spec_available_pages() == self.spec_total_pages(),
    {
    }
}

} // verus!
