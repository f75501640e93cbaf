//! The allocator itself: byte allocations bump forward from the start of the
//! range, page allocations bump backward from its end.
use vstd::prelude::*;
use crate::align::{
    is_pow2, align_up, align_down, lemma_pow2_positive, lemma_align_up_past_max,
    lemma_align_down_bounds,
};
use crate::ledger::{Ledger, Request, lemma_alloc_advances, lemma_alloc_pages_shrinks};

verus! {

/// Why a request was not served.
#[derive(Debug, Clone, Copy, PartialEq, Eq, Structural)]
pub enum AllocError {
    /// The request does not fit between the two cursors.
    NoMemory,
    /// This allocator does not offer the operation.
    Unimplemented,
}

/// Early memory allocator, for use before the full byte and page allocators
/// can work. It manages one range as two regions that grow toward each other:
///
/// ```text
/// [ bytes-used | avail-area | pages-used ]
/// |            | -->    <-- |            |
/// start      byte_pos    page_pos       end
/// ```
///
/// `count` records the live byte allocations; when it drops to zero the
/// whole byte region is released at once. Pages are never released.
pub struct EarlyAllocator<const PAGE_SIZE: usize> {
    start: usize,
    end: usize,
    count: usize,
    byte_pos: usize,
    page_pos: usize,
}

impl<const PAGE_SIZE: usize> View for EarlyAllocator<PAGE_SIZE> {
    type V = Ledger;

    closed spec fn view(&self) -> Ledger {
        Ledger {
            start: self.start as nat,
            end: self.end as nat,
            byte_cursor: self.byte_pos as nat,
            page_cursor: self.page_pos as nat,
            live_count: self.count as nat,
        }
    }
}

impl<const PAGE_SIZE: usize> EarlyAllocator<PAGE_SIZE> {
    /// The bookkeeping is consistent, every address fits a `usize`, and the
    /// page size is a power of two.
    pub open spec fn wf(&self) -> bool {
        &&& self@.consistent()
        &&& self@.end <= usize::MAX
        &&& self@.live_count <= usize::MAX
        &&& is_pow2(PAGE_SIZE as int)
    }

    /// An allocator with an empty range; `init` gives it one.
    pub fn new() -> (r: Self)
        requires
            is_pow2(PAGE_SIZE as int),
        ensures
            r.wf(),
            r@ == (Ledger { start: 0, end: 0, byte_cursor: 0, page_cursor: 0, live_count: 0 }),
    {
        Self { start: 0, end: 0, count: 0, byte_pos: 0, page_pos: 0 }
    }

    /// Takes `[start, start + size)` as the managed range and resets all
    /// bookkeeping. Calling it again while byte allocations are live drops
    /// track of them.
    pub fn init(&mut self, start: usize, size: usize)
        requires
            old(self).wf(),
            start + size <= usize::MAX,
        ensures
            final(self).wf(),
            final(self)@ == Ledger::initial(start as nat, size as nat),
            final(self)@ == old(self)@.step(
                Request::Init { start: start as nat, size: size as nat },
                PAGE_SIZE as nat,
            ),
    {
        self.start = start;
        self.end = start + size;
        self.byte_pos = start;
        self.page_pos = self.end;
        self.count = 0;
    }

    /// Growing the range is not offered: always `Unimplemented`, and
    /// nothing changes.
    pub fn add_memory(&mut self, _start: usize, _size: usize) -> (r: Result<(), AllocError>)
        ensures
            r == Err::<(), AllocError>(AllocError::Unimplemented),
            final(self)@ == old(self)@,
    {
        Err(AllocError::Unimplemented)
    }

    /// Allocates `size` bytes at the next multiple of `align` from the byte
    /// cursor. Fails with `NoMemory`, changing nothing, exactly when the block
    /// would pass the page cursor. The count of live byte allocations must
    /// be below `usize::MAX`. Running out of room here is meant to be fatal
    /// to the caller: nothing below this allocator can serve the request.
    pub fn alloc_bytes(&mut self, size: usize, align: usize) -> (r: Result<usize, AllocError>)
        requires
            old(self).wf(),
            is_pow2(align as int),
            old(self)@.live_count < usize::MAX,
        ensures
            final(self).wf(),
            final(self)@ == old(self)@.step(
                Request::Alloc { size: size as nat, align: align as nat },
                PAGE_SIZE as nat,
            ),
            old(self)@.alloc_fits(size as nat, align as nat) ==> {
                &&& r == Ok::<usize, AllocError>(old(self)@.alloc_start(align as nat) as usize)
                &&& final(self)@ == old(self)@.after_alloc(size as nat, align as nat)
            },
            !old(self)@.alloc_fits(size as nat, align as nat) ==> {
                &&& r == Err::<usize, AllocError>(AllocError::NoMemory)
                &&& final(self)@ == old(self)@
            },
    {
        proof {
            lemma_pow2_positive(align as int);
        }
        if self.byte_pos > usize::MAX - (align - 1) {
            proof {
                lemma_align_up_past_max(self.byte_pos as int, align as int);
            }
            return Err(AllocError::NoMemory);
        }
        let start = align_up(self.byte_pos, align);
        if start > self.page_pos || size > self.page_pos - start {
            Err(AllocError::NoMemory)
        } else {
            proof {
                lemma_alloc_advances(self@, size as nat, align as nat);
            }
            self.byte_pos = start + size;
            self.count = self.count + 1;
            Ok(start)
        }
    }

    /// Records that one byte allocation has ended. The address and size are
    /// not used: when no byte allocation is left live, the whole byte region
    /// is released.
    pub fn dealloc(&mut self, _pos: usize, _size: usize, _align: usize)
        requires
            old(self).wf(),
            old(self)@.live_count > 0,
        ensures
            final(self).wf(),
            final(self)@ == old(self)@.after_dealloc(),
            final(self)@ == old(self)@.step(Request::Dealloc, PAGE_SIZE as nat),
    {
        self.count = self.count - 1;
        if self.count == 0 {
            self.byte_pos = self.start;
        }
    }

    /// The size of the managed range in bytes.
    pub fn total_bytes(&self) -> (r: usize)
        requires
            self.wf(),
        ensures
            r == self@.total_bytes(),
    {
        self.end - self.start
    }

    /// The bytes between the start of the range and the byte cursor.
    pub fn used_bytes(&self) -> (r: usize)
        requires
            self.wf(),
        ensures
            r == self@.used_bytes(),
    {
        self.byte_pos - self.start
    }

    /// The bytes between the two cursors.
    pub fn available_bytes(&self) -> (r: usize)
        requires
            self.wf(),
        ensures
            r == self@.available_bytes(),
    {
        self.page_pos - self.byte_pos
    }

    /// Allocates `num_pages` pages below the page cursor, at a page boundary.
    /// Fails with `NoMemory`, changing nothing, exactly when the run would
    /// not stay above the byte cursor. `align_pow2` must be a multiple of the
    /// page size.
    pub fn alloc_pages(&mut self, num_pages: usize, align_pow2: usize) -> (r: Result<usize, AllocError>)
        requires
            old(self).wf(),
            align_pow2 % PAGE_SIZE == 0,
        ensures
            final(self).wf(),
            final(self)@ == old(self)@.step(
                Request::AllocPages { num_pages: num_pages as nat },
                PAGE_SIZE as nat,
            ),
            old(self)@.pages_fit(num_pages as nat, PAGE_SIZE as nat) ==> {
                &&& r == Ok::<usize, AllocError>(
                    old(self)@.page_candidate(num_pages as nat, PAGE_SIZE as nat) as usize,
                )
                &&& final(self)@ == old(self)@.after_alloc_pages(num_pages as nat, PAGE_SIZE as nat)
            },
            !old(self)@.pages_fit(num_pages as nat, PAGE_SIZE as nat) ==> {
                &&& r == Err::<usize, AllocError>(AllocError::NoMemory)
                &&& final(self)@ == old(self)@
            },
    {
        proof {
            lemma_pow2_positive(PAGE_SIZE as int);
            lemma_align_down_bounds(self.page_pos - num_pages * PAGE_SIZE, PAGE_SIZE as int);
        }
        let total = match num_pages.checked_mul(PAGE_SIZE) {
            Some(t) => t,
            None => {
                return Err(AllocError::NoMemory);
            },
        };
        if total > self.page_pos {
            return Err(AllocError::NoMemory);
        }
        let next = align_down(self.page_pos - total, PAGE_SIZE);
        if next <= self.byte_pos {
            Err(AllocError::NoMemory)
        } else {
            proof {
                lemma_alloc_pages_shrinks(self@, num_pages as nat, PAGE_SIZE as nat);
            }
            self.page_pos = next;
            Ok(next)
        }
    }

    /// Pages are never released: always `Unimplemented`, and nothing
    /// changes.
    pub fn dealloc_pages(&mut self, _pos: usize, _num_pages: usize) -> (r: Result<(), AllocError>)
        ensures
            r == Err::<(), AllocError>(AllocError::Unimplemented),
            final(self)@ == old(self)@,
    {
        Err(AllocError::Unimplemented)
    }

    /// The number of whole pages in the managed range.
    pub fn total_pages(&self) -> (r: usize)
        requires
            self.wf(),
        ensures
            r == self@.total_pages(PAGE_SIZE as nat),
    {
        proof {
            lemma_pow2_positive(PAGE_SIZE as int);
        }
        (self.end - self.start) / PAGE_SIZE
    }

    /// The number of whole pages between the page cursor and the end.
    pub fn used_pages(&self) -> (r: usize)
        requires
            self.wf(),
        ensures
            r == self@.used_pages(PAGE_SIZE as nat),
    {
        proof {
            lemma_pow2_positive(PAGE_SIZE as int);
        }
        (self.end - self.page_pos) / PAGE_SIZE
    }

    /// The number of whole pages between the two cursors.
    pub fn available_pages(&self) -> (r: usize)
        requires
            self.wf(),
        ensures
            r == self@.available_pages(PAGE_SIZE as nat),
    {
        proof {
            lemma_pow2_positive(PAGE_SIZE as int);
        }
        (self.page_pos - self.byte_pos) / PAGE_SIZE
    }
}

} // verus!
