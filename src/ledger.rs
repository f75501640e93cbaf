//! The mathematical model of the allocator's bookkeeping: the managed range,
//! the two cursors, the count of live byte allocations, and how each
//! operation moves them.
use vstd::prelude::*;
use crate::align::{
    is_pow2, spec_align_down, spec_align_up, lemma_pow2_positive, lemma_align_down_bounds,
    lemma_align_up_bounds,
};
use vstd::arithmetic::div_mod::{lemma_fundamental_div_mod, lemma_fundamental_div_mod_converse_mod};

verus! {

/// The bookkeeping of an allocator as plain numbers.
pub struct Ledger {
    pub start: nat,
    pub end: nat,
    pub byte_cursor: nat,
    pub page_cursor: nat,
    pub live_count: nat,
}

/// One call on an allocator, with the arguments that decide its effect.
pub enum Request {
    Init { start: nat, size: nat },
    Alloc { size: nat, align: nat },
    Dealloc,
    AllocPages { num_pages: nat },
    AddMemory,
    DeallocPages,
}

impl Ledger {
    /// The state right after `init(start, size)`.
    pub open spec fn initial(start: nat, size: nat) -> Ledger {
        Ledger {
            start,
            end: start + size,
            byte_cursor: start,
            page_cursor: start + size,
            live_count: 0,
        }
    }

    /// The cursors stay in order inside the range.
    pub open spec fn cursors_ordered(self) -> bool {
        self.start <= self.byte_cursor <= self.page_cursor <= self.end
    }

    /// The cursors are ordered, and with no live byte allocation the byte
    /// region is empty.
    pub open spec fn consistent(self) -> bool {
        &&& self.cursors_ordered()
        &&& self.live_count == 0 ==> self.byte_cursor == self.start
    }

    pub open spec fn total_bytes(self) -> int {
        self.end - self.start
    }

    pub open spec fn used_bytes(self) -> int {
        self.byte_cursor - self.start
    }

    pub open spec fn available_bytes(self) -> int {
        self.page_cursor - self.byte_cursor
    }

    pub open spec fn total_pages(self, page_size: nat) -> int {
        (self.end - self.start) / (page_size as int)
    }

    pub open spec fn used_pages(self, page_size: nat) -> int {
        (self.end - self.page_cursor) / (page_size as int)
    }

    pub open spec fn available_pages(self, page_size: nat) -> int {
        (self.page_cursor - self.byte_cursor) / (page_size as int)
    }

    /// Where a byte allocation with alignment `align` would begin.
    pub open spec fn alloc_start(self, align: nat) -> int {
        spec_align_up(self.byte_cursor as int, align as int)
    }

    /// A byte allocation of `size` bytes fits below the page cursor.
    pub open spec fn alloc_fits(self, size: nat, align: nat) -> bool {
        self.alloc_start(align) + size <= self.page_cursor
    }

    /// The state after a byte allocation that fits.
    pub open spec fn after_alloc(self, size: nat, align: nat) -> Ledger {
        Ledger {
            byte_cursor: (self.alloc_start(align) + size) as nat,
            live_count: self.live_count + 1,
            ..self
        }
    }

    /// The state after one byte deallocation: the count drops by one, and
    /// when it reaches zero the whole byte region is released.
    pub open spec fn after_dealloc(self) -> Ledger {
        let count = (self.live_count - 1) as nat;
        Ledger {
            live_count: count,
            byte_cursor: if count == 0 { self.start } else { self.byte_cursor },
            ..self
        }
    }

    /// Where a run of `num_pages` pages would begin.
    pub open spec fn page_candidate(self, num_pages: nat, page_size: nat) -> int {
        spec_align_down(self.page_cursor - num_pages * page_size, page_size as int)
    }

    /// A run of `num_pages` pages fits above the byte cursor.
    pub open spec fn pages_fit(self, num_pages: nat, page_size: nat) -> bool {
        self.page_candidate(num_pages, page_size) > self.byte_cursor
    }

    /// The state after a page allocation that fits.
    pub open spec fn after_alloc_pages(self, num_pages: nat, page_size: nat) -> Ledger {
        Ledger { page_cursor: self.page_candidate(num_pages, page_size) as nat, ..self }
    }

    /// The effect of one request; a request that fails, or that a caller may
    /// not make, leaves the state as it is.
    pub open spec fn step(self, req: Request, page_size: nat) -> Ledger {
        match req {
            Request::Init { start, size } => Ledger::initial(start, size),
            Request::Alloc { size, align } => {
                if is_pow2(align as int) && self.alloc_fits(size, align) {
                    self.after_alloc(size, align)
                } else {
                    self
                }
            },
            Request::Dealloc => {
                if self.live_count > 0 {
                    self.after_dealloc()
                } else {
                    self
                }
            },
            Request::AllocPages { num_pages } => {
                if self.pages_fit(num_pages, page_size) {
                    self.after_alloc_pages(num_pages, page_size)
                } else {
                    self
                }
            },
            Request::AddMemory => self,
            Request::DeallocPages => self,
        }
    }

    /// The state after a sequence of requests, in order.
    pub open spec fn run(self, reqs: Seq<Request>, page_size: nat) -> Ledger
        decreases reqs.len(),
    {
        if reqs.len() == 0 {
            self
        } else {
            self.step(reqs[0], page_size).run(reqs.drop_first(), page_size)
        }
    }
}

/// Right after initialisation nothing is used, all of the range is
/// available to byte allocations, and the invariant holds.
pub proof fn lemma_init_empty(start: nat, size: nat, page_size: nat)
    requires
        page_size > 0,
    ensures
        Ledger::initial(start, size).used_bytes() == 0,
        Ledger::initial(start, size).used_pages(page_size) == 0,
        Ledger::initial(start, size).available_bytes() == size,
        Ledger::initial(start, size).total_bytes() == size,
        Ledger::initial(start, size).consistent(),
{
}

/// Every request keeps the invariant.
pub proof fn lemma_step_keeps_invariant(l: Ledger, req: Request, page_size: nat)
    requires
        l.consistent(),
        page_size > 0,
    ensures
        l.step(req, page_size).consistent(),
{
    match req {
        Request::Alloc { size, align } => {
            if is_pow2(align as int) && l.alloc_fits(size, align) {
                lemma_alloc_advances(l, size, align);
            }
        },
        Request::AllocPages { num_pages } => {
            if l.pages_fit(num_pages, page_size) {
                lemma_alloc_pages_shrinks(l, num_pages, page_size);
            }
        },
        _ => {},
    }
}

/// In every state that a sequence of requests reaches from a fresh
/// initialisation, the byte cursor stays at or below the page cursor.
pub proof fn lemma_reachable_invariant(start: nat, size: nat, reqs: Seq<Request>, page_size: nat)
    requires
        page_size > 0,
    ensures
        Ledger::initial(start, size).run(reqs, page_size).consistent(),
        Ledger::initial(start, size).run(reqs, page_size).byte_cursor
            <= Ledger::initial(start, size).run(reqs, page_size).page_cursor,
{
    lemma_run_keeps_invariant(Ledger::initial(start, size), reqs, page_size);
}

/// Any sequence of requests keeps the invariant.
pub proof fn lemma_run_keeps_invariant(l: Ledger, reqs: Seq<Request>, page_size: nat)
    requires
        l.consistent(),
        page_size > 0,
    ensures
        l.run(reqs, page_size).consistent(),
    decreases reqs.len(),
{
    if reqs.len() > 0 {
        lemma_step_keeps_invariant(l, reqs[0], page_size);
        lemma_run_keeps_invariant(l.step(reqs[0], page_size), reqs.drop_first(), page_size);
    }
}

/// A byte allocation that fits moves the byte cursor forward, to the end of
/// the block it hands out, and keeps it at or below the page cursor.
pub proof fn lemma_alloc_advances(l: Ledger, size: nat, align: nat)
    requires
        l.consistent(),
        is_pow2(align as int),
        l.alloc_fits(size, align),
    ensures
        l.byte_cursor <= l.alloc_start(align),
        l.alloc_start(align) % (align as int) == 0,
        l.after_alloc(size, align).byte_cursor == l.alloc_start(align) + size,
        l.byte_cursor <= l.after_alloc(size, align).byte_cursor,
        l.after_alloc(size, align).byte_cursor <= l.after_alloc(size, align).page_cursor,
        l.after_alloc(size, align).consistent(),
{
    lemma_pow2_positive(align as int);
    lemma_align_up_bounds(l.byte_cursor as int, align as int);
}

/// A page allocation that fits moves the page cursor down by at least
/// `num_pages` pages, to a page boundary, and keeps it above the byte cursor.
pub proof fn lemma_alloc_pages_shrinks(l: Ledger, num_pages: nat, page_size: nat)
    requires
        l.consistent(),
        page_size > 0,
        l.pages_fit(num_pages, page_size),
    ensures
        l.page_candidate(num_pages, page_size) + num_pages * page_size <= l.page_cursor,
        l.page_candidate(num_pages, page_size) % (page_size as int) == 0,
        l.after_alloc_pages(num_pages, page_size).page_cursor == l.page_candidate(num_pages, page_size),
        l.byte_cursor < l.after_alloc_pages(num_pages, page_size).page_cursor,
        l.after_alloc_pages(num_pages, page_size).consistent(),
{
    lemma_align_down_bounds(l.page_cursor - num_pages * page_size, page_size as int);
}

/// Running two sequences of requests one after the other is running their
/// concatenation.
pub proof fn lemma_run_append(l: Ledger, a: Seq<Request>, b: Seq<Request>, page_size: nat)
    ensures
        l.run(a + b, page_size) == l.run(a, page_size).run(b, page_size),
    decreases a.len(),
{
    if a.len() > 0 {
        assert((a + b).drop_first() =~= a.drop_first() + b);
        assert((a + b)[0] == a[0]);
        lemma_run_append(l.step(a[0], page_size), a.drop_first(), b, page_size);
    } else {
        assert(a + b =~= b);
    }
}

/// A sequence made only of byte allocations never moves the byte cursor back.
proof fn lemma_allocs_never_retreat(l: Ledger, reqs: Seq<Request>, page_size: nat)
    requires
        l.consistent(),
        forall|k: int| 0 <= k < reqs.len() ==> reqs[k] is Alloc,
    ensures
        l.byte_cursor <= l.run(reqs, page_size).byte_cursor,
    decreases reqs.len(),
{
    if reqs.len() > 0 {
        let next = l.step(reqs[0], page_size);
        if let Request::Alloc { size, align } = reqs[0] {
            if is_pow2(align as int) && l.alloc_fits(size, align) {
                lemma_alloc_advances(l, size, align);
            }
        }
        lemma_allocs_never_retreat(next, reqs.drop_first(), page_size);
    }
}

/// Along any sequence of byte allocations, each successful or not, the byte
/// cursor never decreases and never passes the page cursor: for every two
/// points `i <= j` of the sequence, the cursor at `i` is at or below the
/// cursor at `j`, which is at or below the page cursor there.
pub proof fn lemma_byte_cursor_monotone(
    l: Ledger,
    reqs: Seq<Request>,
    page_size: nat,
    i: int,
    j: int,
)
    requires
        l.consistent(),
        page_size > 0,
        forall|k: int| 0 <= k < reqs.len() ==> reqs[k] is Alloc,
        0 <= i <= j <= reqs.len(),
    ensures
        l.run(reqs.take(i), page_size).byte_cursor <= l.run(reqs.take(j), page_size).byte_cursor,
        l.run(reqs.take(j), page_size).byte_cursor <= l.run(reqs.take(j), page_size).page_cursor,
{
    let mid = l.run(reqs.take(i), page_size);
    let rest = reqs.subrange(i, j);
    assert(reqs.take(j) =~= reqs.take(i) + rest);
    lemma_run_append(l, reqs.take(i), rest, page_size);
    lemma_run_keeps_invariant(l, reqs.take(i), page_size);
    lemma_allocs_never_retreat(mid, rest, page_size);
    lemma_run_keeps_invariant(l, reqs.take(j), page_size);
}

/// With no byte allocation live, two byte allocations followed by two
/// deallocations release the byte region: the byte cursor is back at the
/// start, the whole state is as before, and the first request, made again,
/// fits and gets the same address.
pub proof fn lemma_bulk_free(l: Ledger, size1: nat, align1: nat, size2: nat, align2: nat)
    requires
        l.consistent(),
        l.live_count == 0,
        is_pow2(align1 as int),
        is_pow2(align2 as int),
        l.alloc_fits(size1, align1),
        l.after_alloc(size1, align1).alloc_fits(size2, align2),
    ensures
        ({
            let freed = l.after_alloc(size1, align1).after_alloc(size2, align2).after_dealloc().after_dealloc();
            &&& freed.byte_cursor == l.start
            &&& freed.live_count == 0
            &&& freed == l
            &&& freed.alloc_fits(size1, align1)
            &&& freed.alloc_start(align1) == l.alloc_start(align1)
        }),
{
}

/// A page allocation that fits moves the page cursor to the page boundary at
/// or below `num_pages` pages under it, exactly `num_pages` pages when the
/// cursor was on a boundary, strictly down when `num_pages > 0`; a second one
/// hands out a run that ends where the first begins or below, so the two
/// runs do not overlap.
pub proof fn lemma_page_runs_disjoint(l: Ledger, n1: nat, n2: nat, page_size: nat)
    requires
        l.consistent(),
        page_size > 0,
        l.pages_fit(n1, page_size),
        l.after_alloc_pages(n1, page_size).pages_fit(n2, page_size),
    ensures
        ({
            let first = l.page_candidate(n1, page_size);
            let after = l.after_alloc_pages(n1, page_size);
            let second = after.page_candidate(n2, page_size);
            &&& after.page_cursor == spec_align_down(l.page_cursor - n1 * page_size, page_size as int)
            &&& first + n1 * page_size <= l.page_cursor
            &&& (l.page_cursor as int) % (page_size as int) == 0 ==> after.page_cursor == l.page_cursor - n1 * page_size
            &&& n1 > 0 ==> after.page_cursor < l.page_cursor
            &&& second + n2 * page_size <= first
            &&& first % (page_size as int) == 0
            &&& second % (page_size as int) == 0
        }),
{
    lemma_alloc_pages_shrinks(l, n1, page_size);
    let after = l.after_alloc_pages(n1, page_size);
    lemma_alloc_pages_shrinks(after, n2, page_size);
    let ps = page_size as int;
    if (l.page_cursor as int) % ps == 0 {
        let d = l.page_cursor - n1 * page_size;
        lemma_fundamental_div_mod(l.page_cursor as int, ps);
        let q = l.page_cursor as int / ps;
        assert(d == (q - n1) * ps) by (nonlinear_arith)
            requires
                d == l.page_cursor - n1 * page_size,
                l.page_cursor == ps * q + 0,
                ps == page_size,
        ;
        lemma_fundamental_div_mod_converse_mod(d, ps, q - n1, 0);
    }
    if n1 > 0 {
        assert(n1 * page_size > 0) by (nonlinear_arith)
            requires
                n1 > 0,
                page_size > 0,
        ;
    }
}

} // verus!
