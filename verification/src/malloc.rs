use vstd::prelude::*;

verus! {

/// A bump allocator over the address range `[head, end)`: every allocation
/// rounds `head` up to the requested alignment and moves it past the block.
/// Freed memory is never reused.
pub struct BumpPointerAlloc {
    /// First address not handed out yet.
    pub head: usize,
    /// End of the memory region.
    pub end: usize,
}

/// `head` rounded up to the next multiple of `align`.
pub open spec fn aligned_start(head: int, align: int) -> int {
    if head % align == 0 {
        head
    } else {
        head + align - head % align
    }
}

/// The block an allocation of `size` bytes aligned to `align` hands out when
/// the allocator's head is `head`: its start, or `None` when the aligned
/// start plus one alignment unit passes `end`.
pub open spec fn bump_block(head: int, end: int, align: int) -> Option<int> {
    let start = aligned_start(head, align);
    if start + align > end {
        None
    } else {
        Some(start)
    }
}

/// The head after such an allocation.
pub open spec fn bump_head(head: int, end: int, size: int, align: int) -> int {
    match bump_block(head, end, align) {
        Some(start) => start + size,
        None => head,
    }
}

/// The allocation of `size` bytes at `align` from `head` computes without
/// leaving the machine's address range.
pub open spec fn bump_in_range(head: int, end: int, size: int, align: int) -> bool {
    &&& align > 0
    &&& aligned_start(head, align) + align <= usize::MAX
    &&& (bump_block(head, end, align) is Some ==> aligned_start(head, align) + size <= usize::MAX)
}

impl BumpPointerAlloc {
    /// Hands out `size` bytes aligned to `align`, or `None` (the null
    /// pointer) when the aligned start plus `align` passes the end of the
    /// region; a refused request leaves the allocator unchanged.
    pub fn allocate(&mut self, size: usize, align: usize) -> (r: Option<usize>)
        requires
            bump_in_range(old(self).head as int, old(self).end as int, size as int, align as int),
        ensures
            match bump_block(old(self).head as int, old(self).end as int, align as int) {
                Some(start) => r == Some(start as usize),
                None => r is None,
            },
            final(self).head == bump_head(
                old(self).head as int,
                old(self).end as int,
                size as int,
                align as int,
            ),
            final(self).end == old(self).end,
            r is None ==> forall|p: int|
                old(self).head <= p < old(self).head + align && #[trigger] (p % (align as int)) == 0
                    ==> p + align > old(self).end,
            r is None ==> final(self).head == old(self).head,
            r matches Some(p) ==> {
                &&& p % align == 0
                &&& old(self).head <= p < old(self).head + align
                &&& p + align <= old(self).end
                &&& final(self).head == p + size
            },
    {
        let head = self.head;
        proof {
            law_aligned_start_is_next_multiple(head as int, align as int);
        }
        let res = head % align;
        let start = if res == 0 {
            head
        } else {
            head + align - res
        };
        proof {
            assert(start as int == aligned_start(head as int, align as int));
            if res != 0 {
                assert((head + align - res) % (align as int) == 0) by (nonlinear_arith)
                    requires
                        res == head % align,
                        align > 0,
                ;
            }
        }
        if start + align > self.end {
            None
        } else {
            self.head = start + size;
            Some(start)
        }
    }
}

/// The aligned start is the lowest multiple of `align` at or above `head`.
pub proof fn law_aligned_start_is_next_multiple(head: int, align: int)
    requires
        align > 0,
    ensures
        aligned_start(head, align) % align == 0,
        head <= aligned_start(head, align) < head + align,
        forall|p: int| head <= p && #[trigger] (p % align) == 0 ==> aligned_start(head, align) <= p,
{
    let s = aligned_start(head, align);
    assert(s % align == 0) by (nonlinear_arith)
        requires
            align > 0,
            s == (if head % align == 0 { head } else { head + align - head % align }),
    ;
    assert forall|p: int| head <= p && #[trigger] (p % align) == 0 implies s <= p by {
        assert(s <= p) by (nonlinear_arith)
            requires
                align > 0,
                head <= p,
                p % align == 0,
                s % align == 0,
                head <= s < head + align,
        {
            if p < s {
                assert(p / align * align == p);
                assert(s / align * align == s);
                assert(s - p < align);
                assert(s / align > p / align);
                assert(s - p >= align);
            }
        }
    }
}

/// A request is refused only when the region is used up: whenever the
/// aligned start plus one alignment unit fits below `end`, the block is handed
/// out at the aligned start.
pub proof fn law_refused_only_when_full(head: int, end: int, align: int)
    requires
        align > 0,
    ensures
        aligned_start(head, align) + align <= end ==> bump_block(head, end, align) == Some(
            aligned_start(head, align),
        ),
        bump_block(head, end, align) is None ==> aligned_start(head, align) + align > end,
        bump_block(head, end, align) matches Some(p) ==> p == aligned_start(head, align),
{
}

/// The head never moves backwards.
pub proof fn law_head_never_decreases(head: int, end: int, size: int, align: int)
    requires
        align > 0,
        size >= 0,
    ensures
        bump_head(head, end, size, align) >= head,
{
}

/// Two allocations in a row hand out disjoint blocks: the second block starts
/// at or after the end of the first.
pub proof fn law_consecutive_blocks_disjoint(
    head: int,
    end: int,
    size1: int,
    align1: int,
    size2: int,
    align2: int,
)
    requires
        align1 > 0,
        align2 > 0,
        size1 >= 0,
        bump_block(head, end, align1) is Some,
        bump_block(bump_head(head, end, size1, align1), end, align2) is Some,
    ensures
        bump_block(head, end, align1).unwrap() + size1 <= bump_block(
            bump_head(head, end, size1, align1),
            end,
            align2,
        ).unwrap(),
{
}

/// A refused request is refused again as long as nothing else changes.
pub proof fn law_refusal_is_stable(head: int, end: int, size: int, align: int)
    requires
        align > 0,
        bump_block(head, end, align) is None,
    ensures
        bump_head(head, end, size, align) == head,
        bump_block(bump_head(head, end, size, align), end, align) is None,
{
}

} // verus!
