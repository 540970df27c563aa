use vstd::prelude::*;

verus! {

/// Size of the kernel heap that the bump allocator hands out.
pub const HEAP_SIZE: usize = 1048576;

/// `align` is a power of two.
pub open spec fn is_pow2(align: usize) -> bool {
    align != 0 && align & ((align - 1) as usize) == 0
}

/// `addr` rounded up to a multiple of the power of two `align`.
pub open spec fn spec_align_up(addr: usize, align: usize) -> usize {
    ((addr + align - 1) as usize) & !((align - 1) as usize)
}

/// Rounding up to a power of two gives the least multiple of it at or above `addr`.
pub proof fn lemma_align_up(addr: usize, align: usize)
    requires
        is_pow2(align),
        addr + align - 1 <= usize::MAX,
    ensures
        addr <= spec_align_up(addr, align),
        spec_align_up(addr, align) <= addr + align - 1,
        spec_align_up(addr, align) & ((align - 1) as usize) == 0,
{
    let y = (addr + align - 1) as usize;
    let m = (align - 1) as usize;
    assert(y & !m <= y) by (bit_vector);
    assert(y - (y & !m) == y & m) by (bit_vector);
    assert(y & m <= m) by (bit_vector);
    assert((y & !m) & m == 0) by (bit_vector);
}

/// Rounds `addr` up to a multiple of `align`.
pub fn align_up(addr: usize, align: usize) -> (r: usize)
    requires
        is_pow2(align),
        addr + align - 1 <= usize::MAX,
    ensures
        r == spec_align_up(addr, align),
        addr <= r <= addr + align - 1,
        r & ((align - 1) as usize) == 0,
{
    proof {
        lemma_align_up(addr, align);
    }
    (addr + (align - 1)) & !(align - 1)
}

/// A bump allocator over a fixed heap: it only ever moves its cursor forward.
pub struct BumpAllocator {
    next: usize,
}

/// The effect of one allocation of `size` bytes aligned to `align`, from cursor `next`
/// (0 while unused) over the heap at `heap_start`: the new cursor and the address handed
/// out, if any. An unused cursor is moved to the heap start even when the request fails.
pub open spec fn alloc_step(next: usize, heap_start: usize, size: usize, align: usize) -> (
    usize,
    Option<usize>,
) {
    let current = if next == 0 {
        heap_start
    } else {
        next
    };
    let start = spec_align_up(current, align);
    if current + align - 1 > usize::MAX || start + size > usize::MAX || start + size > heap_start
        + HEAP_SIZE {
        (current, None)
    } else {
        ((start + size) as usize, Some(start))
    }
}

impl BumpAllocator {
    /// The cursor: the first free address, or 0 before the first allocation.
    pub closed spec fn cursor(&self) -> usize {
        self.next
    }

    /// An allocator that has handed out nothing.
    pub fn new() -> (r: Self)
        ensures
            r.cursor() == 0,
    {
        BumpAllocator { next: 0 }
    }

    /// Start and end of the heap that starts at `heap_start`.
    pub fn heap_bounds(&self, heap_start: usize) -> (r: (usize, usize))
        requires
            heap_start + HEAP_SIZE <= usize::MAX,
        ensures
            r == (heap_start, (heap_start + HEAP_SIZE) as usize),
    {
        (heap_start, heap_start + HEAP_SIZE)
    }

    /// Hands out `size` bytes aligned to `align` from the heap at `heap_start`, or `None`
    /// when they do not fit (the address arithmetic overflowing counts as not fitting).
    pub fn allocate(&mut self, heap_start: usize, size: usize, align: usize) -> (r: Option<usize>)
        requires
            is_pow2(align),
            heap_start + HEAP_SIZE <= usize::MAX,
        ensures
            alloc_step(old(self).cursor(), heap_start, size, align) == (final(self).cursor(), r),
    {
        let (_, heap_end) = self.heap_bounds(heap_start);
        let mut current = self.next;
        if current == 0 {
            self.next = heap_start;
            current = heap_start;
        }
        if align - 1 > usize::MAX - current {
            return None;
        }
        let alloc_start = align_up(current, align);
        if size > usize::MAX - alloc_start {
            return None;
        }
        let alloc_end = alloc_start + size;
        if alloc_end > heap_end {
            return None;
        }
        self.next = alloc_end;
        Some(alloc_start)
    }
}

/// Two successive allocations never overlap: the second starts at or after the end of
/// the first, and both lie inside the heap with the alignment asked for.
pub proof fn lemma_allocations_disjoint(
    next: usize,
    heap_start: usize,
    size1: usize,
    align1: usize,
    size2: usize,
    align2: usize,
)
    requires
        is_pow2(align1),
        is_pow2(align2),
        heap_start + HEAP_SIZE <= usize::MAX,
        next == 0 || heap_start <= next,
        alloc_step(next, heap_start, size1, align1).1 is Some,
        alloc_step(alloc_step(next, heap_start, size1, align1).0, heap_start, size2, align2).1 is Some,
    ensures
        ({
            let (n1, p1) = alloc_step(next, heap_start, size1, align1);
            let (n2, p2) = alloc_step(n1, heap_start, size2, align2);
            &&& heap_start <= p1.unwrap()
            &&& p1.unwrap() + size1 <= p2.unwrap()
            &&& p2.unwrap() + size2 <= heap_start + HEAP_SIZE
            &&& p1.unwrap() & ((align1 - 1) as usize) == 0
            &&& p2.unwrap() & ((align2 - 1) as usize) == 0
        }),
{
    let current = if next == 0 {
        heap_start
    } else {
        next
    };
    lemma_align_up(current, align1);
    let (n1, p1) = alloc_step(next, heap_start, size1, align1);
    if n1 != 0 {
        lemma_align_up(n1, align2);
    } else {
        lemma_align_up(heap_start, align2);
    }
}


/// The cursor an allocation starts from: the heap start while the allocator is unused.
pub open spec fn effective_cursor(next: usize, heap_start: usize) -> usize {
    if next == 0 {
        heap_start
    } else {
        next
    }
}

/// One allocation never moves the cursor back nor out of the heap, and what it hands
/// out starts at or after the cursor, aligned, and ends at the new cursor.
pub proof fn lemma_alloc_step(next: usize, heap_start: usize, size: usize, align: usize)
    requires
        is_pow2(align),
        heap_start + HEAP_SIZE <= usize::MAX,
        next == 0 || heap_start <= next <= heap_start + HEAP_SIZE,
    ensures
        ({
            let (n, p) = alloc_step(next, heap_start, size, align);
            &&& heap_start <= n <= heap_start + HEAP_SIZE
            &&& effective_cursor(next, heap_start) <= n
            &&& p matches Some(a) ==> effective_cursor(next, heap_start) <= a && a + size == n && a & ((
                align - 1) as usize) == 0
        }),
{
    let current = effective_cursor(next, heap_start);
    if current + align - 1 <= usize::MAX {
        lemma_align_up(current, align);
    }
}

/// The cursors and results of a run of allocations (`reqs[i]` is the size and the
/// alignment of the `i`-th), from cursor `next`.
pub open spec fn alloc_run(next: usize, heap_start: usize, reqs: Seq<(usize, usize)>) -> Seq<(usize, Option<usize>)>
    decreases reqs.len(),
{
    if reqs.len() == 0 {
        Seq::empty()
    } else {
        let prev = alloc_run(next, heap_start, reqs.drop_last());
        let c = if reqs.len() == 1 {
            next
        } else {
            prev.last().0
        };
        prev.push(alloc_step(c, heap_start, reqs.last().0, reqs.last().1))
    }
}

pub open spec fn run_ok(next: usize, heap_start: usize, reqs: Seq<(usize, usize)>) -> bool {
    &&& heap_start + HEAP_SIZE <= usize::MAX
    &&& next == 0 || heap_start <= next <= heap_start + HEAP_SIZE
    &&& forall|i: int| 0 <= i < reqs.len() ==> is_pow2(#[trigger] reqs[i].1)
}

proof fn lemma_run(next: usize, heap_start: usize, reqs: Seq<(usize, usize)>)
    requires
        run_ok(next, heap_start, reqs),
    ensures
        alloc_run(next, heap_start, reqs).len() == reqs.len(),
        forall|i: int|
            0 <= i < reqs.len() ==> heap_start <= (#[trigger] alloc_run(next, heap_start, reqs)[i]).0
                <= heap_start + HEAP_SIZE,
        forall|i: int, k: int|
            0 <= i <= k < reqs.len() ==> (#[trigger] alloc_run(next, heap_start, reqs)[i]).0 <= (
            #[trigger] alloc_run(next, heap_start, reqs)[k]).0,
        forall|i: int|
            0 <= i < reqs.len() ==> ((#[trigger] alloc_run(next, heap_start, reqs)[i]).1 matches Some(a)
                ==> a + reqs[i].0 == alloc_run(next, heap_start, reqs)[i].0 && heap_start <= a && a & ((
                reqs[i].1 - 1) as usize) == 0),
        forall|i: int, j: int|
            0 <= i < j < reqs.len() ==> ((#[trigger] alloc_run(next, heap_start, reqs)[j]).1 matches Some(
                a,
            ) ==> (#[trigger] alloc_run(next, heap_start, reqs)[i]).0 <= a),
    decreases reqs.len(),
{
    if reqs.len() > 0 {
        let pre = reqs.drop_last();
        assert forall|i: int| 0 <= i < pre.len() implies is_pow2(#[trigger] pre[i].1) by {
            assert(pre[i] == reqs[i]);
        }
        lemma_run(next, heap_start, pre);
        let prev = alloc_run(next, heap_start, pre);
        let c = if reqs.len() == 1 {
            next
        } else {
            prev.last().0
        };
        assert(is_pow2(reqs[reqs.len() - 1].1));
        lemma_alloc_step(c, heap_start, reqs.last().0, reqs.last().1);
        let run = alloc_run(next, heap_start, reqs);
        assert(run == prev.push(alloc_step(c, heap_start, reqs.last().0, reqs.last().1)));
        assert forall|i: int| 0 <= i < pre.len() implies #[trigger] run[i] == prev[i] && reqs[i] == pre[i] by {}
        if reqs.len() > 1 {
            assert(prev[prev.len() - 1].0 <= effective_cursor(c, heap_start));
        }
    }
}

/// Any two allocations of a run from an unused allocator (or from a cursor inside the
/// heap) that both succeed hand out ranges that do not overlap, each inside the heap and
/// aligned as asked: the cursor only moves forward and each range ends where the cursor
/// stops.
pub proof fn lemma_any_two_allocations_disjoint(
    next: usize,
    heap_start: usize,
    reqs: Seq<(usize, usize)>,
    i: int,
    j: int,
)
    requires
        heap_start + HEAP_SIZE <= usize::MAX,
        next == 0 || heap_start <= next <= heap_start + HEAP_SIZE,
        forall|k: int| 0 <= k < reqs.len() ==> is_pow2(#[trigger] reqs[k].1),
        0 <= i < j < reqs.len(),
        alloc_run(next, heap_start, reqs)[i].1 is Some,
        alloc_run(next, heap_start, reqs)[j].1 is Some,
    ensures
        ({
            let a = alloc_run(next, heap_start, reqs)[i].1->0;
            let b = alloc_run(next, heap_start, reqs)[j].1->0;
            &&& heap_start <= a
            &&& a + reqs[i].0 <= b
            &&& b + reqs[j].0 <= heap_start + HEAP_SIZE
            &&& a & ((reqs[i].1 - 1) as usize) == 0
            &&& b & ((reqs[j].1 - 1) as usize) == 0
        }),
{
    lemma_run(next, heap_start, reqs);
    let run = alloc_run(next, heap_start, reqs);
    assert(run[i].0 <= run[j].0);
    let b = run[j].1->0;
    assert(run[i].0 <= b);
}


impl BumpAllocator {
    /// Makes the allocations `reqs` (size, alignment) one after the other with `allocate`,
    /// giving what each handed out (see `alloc_run`): any two that succeed never overlap,
    /// and each lies inside the heap, aligned as asked.
    pub fn allocate_all(&mut self, heap_start: usize, reqs: &[(usize, usize)]) -> (r: Vec<Option<usize>>)
        requires
            heap_start + HEAP_SIZE <= usize::MAX,
            old(self).cursor() == 0 || heap_start <= old(self).cursor() <= heap_start + HEAP_SIZE,
            forall|k: int| 0 <= k < reqs.len() ==> is_pow2(#[trigger] reqs[k].1),
        ensures
            r.len() == reqs.len(),
            forall|k: int| 0 <= k < reqs.len() ==> #[trigger] r[k] == alloc_run(old(self).cursor(), heap_start, reqs@)[k].1,
            forall|i: int, j: int|
                0 <= i < j < reqs.len() && #[trigger] r[i] is Some && #[trigger] r[j] is Some ==> r[i]->0 + reqs[i].0
                    <= r[j]->0,
            forall|k: int|
                0 <= k < reqs.len() && #[trigger] r[k] is Some ==> heap_start <= r[k]->0 && r[k]->0 + reqs[k].0
                    <= heap_start + HEAP_SIZE && r[k]->0 & ((reqs[k].1 - 1) as usize) == 0,
    {
        let ghost c0 = self.cursor();
        let mut r: Vec<Option<usize>> = Vec::new();
        let mut i = 0usize;
        while i < reqs.len()
            invariant
                heap_start + HEAP_SIZE <= usize::MAX,
                forall|k: int| 0 <= k < reqs.len() ==> is_pow2(#[trigger] reqs[k].1),
                i <= reqs.len(),
                r.len() == i,
                alloc_run(c0, heap_start, reqs@.take(i as int)).len() == i,
                forall|k: int| 0 <= k < i ==> #[trigger] r[k] == alloc_run(c0, heap_start, reqs@.take(i as int))[k].1,
                self.cursor() == (if i == 0 {
                    c0
                } else {
                    alloc_run(c0, heap_start, reqs@.take(i as int)).last().0
                }),
            decreases reqs.len() - i,
        {
            let (size, align) = reqs[i];
            assert(is_pow2(reqs@[i as int].1));
            let ghost prev = alloc_run(c0, heap_start, reqs@.take(i as int));
            let a = self.allocate(heap_start, size, align);
            r.push(a);
            proof {
                let next = reqs@.take(i + 1);
                assert(next.drop_last() =~= reqs@.take(i as int));
                assert(next.last() == reqs@[i as int]);
                assert(alloc_run(c0, heap_start, next) == prev.push(alloc_step(
                    if i == 0 { c0 } else { prev.last().0 },
                    heap_start,
                    size,
                    align,
                )));
            }
            i += 1;
        }
        proof {
            assert(reqs@.take(reqs.len() as int) =~= reqs@);
            lemma_run(c0, heap_start, reqs@);
            assert forall|a: int, b: int|
                0 <= a < b < reqs.len() && #[trigger] r[a] is Some && #[trigger] r[b] is Some implies r[a]->0
                    + reqs[a].0 <= r[b]->0 by {
                lemma_any_two_allocations_disjoint(c0, heap_start, reqs@, a, b);
            }
        }
        r
    }
}

} // verus!
