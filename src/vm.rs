//! The memory layout of a user process: five page-aligned regions back to
//! back in one reserved extent.
use crate::errno::{Errno, Error};
use crate::prelude::{align_up, spec_align_up};
use vstd::prelude::*;

verus! {

pub const PAGE_SIZE: usize = 4096;

/// A half-open address range `[start, end)`.
#[derive(Clone, Copy, Debug, PartialEq, Eq, Structural)]
pub struct VMRange {
    pub start: usize,
    pub end: usize,
}

impl VMRange {
    /// Whether `addr` lies in the range; its end is outside.
    pub fn contains(&self, addr: usize) -> (r: bool)
        ensures
            r == (self.start <= addr && addr < self.end),
    {
        self.start <= addr && addr < self.end
    }

    pub fn get_start(&self) -> (r: usize)
        ensures
            r == self.start,
    {
        self.start
    }

    pub fn get_end(&self) -> (r: usize)
        ensures
            r == self.end,
    {
        self.end
    }
}

/// A page-aligned range of non-negative size.
pub open spec fn page_range(r: VMRange) -> bool {
    &&& r.start <= r.end
    &&& r.start % 4096 == 0
    &&& r.end % 4096 == 0
}

/// `n` rounded up to whole pages, where that fits in a `usize`.
pub open spec fn pages_of(n: int) -> int {
    spec_align_up(n, 4096)
}

/// The memory of one process.
pub struct ProcessVM {
    pub code: VMRange,
    pub data: VMRange,
    pub heap: VMRange,
    pub stack: VMRange,
    pub mmap: VMRange,
    pub brk: usize,
}

/// The layout that `ProcessVM::new` gives for an extent at `base`.
pub open spec fn spec_layout(
    base: int,
    code_size: int,
    data_size: int,
    heap_size: int,
    stack_size: int,
    mmap_size: int,
) -> Seq<(int, int)> {
    let c = base + pages_of(code_size);
    let d = c + pages_of(data_size);
    let h = d + pages_of(heap_size);
    let s = h + pages_of(stack_size);
    let m = s + pages_of(mmap_size);
    seq![(base, c), (c, d), (d, h), (h, s), (s, m)]
}

/// The bytes that the five regions take together.
pub open spec fn spec_extent(
    code_size: int,
    data_size: int,
    heap_size: int,
    stack_size: int,
    mmap_size: int,
) -> int {
    pages_of(code_size) + pages_of(data_size) + pages_of(heap_size) + pages_of(stack_size)
        + pages_of(mmap_size)
}

fn page_round(n: usize) -> (r: Option<usize>)
    ensures
        n + 4095 <= usize::MAX ==> r == Some(pages_of(n as int) as usize),
        n + 4095 > usize::MAX ==> r is None,
{
    if n > usize::MAX - 4095 {
        None
    } else {
        Some(align_up(n, PAGE_SIZE))
    }
}

impl ProcessVM {
    /// The regions are page-aligned, in the order code, data, heap, stack,
    /// mmap, each starting where the one before ends, and the heap pointer
    /// lies in the heap.
    pub open spec fn wf(&self) -> bool {
        &&& page_range(self.code)
        &&& page_range(self.data)
        &&& page_range(self.heap)
        &&& page_range(self.stack)
        &&& page_range(self.mmap)
        &&& self.code.end == self.data.start
        &&& self.data.end == self.heap.start
        &&& self.heap.end == self.stack.start
        &&& self.stack.end == self.mmap.start
        &&& self.heap.start <= self.brk <= self.heap.end
    }

    /// The five regions as `(start, end)` pairs, in address order.
    pub open spec fn regions(&self) -> Seq<(int, int)> {
        seq![
            (self.code.start as int, self.code.end as int),
            (self.data.start as int, self.data.end as int),
            (self.heap.start as int, self.heap.end as int),
            (self.stack.start as int, self.stack.end as int),
            (self.mmap.start as int, self.mmap.end as int),
        ]
    }

    /// How many bytes to reserve for the given region sizes, each rounded
    /// up to whole pages; `None` where that does not fit in a `usize`.
    pub fn extent_size(
        code_size: usize,
        data_size: usize,
        heap_size: usize,
        stack_size: usize,
        mmap_size: usize,
    ) -> (r: Option<usize>)
        ensures
            r is Some <==> spec_extent(
                code_size as int,
                data_size as int,
                heap_size as int,
                stack_size as int,
                mmap_size as int,
            ) <= usize::MAX && code_size + 4095 <= usize::MAX && data_size + 4095 <= usize::MAX
                && heap_size + 4095 <= usize::MAX && stack_size + 4095 <= usize::MAX && mmap_size
                + 4095 <= usize::MAX,
            r is Some ==> r->Some_0 == spec_extent(
                code_size as int,
                data_size as int,
                heap_size as int,
                stack_size as int,
                mmap_size as int,
            ),
    {
        let c = match page_round(code_size) { Some(v) => v, None => return None };
        let d = match page_round(data_size) { Some(v) => v, None => return None };
        let h = match page_round(heap_size) { Some(v) => v, None => return None };
        let s = match page_round(stack_size) { Some(v) => v, None => return None };
        let m = match page_round(mmap_size) { Some(v) => v, None => return None };
        if c > usize::MAX - d {
            return None;
        }
        let t: usize = c + d;
        if t > usize::MAX - h {
            return None;
        }
        let t: usize = t + h;
        if t > usize::MAX - s {
            return None;
        }
        let t: usize = t + s;
        if t > usize::MAX - m {
            return None;
        }
        Some(t + m)
    }

    /// Lays out the five regions in the extent that the allocator reserved
    /// at `base`, or fails with `ENOMEM` where it reserved none, where
    /// `base` is not page-aligned, or where the extent does not fit.
    pub fn new(
        base: Option<usize>,
        code_size: usize,
        data_size: usize,
        heap_size: usize,
        stack_size: usize,
        mmap_size: usize,
    ) -> (r: Result<ProcessVM, Error>)
        ensures
            r is Ok <==> base is Some && base->Some_0 % 4096 == 0 && code_size + 4095
                <= usize::MAX && data_size + 4095 <= usize::MAX && heap_size + 4095 <= usize::MAX
                && stack_size + 4095 <= usize::MAX && mmap_size + 4095 <= usize::MAX
                && base->Some_0 + spec_extent(
                code_size as int,
                data_size as int,
                heap_size as int,
                stack_size as int,
                mmap_size as int,
            ) <= usize::MAX,
            r is Ok ==> r->Ok_0.wf() && r->Ok_0.regions() == spec_layout(
                base->Some_0 as int,
                code_size as int,
                data_size as int,
                heap_size as int,
                stack_size as int,
                mmap_size as int,
            ) && r->Ok_0.brk == r->Ok_0.heap.start,
            r is Err ==> r->Err_0.errno == Errno::ENOMEM,
    {
        let b = match base {
            Some(b) => b,
            None => return Err(Error::new(Errno::ENOMEM, "no memory for the process")),
        };
        if b % PAGE_SIZE != 0 {
            return Err(Error::new(Errno::ENOMEM, "misaligned process memory"));
        }
        let total = match ProcessVM::extent_size(code_size, data_size, heap_size, stack_size, mmap_size) {
            Some(t) => t,
            None => return Err(Error::new(Errno::ENOMEM, "process memory too large")),
        };
        if b > usize::MAX - total {
            return Err(Error::new(Errno::ENOMEM, "process memory too large"));
        }
        let c = align_up(code_size, PAGE_SIZE);
        let d = align_up(data_size, PAGE_SIZE);
        let h = align_up(heap_size, PAGE_SIZE);
        let s = align_up(stack_size, PAGE_SIZE);
        let m = align_up(mmap_size, PAGE_SIZE);
        let code = VMRange { start: b, end: b + c };
        let data = VMRange { start: b + c, end: b + c + d };
        let heap = VMRange { start: b + c + d, end: b + c + d + h };
        let stack = VMRange { start: b + c + d + h, end: b + c + d + h + s };
        let mmap = VMRange { start: b + c + d + h + s, end: b + c + d + h + s + m };
        let vm = ProcessVM { code, data, heap, stack, mmap, brk: heap.start };
        proof {
            assert(vm.regions() =~= spec_layout(
                b as int,
                code_size as int,
                data_size as int,
                heap_size as int,
                stack_size as int,
                mmap_size as int,
            ));
        }
        Ok(vm)
    }

    pub fn get_base_addr(&self) -> (r: usize)
        ensures
            r == self.code.start,
    {
        self.code.start
    }

    pub fn get_code_range(&self) -> (r: VMRange)
        ensures
            r == self.code,
    {
        self.code
    }

    pub fn get_data_range(&self) -> (r: VMRange)
        ensures
            r == self.data,
    {
        self.data
    }

    pub fn get_heap_range(&self) -> (r: VMRange)
        ensures
            r == self.heap,
    {
        self.heap
    }

    pub fn get_stack_range(&self) -> (r: VMRange)
        ensures
            r == self.stack,
    {
        self.stack
    }

    pub fn get_mmap_range(&self) -> (r: VMRange)
        ensures
            r == self.mmap,
    {
        self.mmap
    }

    /// The first address above the stack, where it starts growing down.
    pub fn get_stack_top(&self) -> (r: usize)
        ensures
            r == self.stack.end,
    {
        self.stack.end
    }

    /// The current end of the heap.
    pub fn get_brk(&self) -> (r: usize)
        ensures
            r == self.brk,
    {
        self.brk
    }
}

/// The five regions of a well-formed process memory are page-aligned, in
/// the order code, data, heap, stack, mmap, and no two of them overlap.
pub proof fn vm_regions_ordered_and_disjoint(vm: ProcessVM)
    requires
        vm.wf(),
    ensures
        forall|i: int|
            0 <= i < 5 ==> (#[trigger] vm.regions()[i]).0 % 4096 == 0 && vm.regions()[i].1 % 4096
                == 0 && vm.regions()[i].0 <= vm.regions()[i].1,
        forall|i: int, j: int|
            0 <= i < j < 5 ==> (#[trigger] vm.regions()[i]).1 <= (#[trigger] vm.regions()[j]).0,
{
}

/// Where every region holds at least one page, the regions start in
/// strictly increasing order: code, data, heap, stack, mmap.
pub proof fn vm_region_starts_strictly_increase(vm: ProcessVM)
    requires
        vm.wf(),
        forall|i: int| 0 <= i < 5 ==> (#[trigger] vm.regions()[i]).0 < vm.regions()[i].1,
    ensures
        forall|i: int, j: int|
            0 <= i < j < 5 ==> (#[trigger] vm.regions()[i]).0 < (#[trigger] vm.regions()[j]).0,
{
    assert(vm.regions()[0].0 < vm.regions()[0].1);
    assert(vm.regions()[1].0 < vm.regions()[1].1);
    assert(vm.regions()[2].0 < vm.regions()[2].1);
    assert(vm.regions()[3].0 < vm.regions()[3].1);
}

/// A positive size takes at least one page.
proof fn lemma_pages_positive(n: int)
    requires
        n > 0,
    ensures
        pages_of(n) >= 4096,
{
    let q = (n + 4095) / 4096;
    assert(q >= 1) by (nonlinear_arith) requires n > 0, q == (n + 4095) / 4096;
    assert(q * 4096 >= 4096) by (nonlinear_arith) requires q >= 1;
}

/// Where every region is asked for with a positive size, the laid-out
/// regions start in strictly increasing order: code, data, heap, stack,
/// mmap.
pub proof fn layout_starts_strictly_increase(
    base: int,
    code_size: int,
    data_size: int,
    heap_size: int,
    stack_size: int,
    mmap_size: int,
)
    requires
        code_size > 0,
        data_size > 0,
        heap_size > 0,
        stack_size > 0,
        mmap_size > 0,
    ensures
        forall|i: int, j: int|
            0 <= i < j < 5 ==> (#[trigger] spec_layout(
                base,
                code_size,
                data_size,
                heap_size,
                stack_size,
                mmap_size,
            )[i]).0 < (#[trigger] spec_layout(
                base,
                code_size,
                data_size,
                heap_size,
                stack_size,
                mmap_size,
            )[j]).0,
{
    lemma_pages_positive(code_size);
    lemma_pages_positive(data_size);
    lemma_pages_positive(heap_size);
    lemma_pages_positive(stack_size);
    lemma_pages_positive(mmap_size);
}

} // verus!
