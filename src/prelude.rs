use vstd::prelude::*;

verus! {

/// The smallest multiple of `align` that is not below `addr`.
pub open spec fn spec_align_up(addr: int, align: int) -> int {
    (addr + align - 1) / align * align
}

/// The largest multiple of `align` that is not above `addr`.
pub open spec fn spec_align_down(addr: int, align: int) -> int {
    addr - addr % align
}

/// Rounds `addr` up to a multiple of `align`.
pub fn align_up(addr: usize, align: usize) -> (r: usize)
    requires
        align > 0,
        addr + align - 1 <= usize::MAX,
    ensures
        r == spec_align_up(addr as int, align as int),
        r >= addr,
        r < addr + align,
        r % align == 0,
{
    let s: usize = addr + (align - 1);
    let q: usize = s / align;
    proof {
        let a = align as int;
        let si = s as int;
        let qi = q as int;
        assert(qi * a <= si) by (nonlinear_arith) requires qi == si / a, a > 0, si >= 0;
        assert(qi * a > si - a) by (nonlinear_arith) requires qi == si / a, a > 0, si >= 0;
        assert((qi * a) % a == 0) by (nonlinear_arith) requires a > 0, qi >= 0;
    }
    q * align
}

/// Rounds `addr` down to a multiple of `align`.
pub fn align_down(addr: usize, align: usize) -> (r: usize)
    requires
        align > 0,
    ensures
        r == spec_align_down(addr as int, align as int),
        r <= addr,
        r % align == 0,
        addr - r < align,
{
    proof {
        let a = align as int;
        let x = addr as int;
        assert((x - x % a) % a == 0 && 0 <= x % a < a) by (nonlinear_arith) requires a > 0, x >= 0;
        assert(x % a <= x) by (nonlinear_arith) requires a > 0, x >= 0;
    }
    addr - addr % align
}

/// The value a box holds.
pub fn unbox<T>(value: Box<T>) -> (r: T)
    ensures
        r == *value,
{
    *value
}

} // verus!
