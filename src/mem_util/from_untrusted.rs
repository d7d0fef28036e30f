//! Checks and copies on memory outside the enclave: an address is
//! permitted where it stays clear of the enclave's own range.
use super::{outside, from_cstr, read_cstrings, spec_cstring, spec_cstrings, views, MemView};
use crate::errno::{Errno, Error};
use vstd::prelude::*;

verus! {

fn check_range(enclave: (u64, u64), ptr: u64, size: usize, count: usize) -> (r: Result<(), Error>)
    ensures
        r is Ok <==> size * count == 0 || outside(enclave, ptr as int, size * count),
        r is Err ==> r->Err_0.errno == Errno::EFAULT,
{
    if size == 0 || count == 0 {
        proof {
            assert(size as int * count as int == 0) by (nonlinear_arith)
                requires size == 0 || count == 0;
        }
        return Ok(());
    }
    proof {
        assert(size as int * count as int > 0) by (nonlinear_arith)
            requires size > 0, count > 0;
    }
    let room = u64::MAX - ptr;
    if (count as u64) > room / (size as u64) {
        proof {
            let s = size as int;
            let c = count as int;
            let rm = room as int;
            assert(s * c > rm) by (nonlinear_arith) requires c > rm / s, s > 0, rm >= 0;
        }
        return Err(Error::new(Errno::EFAULT, "range runs past the address space"));
    }
    proof {
        let s = size as int;
        let c = count as int;
        let rm = room as int;
        assert(s * c <= rm) by (nonlinear_arith) requires c <= rm / s, s > 0, rm >= 0;
    }
    let total: u64 = (size as u64) * (count as u64);
    if ptr >= enclave.1 || (ptr <= enclave.0 && total <= enclave.0 - ptr) {
        Ok(())
    } else {
        Err(Error::new(Errno::EFAULT, "address inside the enclave"))
    }
}

/// Checks that the `size` bytes at `out_ptr` lie outside the enclave
/// `[enclave.0, enclave.1)`, and end without wrapping past the top of the
/// address space. An empty range always passes.
pub fn check_ptr(enclave: (u64, u64), out_ptr: u64, size: usize) -> (r: Result<(), Error>)
    ensures
        r is Ok <==> size == 0 || outside(enclave, out_ptr as int, size as int),
        r is Err ==> r->Err_0.errno == Errno::EFAULT,
{
    check_range(enclave, out_ptr, size, 1)
}

/// Checks that `count` elements of `size` bytes at `out_ptr` lie outside
/// the enclave, and end without wrapping past the top of the address space.
/// An empty range always passes.
pub fn check_array(enclave: (u64, u64), out_ptr: u64, size: usize, count: usize) -> (r: Result<
    (),
    Error,
>)
    ensures
        r is Ok <==> size * count == 0 || outside(enclave, out_ptr as int, size * count),
        r is Err ==> r->Err_0.errno == Errno::EFAULT,
{
    check_range(enclave, out_ptr, size, count)
}

/// Copies a C string from outside the enclave; `mem` is the untrusted
/// memory that can be read.
pub fn clone_cstring_safely(enclave: (u64, u64), mem: &MemView, out_ptr: u64) -> (r: Result<
    String,
    Error,
>)
    ensures
        !outside(enclave, out_ptr as int, 1) ==> r is Err && r->Err_0.errno == Errno::EFAULT,
        outside(enclave, out_ptr as int, 1) ==> match spec_cstring(
            mem.base,
            mem.bytes@,
            out_ptr as int,
        ) {
            Ok(s) => r is Ok && r->Ok_0@ == s,
            Err(e) => r is Err && r->Err_0.errno == e,
        },
{
    match check_ptr(enclave, out_ptr, 1) {
        Ok(()) => {},
        Err(e) => return Err(e),
    }
    from_cstr(mem, out_ptr)
}

/// Copies the NULL-terminated array of C strings at `out_ptr` from outside
/// the enclave; a null pointer gives an empty list.
pub fn clone_cstrings_safely(enclave: (u64, u64), mem: &MemView, out_ptr: u64) -> (r: Result<
    Vec<String>,
    Error,
>)
    requires
        mem.wf(),
    ensures
        out_ptr == 0 ==> r is Ok && r->Ok_0@.len() == 0,
        out_ptr != 0 ==> match spec_cstrings(mem.base, mem.bytes@, enclave, out_ptr as int) {
            Ok(s) => r is Ok && views(r->Ok_0@) == s,
            Err(e) => r is Err && r->Err_0.errno == e,
        },
{
    read_cstrings(mem, enclave, out_ptr)
}

} // verus!
