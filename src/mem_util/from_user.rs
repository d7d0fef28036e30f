//! Checks and copies on memory of a user process running inside the
//! enclave: an address is permitted where it lies in the process's memory.
use super::{in_window, from_cstr, read_cstrings, spec_cstring, spec_cstrings, views, MemView};
use crate::errno::{Errno, Error};
use vstd::prelude::*;

verus! {

/// Whether `count` elements of `size` bytes at `ptr` lie in the user
/// process's memory, without running past the top of the address space;
/// an empty range always does.
pub open spec fn user_range_ok(mem: &MemView, ptr: u64, size: int, count: int) -> bool {
    ||| size * count == 0
    ||| {
        &&& in_window(mem.base, mem.bytes@.len() as int, ptr as int, size * count)
        &&& ptr + size * count <= u64::MAX
    }
}

fn check_range(mem: &MemView, ptr: u64, size: usize, count: usize) -> (r: Result<(), Error>)
    ensures
        r is Ok <==> user_range_ok(mem, ptr, size as int, count as int),
        r is Err ==> r->Err_0.errno == Errno::EFAULT,
{
    if size == 0 || count == 0 {
        proof {
            assert(size as int * count as int == 0) by (nonlinear_arith)
                requires size == 0 || count == 0;
        }
        return Ok(());
    }
    proof {
        assert(size as int * count as int > 0) by (nonlinear_arith)
            requires size > 0, count > 0;
    }
    let len = mem.bytes.len() as u64;
    if ptr < mem.base || ptr - mem.base > len {
        return Err(Error::new(Errno::EFAULT, "address outside the user memory"));
    }
    let room = len - (ptr - mem.base);
    if (count as u64) > room / (size as u64) {
        proof {
            let s = size as int;
            let c = count as int;
            let rm = room as int;
            assert(s * c > rm) by (nonlinear_arith) requires c > rm / s, s > 0, rm >= 0;
        }
        return Err(Error::new(Errno::EFAULT, "address outside the user memory"));
    }
    proof {
        let s = size as int;
        let c = count as int;
        let rm = room as int;
        assert(s * c <= rm) by (nonlinear_arith) requires c <= rm / s, s > 0, rm >= 0;
    }
    let total: u64 = (size as u64) * (count as u64);
    if total > u64::MAX - ptr {
        return Err(Error::new(Errno::EFAULT, "range runs past the address space"));
    }
    Ok(())
}

/// Checks that the `size` bytes at `user_ptr` are readable user memory.
pub fn check_ptr(mem: &MemView, user_ptr: u64, size: usize) -> (r: Result<(), Error>)
    ensures
        r is Ok <==> user_range_ok(mem, user_ptr, size as int, 1),
        r is Err ==> r->Err_0.errno == Errno::EFAULT,
{
    check_range(mem, user_ptr, size, 1)
}

/// Checks that the `size` bytes at `user_ptr` are writable user memory.
pub fn check_mut_ptr(mem: &MemView, user_ptr: u64, size: usize) -> (r: Result<(), Error>)
    ensures
        r is Ok <==> user_range_ok(mem, user_ptr, size as int, 1),
        r is Err ==> r->Err_0.errno == Errno::EFAULT,
{
    check_range(mem, user_ptr, size, 1)
}

/// Checks that `count` elements of `size` bytes at `user_buf` are readable
/// user memory.
pub fn check_array(mem: &MemView, user_buf: u64, size: usize, count: usize) -> (r: Result<(), Error>)
    ensures
        r is Ok <==> user_range_ok(mem, user_buf, size as int, count as int),
        r is Err ==> r->Err_0.errno == Errno::EFAULT,
{
    check_range(mem, user_buf, size, count)
}

/// Checks that `count` elements of `size` bytes at `user_buf` are writable
/// user memory.
pub fn check_mut_array(mem: &MemView, user_buf: u64, size: usize, count: usize) -> (r: Result<
    (),
    Error,
>)
    ensures
        r is Ok <==> user_range_ok(mem, user_buf, size as int, count as int),
        r is Err ==> r->Err_0.errno == Errno::EFAULT,
{
    check_range(mem, user_buf, size, count)
}

/// Copies a C string out of the user process's memory.
pub fn clone_cstring_safely(mem: &MemView, user_ptr: u64) -> (r: Result<String, Error>)
    ensures
        !user_range_ok(mem, user_ptr, 1, 1) ==> r is Err && r->Err_0.errno == Errno::EFAULT,
        user_range_ok(mem, user_ptr, 1, 1) ==> match spec_cstring(
            mem.base,
            mem.bytes@,
            user_ptr as int,
        ) {
            Ok(s) => r is Ok && r->Ok_0@ == s,
            Err(e) => r is Err && r->Err_0.errno == e,
        },
{
    match check_ptr(mem, user_ptr, 1) {
        Ok(()) => {},
        Err(e) => return Err(e),
    }
    from_cstr(mem, user_ptr)
}

/// Copies the NULL-terminated array of C strings at `user_ptr` out of the
/// user process's memory; a null pointer gives an empty list.
pub fn clone_cstrings_safely(mem: &MemView, user_ptr: u64) -> (r: Result<Vec<String>, Error>)
    requires
        mem.wf(),
    ensures
        user_ptr == 0 ==> r is Ok && r->Ok_0@.len() == 0,
        user_ptr != 0 ==> match spec_cstrings(mem.base, mem.bytes@, (0u64, 0u64), user_ptr as int) {
            Ok(s) => r is Ok && views(r->Ok_0@) == s,
            Err(e) => r is Err && r->Err_0.errno == e,
        },
{
    read_cstrings(mem, (0u64, 0u64), user_ptr)
}

} // verus!
