//! Reading values that cross a trust boundary: C strings and
//! NULL-terminated arrays of C strings, out of a window of memory, after
//! checking that every address lies where it may.
use crate::errno::{Errno, Error};
use vstd::prelude::*;
use vstd::utf8::{decode_utf8, valid_utf8};

pub mod from_untrusted;
pub mod from_user;

verus! {

/// A window of memory: the bytes at addresses `[base, base + bytes.len())`.
pub struct MemView {
    pub base: u64,
    pub bytes: Vec<u8>,
}

impl MemView {
    /// The window ends at an address that a `u64` can hold.
    pub open spec fn wf(&self) -> bool {
        self.base + self.bytes@.len() <= u64::MAX
    }
}

/// The addresses that the window covers.
pub open spec fn in_window(base: u64, len: int, addr: int, size: int) -> bool {
    base <= addr && addr + size <= base + len
}

/// Whether the C string at offset `off` of `m` ends, with its NUL, at
/// offset `off + n`.
pub open spec fn cstr_ends_at(m: Seq<u8>, off: int, n: int) -> bool {
    &&& 0 <= off
    &&& 0 <= n
    &&& off + n < m.len()
    &&& m[off + n] == 0
    &&& forall|j: int| off <= j < off + n ==> m[j] != 0
}

/// The bytes of the C string at offset `off` of `m`, without its NUL;
/// `None` where no NUL follows within `m`.
pub open spec fn cstr_at(m: Seq<u8>, off: int) -> Option<Seq<u8>> {
    if exists|n: int| cstr_ends_at(m, off, n) {
        Some(m.subrange(off, off + choose|n: int| cstr_ends_at(m, off, n)))
    } else {
        None
    }
}

/// The string read at `addr` of the window `(base, m)`: `EFAULT` where the
/// bytes up to a NUL are not all in the window, `EINVAL` where they are not
/// UTF-8.
pub open spec fn spec_cstring(base: u64, m: Seq<u8>, addr: int) -> Result<Seq<char>, Errno> {
    if addr < base {
        Err(Errno::EFAULT)
    } else {
        match cstr_at(m, addr - base) {
            None => Err(Errno::EFAULT),
            Some(b) => if valid_utf8(b) {
                Ok(decode_utf8(b))
            } else {
                Err(Errno::EINVAL)
            },
        }
    }
}

/// The little-endian word of the eight bytes at offset `off` of `m`.
pub open spec fn le_word(m: Seq<u8>, off: int) -> u64 {
    (m[off] as u64) | ((m[off + 1] as u64) << 8u64) | ((m[off + 2] as u64) << 16u64) | ((
    m[off + 3] as u64) << 24u64) | ((m[off + 4] as u64) << 32u64) | ((m[off + 5] as u64)
        << 40u64) | ((m[off + 6] as u64) << 48u64) | ((m[off + 7] as u64) << 56u64)
}

/// Whether the `size` bytes at `addr` end within the 64-bit address space
/// without wrapping, and stay clear of the fenced range `[fence.0, fence.1)`.
pub open spec fn outside(fence: (u64, u64), addr: int, size: int) -> bool {
    &&& addr + size <= u64::MAX
    &&& (addr + size <= fence.0 || addr >= fence.1)
}

/// The strings of the NULL-terminated pointer array at `addr`, from the
/// pointer at `addr` on: each pointer word must be in the window and clear
/// of the fence, each string must start clear of the fence and is read as
/// `spec_cstring` reads it; the first failure wins.
pub open spec fn spec_cstrings(base: u64, m: Seq<u8>, fence: (u64, u64), addr: int) -> Result<
    Seq<Seq<char>>,
    Errno,
>
    decreases base + m.len() - addr,
{
    if !in_window(base, m.len() as int, addr, 8) || !outside(fence, addr, 8) {
        Err(Errno::EFAULT)
    } else {
        let w = le_word(m, addr - base);
        if w == 0 {
            Ok(Seq::empty())
        } else if !outside(fence, w as int, 1) {
            Err(Errno::EFAULT)
        } else {
            match spec_cstring(base, m, w as int) {
                Err(e) => Err(e),
                Ok(s) => match spec_cstrings(base, m, fence, addr + 8) {
                    Err(e) => Err(e),
                    Ok(rest) => Ok(seq![s] + rest),
                },
            }
        }
    }
}

/// Relies on `std::str::from_utf8`: it accepts exactly the well-formed
/// UTF-8 byte sequences, and the string holds the characters they encode.
#[verifier::external_body]
fn utf8_string(b: &[u8]) -> (r: Option<String>)
    ensures
        r is Some <==> valid_utf8(b@),
        r is Some ==> r->Some_0@ == decode_utf8(b@),
{
    std::str::from_utf8(b).ok().map(String::from)
}

/// Copies the C string at `addr` out of the window.
pub fn from_cstr(mem: &MemView, addr: u64) -> (r: Result<String, Error>)
    ensures
        match spec_cstring(mem.base, mem.bytes@, addr as int) {
            Ok(s) => r is Ok && r->Ok_0@ == s,
            Err(e) => r is Err && r->Err_0.errno == e,
        },
{
    if addr < mem.base {
        return Err(Error::new(Errno::EFAULT, "string outside the permitted memory"));
    }
    let off = addr - mem.base;
    let len = mem.bytes.len();
    if off >= len as u64 {
        proof {
            assert(!exists|n: int| cstr_ends_at(mem.bytes@, off as int, n));
        }
        return Err(Error::new(Errno::EFAULT, "string outside the permitted memory"));
    }
    let off = off as usize;
    assert(off as int == addr - mem.base);
    let mut i: usize = off;
    while i < len
        invariant
            off <= i <= len,
            len == mem.bytes@.len(),
            mem.base <= addr,
            off as int == addr - mem.base,
            forall|j: int| off <= j < i ==> mem.bytes@[j] != 0,
        decreases len - i,
    {
        if mem.bytes[i] == 0 {
            let mut bytes: Vec<u8> = Vec::new();
            let mut j: usize = off;
            while j < i
                invariant
                    off <= j <= i,
                    i < len,
                    len == mem.bytes@.len(),
                    bytes@ == mem.bytes@.subrange(off as int, j as int),
                decreases i - j,
            {
                bytes.push(mem.bytes[j]);
                j = j + 1;
                assert(bytes@ =~= mem.bytes@.subrange(off as int, j as int));
            }
            proof {
                let n = (i - off) as int;
                assert(cstr_ends_at(mem.bytes@, off as int, n));
                let c = choose|n: int| cstr_ends_at(mem.bytes@, off as int, n);
                if c < n {
                    assert(mem.bytes@[off + c] != 0);
                }
                if c > n {
                    assert(mem.bytes@[off + n] != 0);
                }
            }
            assert(cstr_at(mem.bytes@, off as int) == Some(bytes@));
            return match utf8_string(bytes.as_slice()) {
                Some(s) => Ok(s),
                None => Err(Error::new(Errno::EINVAL, "string is not UTF-8")),
            };
        }
        i = i + 1;
    }
    proof {
        assert forall|n: int| !cstr_ends_at(mem.bytes@, off as int, n) by {
            if cstr_ends_at(mem.bytes@, off as int, n) {
                assert(mem.bytes@[off + n] != 0);
            }
        }
    }
    Err(Error::new(Errno::EFAULT, "string outside the permitted memory"))
}

/// The word at `addr` of the window; the caller has checked that its eight
/// bytes lie there.
fn read_word(mem: &MemView, addr: u64) -> (r: u64)
    requires
        in_window(mem.base, mem.bytes@.len() as int, addr as int, 8),
    ensures
        r == le_word(mem.bytes@, addr - mem.base),
{
    let len: usize = mem.bytes.len();
    assert((addr - mem.base) as int + 8 <= len);
    let o = (addr - mem.base) as usize;
    (mem.bytes[o] as u64) | ((mem.bytes[o + 1] as u64) << 8u64) | ((mem.bytes[o + 2] as u64)
        << 16u64) | ((mem.bytes[o + 3] as u64) << 24u64) | ((mem.bytes[o + 4] as u64) << 32u64)
        | ((mem.bytes[o + 5] as u64) << 40u64) | ((mem.bytes[o + 6] as u64) << 48u64) | ((
    mem.bytes[o + 7] as u64) << 56u64)
}

/// The views of the strings.
pub open spec fn views(v: Seq<String>) -> Seq<Seq<char>> {
    Seq::new(v.len(), |i: int| v[i]@)
}

fn clear_of(fence: (u64, u64), addr: u64, size: u64) -> (r: bool)
    ensures
        r == outside(fence, addr as int, size as int),
{
    size <= u64::MAX - addr && (addr >= fence.1 || (addr <= fence.0 && size <= fence.0 - addr))
}

/// Copies the strings of the NULL-terminated pointer array at `addr`,
/// refusing addresses that reach into the fenced range; a null `addr`
/// gives no strings.
pub fn read_cstrings(mem: &MemView, fence: (u64, u64), addr: u64) -> (r: Result<Vec<String>, Error>)
    requires
        mem.wf(),
    ensures
        addr == 0 ==> r is Ok && r->Ok_0@.len() == 0,
        addr != 0 ==> match spec_cstrings(mem.base, mem.bytes@, fence, addr as int) {
            Ok(s) => r is Ok && views(r->Ok_0@) == s,
            Err(e) => r is Err && r->Err_0.errno == e,
        },
{
    let mut out: Vec<String> = Vec::new();
    if addr == 0 {
        return Ok(out);
    }
    let len = mem.bytes.len() as u64;
    let mut p: u64 = addr;
    loop
        invariant
            len == mem.bytes@.len(),
            mem.wf(),
            addr != 0,
            addr <= p,
            (p - addr) % 8 == 0,
            spec_cstrings(mem.base, mem.bytes@, fence, addr as int) == match spec_cstrings(
                mem.base,
                mem.bytes@,
                fence,
                p as int,
            ) {
                Ok(rest) => Ok(views(out@) + rest),
                Err(e) => Err(e),
            },
        decreases mem.base + len - p,
    {
        if p < mem.base || p - mem.base > len || len - (p - mem.base) < 8 || !clear_of(fence, p, 8) {
            return Err(Error::new(Errno::EFAULT, "pointer array outside the permitted memory"));
        }
        let w = read_word(mem, p);
        if w == 0 {
            assert(views(out@) + Seq::<Seq<char>>::empty() =~= views(out@));
            return Ok(out);
        }
        if !clear_of(fence, w, 1) {
            return Err(Error::new(Errno::EFAULT, "string outside the permitted memory"));
        }
        let s = match from_cstr(mem, w) {
            Ok(s) => s,
            Err(e) => return Err(e),
        };
        let ghost before = out@;
        out.push(s);
        proof {
            match spec_cstrings(mem.base, mem.bytes@, fence, p + 8) {
                Ok(rest) => {
                    assert(views(out@) =~= views(before) + seq![s@]);
                    assert(views(before) + (seq![s@] + rest) =~= views(out@) + rest);
                },
                Err(e) => {},
            }
        }
        p = p + 8;
    }
}

} // verus!
