//! The system's identity, as `uname` reports it.
use crate::errno::Error;
use vstd::prelude::*;
use vstd::string::StringSliceAdditionalSpecFns;

verus! {

/// `struct utsname`: six fixed-size, NUL-terminated fields.
#[allow(non_camel_case_types)]
#[derive(Clone, Copy)]
pub struct utsname_t {
    pub sysname: [u8; 65],
    pub nodename: [u8; 65],
    pub release: [u8; 65],
    pub version: [u8; 65],
    pub machine: [u8; 65],
    pub domainname: [u8; 65],
}

pub const SYSNAME: &'static str = "Occlum";

pub const NODENAME: &'static str = "occlum-node";

pub const RELEASE: &'static str = "0.1";

pub const VERSION: &'static str = "0.1";

pub const MACHINE: &'static str = "x86-64";

pub const DOMAINNAME: &'static str = "";

/// A field of `old.len()` bytes after copying in `src`: as much of `src` as
/// leaves room for the NUL, the NUL, and the old bytes after it.
pub open spec fn spec_cfield(old: Seq<u8>, src: Seq<u8>) -> Seq<u8> {
    let n = if src.len() < old.len() - 1 {
        src.len() as int
    } else {
        old.len() - 1
    };
    src.take(n) + seq![0u8] + old.skip(n + 1)
}

/// Whether a NUL byte ends the field within its bounds.
pub open spec fn nul_terminated(f: Seq<u8>) -> bool {
    exists|i: int| 0 <= i < f.len() && f[i] == 0
}

impl utsname_t {
    /// A structure with every byte zero.
    pub fn new() -> (r: utsname_t)
        ensures
            forall|i: int|
                0 <= i < 65 ==> r.sysname@[i] == 0 && r.nodename@[i] == 0 && r.release@[i] == 0
                    && r.version@[i] == 0 && r.machine@[i] == 0 && r.domainname@[i] == 0,
    {
        utsname_t {
            sysname: [0u8; 65],
            nodename: [0u8; 65],
            release: [0u8; 65],
            version: [0u8; 65],
            machine: [0u8; 65],
            domainname: [0u8; 65],
        }
    }
}

/// Copies `src` into `dst` as a C string, cut short where `dst` has no
/// room for all of it and its NUL.
pub fn copy_from_cstr_to_u8_array(src: &str, dst: &mut [u8])
    requires
        old(dst)@.len() >= 1,
    ensures
        final(dst)@ == spec_cfield(old(dst)@, src.spec_bytes()),
{
    let bytes = src.as_bytes();
    let len: usize = if dst.len() - 1 < bytes.len() {
        dst.len() - 1
    } else {
        bytes.len()
    };
    let mut i: usize = 0;
    while i < len
        invariant
            i <= len,
            len < dst@.len(),
            len <= bytes@.len(),
            dst@.len() == old(dst)@.len(),
            forall|j: int| 0 <= j < i ==> dst@[j] == bytes@[j],
            forall|j: int| i <= j < dst@.len() ==> dst@[j] == old(dst)@[j],
        decreases len - i,
    {
        dst[i] = bytes[i];
        i = i + 1;
    }
    dst[len] = 0;
    assert(dst@ =~= spec_cfield(old(dst)@, src.spec_bytes()));
}

/// Fills `name` with the system's identity strings.
pub fn do_uname(name: &mut utsname_t) -> (r: Result<(), Error>)
    ensures
        r is Ok,
        final(name).sysname@ == spec_cfield(old(name).sysname@, SYSNAME.spec_bytes()),
        final(name).nodename@ == spec_cfield(old(name).nodename@, NODENAME.spec_bytes()),
        final(name).release@ == spec_cfield(old(name).release@, RELEASE.spec_bytes()),
        final(name).version@ == spec_cfield(old(name).version@, VERSION.spec_bytes()),
        final(name).machine@ == spec_cfield(old(name).machine@, MACHINE.spec_bytes()),
        final(name).domainname@ == spec_cfield(old(name).domainname@, DOMAINNAME.spec_bytes()),
{
    copy_from_cstr_to_u8_array(SYSNAME, &mut name.sysname);
    copy_from_cstr_to_u8_array(NODENAME, &mut name.nodename);
    copy_from_cstr_to_u8_array(RELEASE, &mut name.release);
    copy_from_cstr_to_u8_array(VERSION, &mut name.version);
    copy_from_cstr_to_u8_array(MACHINE, &mut name.machine);
    copy_from_cstr_to_u8_array(DOMAINNAME, &mut name.domainname);
    Ok(())
}

/// Every field that `do_uname` fills ends with a NUL within its 65 bytes.
pub proof fn uname_fields_nul_terminated(old_field: Seq<u8>, src: Seq<u8>)
    requires
        old_field.len() == 65,
    ensures
        nul_terminated(spec_cfield(old_field, src)),
        spec_cfield(old_field, src).len() == 65,
{
    let n = if src.len() < old_field.len() - 1 {
        src.len() as int
    } else {
        old_field.len() - 1
    };
    assert(spec_cfield(old_field, src)[n] == 0);
}

} // verus!
