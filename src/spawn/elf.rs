//! What the loader reads of a statically linked x86-64 executable, as
//! plain values: its entry point, program headers, relocation entries and
//! the names of its dynamic symbols.
use crate::errno::{Errno, Error};
use vstd::prelude::*;

verus! {

/// Program header type of a loadable segment.
pub const PT_LOAD: u32 = 1;

/// Program header flag of a writable segment.
pub const PF_W: u32 = 2;

/// Relocation type that rebases a word by the image base.
pub const R_X86_64_RELATIVE: u32 = 8;

/// One program header.
#[derive(Clone, Copy, Debug, PartialEq, Eq, Structural)]
pub struct ProgramHeader {
    pub ph_type: u32,
    pub flags: u32,
    pub offset: usize,
    pub vaddr: usize,
    pub file_size: usize,
    pub mem_size: usize,
    pub align: usize,
}

/// One entry of a RELA section.
#[derive(Clone, Copy, Debug, PartialEq, Eq, Structural)]
pub struct RelaEntry {
    pub offset: usize,
    pub sym_index: u32,
    pub rela_type: u32,
    pub addend: i64,
}

/// Where the program headers are and how many there are.
#[derive(Clone, Copy, Debug, PartialEq, Eq, Structural)]
pub struct ProgramHeaderInfo {
    pub addr: usize,
    pub entry_size: usize,
    pub entry_num: usize,
}

/// An executable that passed the header checks, as the loader reads it.
/// `dynsym_names[i]` is the name of dynamic symbol `i`, or `None` where
/// the name could not be read.
pub struct ElfInfo {
    pub entry: usize,
    pub ph_info: ProgramHeaderInfo,
    pub program_headers: Vec<ProgramHeader>,
    pub rela_dyn: Vec<RelaEntry>,
    pub rela_plt: Vec<RelaEntry>,
    pub dynsym_names: Vec<Option<Vec<u8>>>,
}

/// A segment to be loaded.
#[derive(Clone, Copy, Debug, PartialEq, Eq, Structural)]
pub struct Segment {
    pub file_offset: usize,
    pub file_size: usize,
    pub mem_addr: usize,
    pub mem_size: usize,
    pub mem_align: usize,
    pub flags: u32,
}

pub open spec fn is_load(ph: ProgramHeader) -> bool {
    ph.ph_type == PT_LOAD
}

pub open spec fn is_writable(ph: ProgramHeader) -> bool {
    ph.flags & PF_W != 0
}

/// The index of the first loadable header that is writable exactly when
/// `writable` holds.
pub open spec fn first_load(phs: Seq<ProgramHeader>, writable: bool, i: int) -> bool {
    &&& 0 <= i < phs.len()
    &&& is_load(phs[i]) && is_writable(phs[i]) == writable
    &&& forall|j: int| 0 <= j < i ==> !(is_load(#[trigger] phs[j]) && is_writable(phs[j]) == writable)
}

pub open spec fn segment_of(ph: ProgramHeader) -> Segment {
    Segment {
        file_offset: ph.offset,
        file_size: ph.file_size,
        mem_addr: ph.vaddr,
        mem_size: ph.mem_size,
        mem_align: ph.align,
        flags: ph.flags,
    }
}

fn find_load_segment(elf: &ElfInfo, writable: bool) -> (r: Result<Segment, Error>)
    ensures
        r is Ok <==> exists|i: int| first_load(elf.program_headers@, writable, i),
        forall|i: int|
            first_load(elf.program_headers@, writable, i) ==> r == Ok::<Segment, Error>(
                segment_of(elf.program_headers@[i]),
            ),
        r is Err ==> r->Err_0.errno == Errno::ENOEXEC,
{
    let mut i: usize = 0;
    while i < elf.program_headers.len()
        invariant
            i <= elf.program_headers@.len(),
            forall|j: int|
                0 <= j < i ==> !(is_load(#[trigger] elf.program_headers@[j]) && is_writable(
                    elf.program_headers@[j],
                ) == writable),
        decreases elf.program_headers@.len() - i,
    {
        let ph = elf.program_headers[i];
        if ph.ph_type == PT_LOAD && (ph.flags & PF_W != 0) == writable {
            let seg = Segment {
                file_offset: ph.offset,
                file_size: ph.file_size,
                mem_addr: ph.vaddr,
                mem_size: ph.mem_size,
                mem_align: ph.align,
                flags: ph.flags,
            };
            proof {
                assert(first_load(elf.program_headers@, writable, i as int));
                assert forall|k: int| first_load(elf.program_headers@, writable, k) implies k == i by {
                    if k < i {
                        assert(!(is_load(elf.program_headers@[k]) && is_writable(
                            elf.program_headers@[k],
                        ) == writable));
                    }
                    if k > i {
                        assert(!(is_load(elf.program_headers@[i as int]) && is_writable(
                            elf.program_headers@[i as int],
                        ) == writable));
                    }
                }
            }
            return Ok(seg);
        }
        i = i + 1;
    }
    Err(Error::new(Errno::ENOEXEC, "no such loadable segment"))
}

/// The code segment: the first loadable segment that is not writable.
pub fn get_code_segment(elf: &ElfInfo) -> (r: Result<Segment, Error>)
    ensures
        r is Ok <==> exists|i: int| first_load(elf.program_headers@, false, i),
        forall|i: int|
            first_load(elf.program_headers@, false, i) ==> r == Ok::<Segment, Error>(
                segment_of(elf.program_headers@[i]),
            ),
        r is Err ==> r->Err_0.errno == Errno::ENOEXEC,
{
    find_load_segment(elf, false)
}

/// The data segment: the first loadable segment that is writable.
pub fn get_data_segment(elf: &ElfInfo) -> (r: Result<Segment, Error>)
    ensures
        r is Ok <==> exists|i: int| first_load(elf.program_headers@, true, i),
        forall|i: int|
            first_load(elf.program_headers@, true, i) ==> r == Ok::<Segment, Error>(
                segment_of(elf.program_headers@[i]),
            ),
        r is Err ==> r->Err_0.errno == Errno::ENOEXEC,
{
    find_load_segment(elf, true)
}

/// The entry point, relative to the image base.
pub fn get_start_address(elf: &ElfInfo) -> (r: usize)
    ensures
        r == elf.entry,
{
    elf.entry
}

pub fn get_program_header_info(elf: &ElfInfo) -> (r: ProgramHeaderInfo)
    ensures
        r == elf.ph_info,
{
    elf.ph_info
}

} // verus!
