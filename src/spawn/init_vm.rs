//! Laying out a new process's memory and preparing the image of its code
//! and data: segments copied in, words rebased, and the syscall slots of the
//! PLT pointed at the library's trampoline.
use super::elf::{
    first_load, get_code_segment, get_data_segment, segment_of, ElfInfo, RelaEntry, Segment,
    R_X86_64_RELATIVE,
};
use crate::errno::{Errno, Error};
use crate::prelude::{align_down, align_up, spec_align_down, spec_align_up};
use crate::vm::{spec_extent, spec_layout, ProcessVM, PAGE_SIZE};
use vstd::prelude::*;

verus! {

pub const DEFAULT_STACK_SIZE: usize = 1048576;

pub const DEFAULT_HEAP_SIZE: usize = 8388608;

pub const DEFAULT_MMAP_SIZE: usize = 8388608;

/// Byte `i` of the little-endian encoding of `v`.
pub open spec fn le_byte(v: u64, i: int) -> u8 {
    ((v >> ((8 * i) as u64)) & 0xffu64) as u8
}

/// The image with the 8-byte little-endian word `v` stored at `off`.
pub open spec fn spec_store_word(img: Seq<u8>, off: int, v: u64) -> Seq<u8> {
    Seq::new(img.len(), |p: int| if off <= p < off + 8 { le_byte(v, p - off) } else { img[p] })
}

/// Stores `v` as a little-endian word at `off` of `img`.
fn store_word(img: &mut Vec<u8>, off: usize, v: u64)
    requires
        off + 8 <= old(img)@.len(),
    ensures
        final(img)@ == spec_store_word(old(img)@, off as int, v),
{
    let len: usize = img.len();
    let mut i: usize = 0;
    while i < 8
        invariant
            i <= 8,
            off + 8 <= len,
            img@.len() == len,
            img@.len() == old(img)@.len(),
            forall|p: int|
                0 <= p < img@.len() ==> #[trigger] img@[p] == if off <= p < off + i {
                    le_byte(v, p - off)
                } else {
                    old(img)@[p]
                },
        decreases 8 - i,
    {
        let b: u8 = (#[verifier::truncate] (((v >> ((8 * i) as u64)) & 0xff) as u8));
        img.set(off + i, b);
        i = i + 1;
    }
    assert(img@ =~= spec_store_word(old(img)@, off as int, v));
}

/// `base + addend`, where it lies in `[0, usize::MAX]`.
fn rebase(base: usize, addend: i64) -> (r: Option<usize>)
    ensures
        r is Some <==> 0 <= base + addend <= usize::MAX,
        r is Some ==> r->Some_0 == base + addend,
{
    if addend >= 0 {
        if addend as u64 > (usize::MAX - base) as u64 {
            None
        } else {
            Some(base + addend as usize)
        }
    } else {
        let mag: u64 = (-(addend + 1)) as u64 + 1;
        if mag > base as u64 {
            None
        } else {
            Some(base - mag as usize)
        }
    }
}

/// One step of rebasing: a relative entry without symbol stores
/// `base + addend` at its offset; others change nothing.
pub open spec fn spec_reloc_step(img: Seq<u8>, base: int, e: RelaEntry) -> Result<Seq<u8>, Errno> {
    if e.rela_type == R_X86_64_RELATIVE && e.sym_index == 0 {
        if e.offset + 8 > img.len() || base + e.addend < 0 || base + e.addend > usize::MAX {
            Err(Errno::ENOEXEC)
        } else {
            Ok(spec_store_word(img, e.offset as int, (base + e.addend) as u64))
        }
    } else {
        Ok(img)
    }
}

/// The image after rebasing by the first `n` entries.
pub open spec fn spec_reloc(img: Seq<u8>, base: int, entries: Seq<RelaEntry>, n: nat) -> Result<
    Seq<u8>,
    Errno,
>
    decreases n,
{
    if n == 0 {
        Ok(img)
    } else {
        match spec_reloc(img, base, entries, (n - 1) as nat) {
            Ok(i2) => spec_reloc_step(i2, base, entries[n - 1]),
            Err(e) => Err(e),
        }
    }
}

proof fn lemma_reloc_error_persists(img: Seq<u8>, base: int, entries: Seq<RelaEntry>, n: nat, m: nat)
    requires
        n <= m,
        spec_reloc(img, base, entries, n) is Err,
    ensures
        spec_reloc(img, base, entries, m) == spec_reloc(img, base, entries, n),
    decreases m - n,
{
    if n < m {
        lemma_reloc_error_persists(img, base, entries, n, (m - 1) as nat);
    }
}

/// Applies the `.rela.dyn` entries to the image of a process placed at
/// `base`; the image starts at the process's first address. An entry whose
/// word falls outside the image, or whose value does not fit, fails with
/// `ENOEXEC`.
pub fn reloc_symbols(base: usize, entries: &Vec<RelaEntry>, img: &mut Vec<u8>) -> (r: Result<(), Error>)
    ensures
        match spec_reloc(old(img)@, base as int, entries@, entries@.len()) {
            Ok(t) => r is Ok && final(img)@ == t,
            Err(e) => r is Err && r->Err_0.errno == e,
        },
{
    let mut i: usize = 0;
    while i < entries.len()
        invariant
            i <= entries@.len(),
            spec_reloc(old(img)@, base as int, entries@, i as nat) == Ok::<Seq<u8>, Errno>(img@),
        decreases entries@.len() - i,
    {
        let e = entries[i];
        if e.rela_type == R_X86_64_RELATIVE && e.sym_index == 0 {
            let v = rebase(base, e.addend);
            if e.offset > img.len() || img.len() - e.offset < 8 || v.is_none() {
                proof {
                    lemma_reloc_error_persists(old(img)@, base as int, entries@, (i + 1) as nat, entries@.len());
                }
                return Err(Error::new(Errno::ENOEXEC, "relocation outside the image"));
            }
            let v: usize = v.unwrap();
            store_word(img, e.offset, v as u64);
        }
        i = i + 1;
    }
    Ok(())
}

/// The name that marks a call into the library's syscall trampoline.
pub open spec fn syscall_symbol() -> Seq<u8> {
    seq![95u8, 95u8, 111u8, 99u8, 99u8, 108u8, 117u8, 109u8, 95u8, 115u8, 121u8, 115u8, 99u8, 97u8, 108u8, 108u8]
}

fn is_syscall_symbol(name: &Vec<u8>) -> (r: bool)
    ensures
        r == (name@ == syscall_symbol()),
{
    let target: Vec<u8> = vec![95u8, 95u8, 111u8, 99u8, 99u8, 108u8, 117u8, 109u8, 95u8, 115u8, 121u8, 115u8, 99u8, 97u8, 108u8, 108u8];
    assert(target@ =~= syscall_symbol());
    if name.len() != target.len() {
        return false;
    }
    let mut i: usize = 0;
    while i < name.len()
        invariant
            i <= name@.len(),
            name@.len() == target@.len(),
            target@ == syscall_symbol(),
            forall|j: int| 0 <= j < i ==> name@[j] == target@[j],
        decreases name@.len() - i,
    {
        if name[i] != target[i] {
            return false;
        }
        i = i + 1;
    }
    assert(name@ =~= target@);
    true
}

/// The dynamic symbol name of entry `e`: `None` where it cannot be read.
pub open spec fn sym_name(names: Seq<Option<Vec<u8>>>, e: RelaEntry) -> Option<Seq<u8>> {
    if (e.sym_index as int) < names.len() {
        match names[e.sym_index as int] {
            Some(n) => Some(n@),
            None => None,
        }
    } else {
        None
    }
}

/// Whether entry `e` names the syscall trampoline.
pub open spec fn links_syscall(names: Seq<Option<Vec<u8>>>, e: RelaEntry) -> bool {
    sym_name(names, e) == Some(syscall_symbol())
}

/// One step of syscall linking.
pub open spec fn spec_link_step(
    img: Seq<u8>,
    names: Seq<Option<Vec<u8>>>,
    tramp: u64,
    e: RelaEntry,
) -> Result<Seq<u8>, Errno> {
    match sym_name(names, e) {
        None => Err(Errno::ENOEXEC),
        Some(n) => if n == syscall_symbol() {
            if e.offset + 8 > img.len() {
                Err(Errno::ENOEXEC)
            } else {
                Ok(spec_store_word(img, e.offset as int, tramp))
            }
        } else {
            Ok(img)
        },
    }
}

/// The image after linking by the first `n` entries.
pub open spec fn spec_link(
    img: Seq<u8>,
    names: Seq<Option<Vec<u8>>>,
    tramp: u64,
    entries: Seq<RelaEntry>,
    n: nat,
) -> Result<Seq<u8>, Errno>
    decreases n,
{
    if n == 0 {
        Ok(img)
    } else {
        match spec_link(img, names, tramp, entries, (n - 1) as nat) {
            Ok(i2) => spec_link_step(i2, names, tramp, entries[n - 1]),
            Err(e) => Err(e),
        }
    }
}

proof fn lemma_link_error_persists(
    img: Seq<u8>,
    names: Seq<Option<Vec<u8>>>,
    tramp: u64,
    entries: Seq<RelaEntry>,
    n: nat,
    m: nat,
)
    requires
        n <= m,
        spec_link(img, names, tramp, entries, n) is Err,
    ensures
        spec_link(img, names, tramp, entries, m) == spec_link(img, names, tramp, entries, n),
    decreases m - n,
{
    if n < m {
        lemma_link_error_persists(img, names, tramp, entries, n, (m - 1) as nat);
    }
}

/// Points every `.rela.plt` slot whose symbol is the syscall trampoline's
/// name at `syscall_addr`. A symbol whose name cannot be read, or a slot
/// outside the image, fails with `ENOEXEC`.
pub fn link_syscalls(
    syscall_addr: usize,
    entries: &Vec<RelaEntry>,
    dynsym_names: &Vec<Option<Vec<u8>>>,
    img: &mut Vec<u8>,
) -> (r: Result<(), Error>)
    ensures
        match spec_link(old(img)@, dynsym_names@, syscall_addr as u64, entries@, entries@.len()) {
            Ok(t) => r is Ok && final(img)@ == t,
            Err(e) => r is Err && r->Err_0.errno == e,
        },
{
    let mut i: usize = 0;
    while i < entries.len()
        invariant
            i <= entries@.len(),
            spec_link(old(img)@, dynsym_names@, syscall_addr as u64, entries@, i as nat) == Ok::<
                Seq<u8>,
                Errno,
            >(img@),
        decreases entries@.len() - i,
    {
        let e = entries[i];
        let idx = e.sym_index as usize;
        let matches = if idx < dynsym_names.len() {
            match &dynsym_names[idx] {
                Some(name) => is_syscall_symbol(name),
                None => {
                    proof {
                        lemma_link_error_persists(
                            old(img)@,
                            dynsym_names@,
                            syscall_addr as u64,
                            entries@,
                            (i + 1) as nat,
                            entries@.len(),
                        );
                    }
                    return Err(Error::new(Errno::ENOEXEC, "unreadable dynamic symbol name"));
                },
            }
        } else {
            proof {
                lemma_link_error_persists(
                    old(img)@,
                    dynsym_names@,
                    syscall_addr as u64,
                    entries@,
                    (i + 1) as nat,
                    entries@.len(),
                );
            }
            return Err(Error::new(Errno::ENOEXEC, "dynamic symbol out of range"));
        };
        if matches {
            if e.offset > img.len() || img.len() - e.offset < 8 {
                proof {
                    lemma_link_error_persists(
                        old(img)@,
                        dynsym_names@,
                        syscall_addr as u64,
                        entries@,
                        (i + 1) as nat,
                        entries@.len(),
                    );
                }
                return Err(Error::new(Errno::ENOEXEC, "PLT slot outside the image"));
            }
            store_word(img, e.offset, syscall_addr as u64);
        }
        i = i + 1;
    }
    Ok(())
}

/// The segment that the first loadable header with the given writability
/// describes, if there is one.
pub open spec fn spec_segment(elf: ElfInfo, writable: bool) -> Option<Segment> {
    if exists|i: int| first_load(elf.program_headers@, writable, i) {
        Some(
            segment_of(
                elf.program_headers@[choose|i: int| first_load(elf.program_headers@, writable, i)],
            ),
        )
    } else {
        None
    }
}

/// Where the code and data segments go, relative to the image base.
#[derive(Clone, Copy, Debug, PartialEq, Eq, Structural)]
pub struct LayoutPlan {
    pub code: Segment,
    pub data: Segment,
    pub code_end: usize,
    pub data_end: usize,
}

/// Whether segment `seg` can be copied from a file of `buf_len` bytes into
/// `[mem_addr, mem_addr + mem_size)` below `end`.
pub open spec fn segment_fits(seg: Segment, buf_len: int, end: int) -> bool {
    &&& seg.file_size <= seg.mem_size
    &&& seg.file_offset + seg.file_size <= buf_len
    &&& seg.mem_addr + seg.mem_size <= end
}

/// The layout of an executable of `buf_len` bytes: the code region ends
/// where the data segment's address rounded down to its alignment lies,
/// which must be page-aligned; the data region ends at the data segment's
/// end rounded up to a page. Anything else is `ENOEXEC`.
pub open spec fn spec_plan(elf: ElfInfo, buf_len: int) -> Result<LayoutPlan, Errno> {
    match (spec_segment(elf, false), spec_segment(elf, true)) {
        (Some(code), Some(data)) => {
            if data.mem_align == 0 || data.mem_addr + data.mem_size + 4095 > usize::MAX {
                Err(Errno::ENOEXEC)
            } else {
                let code_end = spec_align_down(data.mem_addr as int, data.mem_align as int);
                let data_end = spec_align_up(data.mem_addr + data.mem_size, 4096);
                if code_end % 4096 == 0 && segment_fits(code, buf_len, code_end) && segment_fits(
                    data,
                    buf_len,
                    data_end,
                ) {
                    Ok(
                        LayoutPlan {
                            code,
                            data,
                            code_end: code_end as usize,
                            data_end: data_end as usize,
                        },
                    )
                } else {
                    Err(Errno::ENOEXEC)
                }
            }
        },
        _ => Err(Errno::ENOEXEC),
    }
}

/// Computes the layout plan of `elf`, whose file is `buf_len` bytes long.
pub fn plan_layout(elf: &ElfInfo, buf_len: usize) -> (r: Result<LayoutPlan, Error>)
    ensures
        match spec_plan(*elf, buf_len as int) {
            Ok(p) => r == Ok::<LayoutPlan, Error>(p),
            Err(e) => r is Err && r->Err_0.errno == e,
        },
{
    let code = match get_code_segment(elf) {
        Ok(s) => s,
        Err(e) => return Err(e),
    };
    let data = match get_data_segment(elf) {
        Ok(s) => s,
        Err(e) => return Err(e),
    };
    proof {
        let ci = choose|i: int| first_load(elf.program_headers@, false, i);
        let di = choose|i: int| first_load(elf.program_headers@, true, i);
        assert(first_load(elf.program_headers@, false, ci));
        assert(first_load(elf.program_headers@, true, di));
        assert(spec_segment(*elf, false) == Some(code));
        assert(spec_segment(*elf, true) == Some(data));
    }
    if data.mem_align == 0 || data.mem_addr > usize::MAX - 4095 || data.mem_size > usize::MAX - 4095
        - data.mem_addr {
        return Err(Error::new(Errno::ENOEXEC, "bad data segment"));
    }
    let code_end = align_down(data.mem_addr, data.mem_align);
    let data_end = align_up(data.mem_addr + data.mem_size, PAGE_SIZE);
    if code_end % PAGE_SIZE != 0 {
        return Err(Error::new(Errno::ENOEXEC, "code end is not page-aligned"));
    }
    if !fits(&code, buf_len, code_end) || !fits(&data, buf_len, data_end) {
        return Err(Error::new(Errno::ENOEXEC, "segment does not fit"));
    }
    Ok(LayoutPlan { code, data, code_end, data_end })
}

fn fits(seg: &Segment, buf_len: usize, end: usize) -> (r: bool)
    ensures
        r == segment_fits(*seg, buf_len as int, end as int),
{
    seg.file_size <= seg.mem_size && seg.file_offset <= buf_len && seg.file_size <= buf_len
        - seg.file_offset && seg.mem_addr <= end && seg.mem_size <= end - seg.mem_addr
}

/// The image with the file bytes of `seg` copied to its address.
pub open spec fn spec_load(img: Seq<u8>, buf: Seq<u8>, seg: Segment) -> Seq<u8> {
    Seq::new(
        img.len(),
        |p: int|
            if seg.mem_addr <= p < seg.mem_addr + seg.file_size {
                buf[seg.file_offset + p - seg.mem_addr]
            } else {
                img[p]
            },
    )
}

/// Copies the file bytes of `seg` into `img` at the segment's address.
fn load_from_file(seg: &Segment, elf_buf: &Vec<u8>, img: &mut Vec<u8>)
    requires
        seg.file_offset + seg.file_size <= elf_buf@.len(),
        seg.mem_addr + seg.file_size <= old(img)@.len(),
    ensures
        final(img)@ == spec_load(old(img)@, elf_buf@, *seg),
{
    let blen: usize = elf_buf.len();
    let ilen: usize = img.len();
    let mut i: usize = 0;
    while i < seg.file_size
        invariant
            i <= seg.file_size,
            blen == elf_buf@.len(),
            ilen == img@.len(),
            seg.file_offset + seg.file_size <= elf_buf@.len(),
            seg.mem_addr + seg.file_size <= img@.len(),
            img@.len() == old(img)@.len(),
            forall|p: int|
                0 <= p < img@.len() ==> #[trigger] img@[p] == if seg.mem_addr <= p < seg.mem_addr
                    + i {
                    elf_buf@[seg.file_offset + p - seg.mem_addr]
                } else {
                    old(img)@[p]
                },
        decreases seg.file_size - i,
    {
        let b = elf_buf[seg.file_offset + i];
        img.set(seg.mem_addr + i, b);
        i = i + 1;
    }
    assert(img@ =~= spec_load(old(img)@, elf_buf@, *seg));
}

/// The image of code and data before any relocation: the two segments'
/// file bytes over zeros.
pub open spec fn spec_loaded(p: LayoutPlan, buf: Seq<u8>) -> Seq<u8> {
    spec_load(spec_load(Seq::new(p.data_end as nat, |i: int| 0u8), buf, p.code), buf, p.data)
}

/// The finished image: loaded, rebased to `base`, and linked to the
/// trampoline at `syscall_addr`.
pub open spec fn spec_image(elf: ElfInfo, p: LayoutPlan, buf: Seq<u8>, base: int, syscall_addr: u64) -> Result<
    Seq<u8>,
    Errno,
> {
    match spec_reloc(spec_loaded(p, buf), base, elf.rela_dyn@, elf.rela_dyn@.len()) {
        Ok(img) => spec_link(img, elf.dynsym_names@, syscall_addr, elf.rela_plt@, elf.rela_plt@.len()),
        Err(e) => Err(e),
    }
}

/// Whether the reservation the allocator gave can hold the plan's regions
/// with the default heap, stack and mmap sizes.
pub open spec fn vm_fits(base: Option<usize>, p: LayoutPlan) -> bool {
    &&& base is Some
    &&& base->Some_0 % 4096 == 0
    &&& base->Some_0 + spec_extent(
        p.code_end as int,
        p.data_end - p.code_end,
        DEFAULT_HEAP_SIZE as int,
        DEFAULT_STACK_SIZE as int,
        DEFAULT_MMAP_SIZE as int,
    ) <= usize::MAX
}

/// Lays out the memory of a process for `elf` at `base`, where the
/// allocator reserved it, and builds the image of its code and data: the
/// bytes from the image base up to the end of the data region.
pub fn do_init(elf: &ElfInfo, elf_buf: &Vec<u8>, base: Option<usize>, syscall_addr: usize) -> (r:
    Result<(ProcessVM, Vec<u8>), Error>)
    ensures
        match spec_plan(*elf, elf_buf@.len() as int) {
            Err(e) => r is Err && r->Err_0.errno == e,
            Ok(p) => if !vm_fits(base, p) {
                r is Err && r->Err_0.errno == Errno::ENOMEM
            } else {
                match spec_image(*elf, p, elf_buf@, base->Some_0 as int, syscall_addr as u64) {
                    Err(e) => r is Err && r->Err_0.errno == e,
                    Ok(img) => r is Ok && r->Ok_0.1@ == img && r->Ok_0.0.wf() && r->Ok_0.0.regions()
                        == spec_layout(
                        base->Some_0 as int,
                        p.code_end as int,
                        p.data_end - p.code_end,
                        DEFAULT_HEAP_SIZE as int,
                        DEFAULT_STACK_SIZE as int,
                        DEFAULT_MMAP_SIZE as int,
                    ),
                }
            },
        },
{
    let plan = match plan_layout(elf, elf_buf.len()) {
        Ok(p) => p,
        Err(e) => return Err(e),
    };
    let vm = match ProcessVM::new(
        base,
        plan.code_end,
        plan.data_end - plan.code_end,
        DEFAULT_HEAP_SIZE,
        DEFAULT_STACK_SIZE,
        DEFAULT_MMAP_SIZE,
    ) {
        Ok(vm) => vm,
        Err(e) => return Err(e),
    };
    let process_base = vm.get_base_addr();
    let mut img: Vec<u8> = Vec::new();
    while img.len() < plan.data_end
        invariant
            img@.len() <= plan.data_end,
            img@ == Seq::new(img@.len(), |i: int| 0u8),
        decreases plan.data_end - img@.len(),
    {
        img.push(0u8);
        assert(img@ =~= Seq::new(img@.len(), |i: int| 0u8));
    }
    load_from_file(&plan.code, elf_buf, &mut img);
    load_from_file(&plan.data, elf_buf, &mut img);
    assert(img@ == spec_loaded(plan, elf_buf@));
    match reloc_symbols(process_base, &elf.rela_dyn, &mut img) {
        Ok(()) => {},
        Err(e) => return Err(e),
    }
    match link_syscalls(syscall_addr, &elf.rela_plt, &elf.dynsym_names, &mut img) {
        Ok(()) => {},
        Err(e) => return Err(e),
    }
    Ok((vm, img))
}

/// Whether byte `p` lies in the slot of a syscall entry among the first
/// `n` entries.
pub open spec fn in_syscall_slot(names: Seq<Option<Vec<u8>>>, entries: Seq<RelaEntry>, n: int, p: int) -> bool {
    exists|j: int|
        0 <= j < n && links_syscall(names, #[trigger] entries[j]) && entries[j].offset <= p
            < entries[j].offset + 8
}

/// Linking changes no byte outside the slots of the entries named after
/// the syscall trampoline, however those slots lie; the image keeps its
/// length.
pub proof fn link_syscalls_leaves_other_bytes(
    img: Seq<u8>,
    names: Seq<Option<Vec<u8>>>,
    tramp: u64,
    entries: Seq<RelaEntry>,
    n: nat,
)
    requires
        n <= entries.len(),
        spec_link(img, names, tramp, entries, n) is Ok,
    ensures
        ({
            let out = spec_link(img, names, tramp, entries, n)->Ok_0;
            &&& out.len() == img.len()
            &&& forall|p: int|
                0 <= p < img.len() && !in_syscall_slot(names, entries, n as int, p) ==> #[trigger] out[p]
                    == img[p]
        }),
    decreases n,
{
    if n > 0 {
        let m = (n - 1) as nat;
        link_syscalls_leaves_other_bytes(img, names, tramp, entries, m);
        let prev = spec_link(img, names, tramp, entries, m)->Ok_0;
        let out = spec_link(img, names, tramp, entries, n)->Ok_0;
        let e = entries[m as int];
        assert forall|p: int|
            0 <= p < img.len() && !in_syscall_slot(names, entries, n as int, p) implies #[trigger] out[p]
            == img[p] by {
            if links_syscall(names, e) && e.offset <= p < e.offset + 8 {
                assert(in_syscall_slot(names, entries, n as int, p));
            }
            if in_syscall_slot(names, entries, m as int, p) {
                let j = choose|j: int|
                    0 <= j < m && links_syscall(names, #[trigger] entries[j]) && entries[j].offset
                        <= p < entries[j].offset + 8;
                assert(in_syscall_slot(names, entries, n as int, p));
            }
            assert(out[p] == prev[p]);
        }
    }
}

/// After linking, every PLT slot of an entry named after the syscall
/// trampoline holds the trampoline's address, and every other byte of the
/// image is as it was. Slots of such entries either coincide or do not
/// overlap.
pub proof fn link_syscalls_patches_only_syscall_slots(
    img: Seq<u8>,
    names: Seq<Option<Vec<u8>>>,
    tramp: u64,
    entries: Seq<RelaEntry>,
    n: nat,
)
    requires
        n <= entries.len(),
        spec_link(img, names, tramp, entries, n) is Ok,
        forall|i: int, j: int|
            0 <= i < n && 0 <= j < n && links_syscall(names, #[trigger] entries[i]) && links_syscall(
                names,
                #[trigger] entries[j],
            ) ==> entries[i].offset == entries[j].offset || entries[i].offset + 8
                <= entries[j].offset || entries[j].offset + 8 <= entries[i].offset,
    ensures
        ({
            let out = spec_link(img, names, tramp, entries, n)->Ok_0;
            &&& out.len() == img.len()
            &&& forall|j: int|
                0 <= j < n && links_syscall(names, #[trigger] entries[j]) ==> entries[j].offset + 8
                    <= img.len()
            &&& forall|j: int|
                0 <= j < n && links_syscall(names, #[trigger] entries[j]) ==> forall|k: int|
                    0 <= k < 8 ==> out[entries[j].offset + k] == le_byte(tramp, k)
            &&& forall|p: int|
                0 <= p < img.len() && !in_syscall_slot(names, entries, n as int, p) ==> #[trigger] out[p]
                    == img[p]
        }),
    decreases n,
{
    if n > 0 {
        let m = (n - 1) as nat;
        link_syscalls_patches_only_syscall_slots(img, names, tramp, entries, m);
        let prev = spec_link(img, names, tramp, entries, m)->Ok_0;
        let out = spec_link(img, names, tramp, entries, n)->Ok_0;
        let e = entries[m as int];
        if links_syscall(names, e) {
            assert(out == spec_store_word(prev, e.offset as int, tramp));
            assert forall|j: int|
                0 <= j < n && links_syscall(names, #[trigger] entries[j]) implies forall|k: int|
                0 <= k < 8 ==> out[entries[j].offset + k] == le_byte(tramp, k) by {
                if j < m {
                    assert forall|k: int| 0 <= k < 8 implies out[entries[j].offset + k] == le_byte(
                        tramp,
                        k,
                    ) by {
                        let q = entries[j].offset + k;
                        assert(prev[q] == le_byte(tramp, k));
                        if e.offset <= q < e.offset + 8 {
                            assert(entries[j].offset == e.offset);
                        }
                    }
                }
            }
            assert forall|p: int|
                0 <= p < img.len() && !in_syscall_slot(names, entries, n as int, p) implies #[trigger] out[p]
                == img[p] by {
                if e.offset <= p < e.offset + 8 {
                    assert(in_syscall_slot(names, entries, n as int, p));
                }
                if in_syscall_slot(names, entries, m as int, p) {
                    let j = choose|j: int|
                        0 <= j < m && links_syscall(names, #[trigger] entries[j]) && entries[j].offset
                            <= p < entries[j].offset + 8;
                    assert(in_syscall_slot(names, entries, n as int, p));
                }
            }
        } else {
            assert(out == prev);
            assert forall|p: int|
                0 <= p < img.len() && !in_syscall_slot(names, entries, n as int, p) implies #[trigger] out[p]
                == img[p] by {
                if in_syscall_slot(names, entries, m as int, p) {
                    let j = choose|j: int|
                        0 <= j < m && links_syscall(names, #[trigger] entries[j]) && entries[j].offset
                            <= p < entries[j].offset + 8;
                    assert(in_syscall_slot(names, entries, n as int, p));
                }
            }
        }
    }
}

} // verus!
