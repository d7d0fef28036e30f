//! What the enclave's entry points decide: the program's arguments as they
//! arrive from outside, and the first spawn.
use crate::errno::{Errno, Error};
use crate::file_table::FileRef;
use crate::mem_util::from_untrusted::{clone_cstring_safely, clone_cstrings_safely};
use crate::mem_util::{outside, spec_cstring, spec_cstrings, views, MemView};
use crate::process_table::{pids_below, PidAllocator, Process, ProcessTable};
use crate::spawn::elf::ElfInfo;
use crate::spawn::{do_spawn, spawn_error, FileAction, Spawned};
use vstd::prelude::*;

verus! {

/// The status that the entry points report for a failure of the library
/// itself, as opposed to one of the user program.
pub const EXIT_STATUS_INTERNAL_ERROR: i32 = 127;

/// The characters after the last `/` of `p`.
pub open spec fn last_segment(p: Seq<char>) -> Seq<char>
    decreases p.len(),
{
    if p.len() == 0 || p.last() == '/' {
        Seq::empty()
    } else {
        last_segment(p.drop_last()).push(p.last())
    }
}

/// The last component of a path, as `std::path::Path::file_name` gives it
/// on a `/`-separated path: trailing separators and `.` components are
/// skipped; a path that ends in `..`, or has no component left, has none.
pub open spec fn file_name_of(p: Seq<char>) -> Option<Seq<char>>
    decreases p.len(),
{
    if p.len() == 0 {
        None
    } else if p.last() == '/' {
        file_name_of(p.drop_last())
    } else {
        let seg = last_segment(p);
        if seg == seq!['.'] {
            file_name_of(p.drop_last())
        } else if seg == seq!['.', '.'] {
            None
        } else {
            Some(seg)
        }
    }
}

proof fn lemma_last_segment(p: Seq<char>)
    ensures
        !last_segment(p).contains('/'),
        p.len() > 0 && p.last() != '/' ==> last_segment(p).len() > 0,
    decreases p.len(),
{
    if p.len() > 0 && p.last() != '/' {
        lemma_last_segment(p.drop_last());
        let s = last_segment(p.drop_last());
        assert forall|i: int| 0 <= i < s.push(p.last()).len() implies s.push(p.last())[i] != '/' by {
            if i < s.len() {
                assert(!s.contains('/'));
                assert(s[i] != '/');
            }
        }
    }
}

/// A file name is never empty and holds no `/`.
pub proof fn file_name_is_a_plain_name(p: Seq<char>)
    ensures
        file_name_of(p) is Some ==> file_name_of(p)->Some_0.len() > 0 && !file_name_of(
            p,
        )->Some_0.contains('/'),
    decreases p.len(),
{
    if p.len() > 0 {
        lemma_last_segment(p);
        file_name_is_a_plain_name(p.drop_last());
    }
}

/// Relies on `std::path::Path::file_name` for the last component of a
/// path: a path is split on `/`, empty and `.` components are dropped, and
/// the last component is the name unless it is `..`. A component of a
/// `&str` path is UTF-8, so `to_str` keeps it whole.
#[verifier::external_body]
fn path_file_name(path: &str) -> (r: Option<String>)
    ensures
        match r {
            Some(s) => file_name_of(path@) == Some(s@),
            None => file_name_of(path@) is None,
        },
{
    match std::path::Path::new(path).file_name() {
        Some(name) => name.to_str().map(String::from),
        None => None,
    }
}

/// The argument list of a program named `program`: the name first, then
/// `args`. A missing or empty name is `EINVAL`.
pub fn program_args(program: Option<String>, args: Vec<String>) -> (r: Result<Vec<String>, Error>)
    ensures
        match program {
            Some(p) => if p@.len() > 0 {
                r is Ok && views(r->Ok_0@) == seq![p@] + views(args@)
            } else {
                r is Err && r->Err_0.errno == Errno::EINVAL
            },
            None => r is Err && r->Err_0.errno == Errno::EINVAL,
        },
{
    let name = match program {
        Some(p) => p,
        None => return Err(Error::new(Errno::EINVAL, "invalid path")),
    };
    if name.as_str().is_empty() {
        return Err(Error::new(Errno::EINVAL, "invalid path"));
    }
    let mut args = args;
    let ghost old_args = args@;
    args.insert(0, name);
    assert(views(args@) =~= seq![name@] + views(old_args));
    Ok(args)
}

/// What `parse_arguments` gives: the path, and the argument list that
/// starts with the path's last component.
pub open spec fn spec_parse_arguments(
    enclave: (u64, u64),
    base: u64,
    m: Seq<u8>,
    path_buf: u64,
    argv: u64,
) -> Result<(Seq<char>, Seq<Seq<char>>), Errno> {
    if !outside(enclave, path_buf as int, 1) {
        Err(Errno::EFAULT)
    } else {
        match spec_cstring(base, m, path_buf as int) {
            Err(e) => Err(e),
            Ok(path) => match file_name_of(path) {
                None => Err(Errno::EINVAL),
                Some(name) => if name.len() == 0 {
                    Err(Errno::EINVAL)
                } else if argv == 0 {
                    Ok((path, seq![name]))
                } else {
                    match spec_cstrings(base, m, enclave, argv as int) {
                        Err(e) => Err(e),
                        Ok(args) => Ok((path, seq![name] + args)),
                    }
                },
            },
        }
    }
}

/// When reading the arguments succeeds, the first one is the last
/// component of the path, and the ones given follow it.
pub proof fn first_argument_is_basename(
    enclave: (u64, u64),
    base: u64,
    m: Seq<u8>,
    path_buf: u64,
    argv: u64,
)
    requires
        spec_parse_arguments(enclave, base, m, path_buf, argv) is Ok,
    ensures
        ({
            let (path, args) = spec_parse_arguments(enclave, base, m, path_buf, argv)->Ok_0;
            &&& args.len() >= 1
            &&& file_name_of(path) == Some(args[0])
            &&& args[0].len() > 0
            &&& argv != 0 ==> spec_cstrings(base, m, enclave, argv as int) == Ok::<
                Seq<Seq<char>>,
                Errno,
            >(args.drop_first())
        }),
{
    let (path, args) = spec_parse_arguments(enclave, base, m, path_buf, argv)->Ok_0;
    if argv != 0 {
        let rest = spec_cstrings(base, m, enclave, argv as int)->Ok_0;
        assert(args.drop_first() =~= rest);
    }
}

/// Reads the program's path and arguments from outside the enclave. The
/// first argument the program sees is the last component of its path; the
/// arguments given follow it.
pub fn parse_arguments(enclave: (u64, u64), mem: &MemView, path_buf: u64, argv: u64) -> (r: Result<
    (String, Vec<String>),
    Error,
>)
    requires
        mem.wf(),
    ensures
        match spec_parse_arguments(enclave, mem.base, mem.bytes@, path_buf, argv) {
            Ok((path, args)) => r is Ok && r->Ok_0.0@ == path && views(r->Ok_0.1@) == args,
            Err(e) => r is Err && r->Err_0.errno == e,
        },
{
    let path_string = match clone_cstring_safely(enclave, mem, path_buf) {
        Ok(s) => s,
        Err(e) => return Err(e),
    };
    let program = path_file_name(path_string.as_str());
    match &program {
        None => return Err(Error::new(Errno::EINVAL, "invalid path")),
        Some(p) => {
            if p.as_str().is_empty() {
                return Err(Error::new(Errno::EINVAL, "invalid path"));
            }
        },
    }
    let args = match clone_cstrings_safely(enclave, mem, argv) {
        Ok(a) => a,
        Err(e) => return Err(e),
    };
    let args = match program_args(program, args) {
        Ok(a) => a,
        Err(e) => return Err(e),
    };
    Ok((path_string, args))
}

/// The first spawn: the program runs as a child of the idle process, with
/// no environment and no file actions.
pub fn do_boot(
    table: &mut ProcessTable,
    pids: &mut PidAllocator,
    idle: &mut Process,
    elf: &ElfInfo,
    elf_buf: &Vec<u8>,
    vm_base: Option<usize>,
    syscall_addr: usize,
    argv: &Vec<String>,
    stdin: FileRef,
    stdout: FileRef,
) -> (r: Result<Spawned, Error>)
    requires
        old(pids).wf(),
        old(pids).spec_next() < u32::MAX,
        old(table).wf(),
        pids_below(old(table)@, old(pids).spec_next()),
    ensures
        final(pids).wf(),
        final(table).wf(),
        pids_below(final(table)@, final(pids).spec_next()),
        match spawn_error(
            *old(idle),
            *elf,
            elf_buf@,
            vm_base,
            syscall_addr,
            argv@,
            Seq::empty(),
            Seq::empty(),
            Seq::empty(),
        ) {
            Some(e) => r is Err && r->Err_0.errno == e && final(table)@ == old(table)@,
            None => r is Ok && final(table)@ == old(table)@.insert(
                r->Ok_0.pid,
                final(table)@[r->Ok_0.pid],
            ) && r->Ok_0.pid == old(pids).spec_next() && !old(table)@.contains_key(r->Ok_0.pid),
        },
{
    let envp: Vec<String> = Vec::new();
    let file_actions: Vec<FileAction> = Vec::new();
    let opened: Vec<Result<FileRef, Error>> = Vec::new();
    do_spawn(
        table,
        pids,
        idle,
        elf,
        elf_buf,
        vm_base,
        syscall_addr,
        argv,
        &envp,
        &file_actions,
        &opened,
        stdin,
        stdout,
    )
}

} // verus!
