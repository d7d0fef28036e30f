//! The spawn pipeline: from a parsed executable to a published process.
use crate::errno::{Errno, Error};
use crate::file_table::{
    slot, spec_close_on_spawn, spec_del, spec_put_at, FileDesc, FileEntry, FileRef, FileTable,
};
use crate::process_table::{
    alloc_pid, pids_below, put, PidAllocator, Process, ProcessTable, ResourceLimits, Task,
};
use crate::vm::{spec_layout, ProcessVM};
use elf::{get_program_header_info, get_start_address, ElfInfo, ProgramHeaderInfo};
use init_stack::{aux_pairs, spec_stack, AuxKey, AuxTable};
use init_vm::{
    spec_image, spec_plan, vm_fits, LayoutPlan, DEFAULT_HEAP_SIZE, DEFAULT_MMAP_SIZE,
    DEFAULT_STACK_SIZE,
};
use vstd::prelude::*;

pub mod elf;
pub mod init_stack;
pub mod init_vm;

verus! {

/// The open flag that marks a descriptor to be closed on spawn.
pub const O_CLOEXEC: u32 = 0x80000;

/// A change to the child's file table, applied in order at spawn.
#[derive(Debug)]
pub enum FileAction {
    /// open(path, oflag, mode) had been called, and the returned file
    /// descriptor, if not `fd`, had been changed to `fd`.
    Open { path: String, mode: u32, oflag: u32, fd: FileDesc },
    Dup2(FileDesc, FileDesc),
    Close(FileDesc),
}

/// The table after one action; `opened` is what opening the action's path
/// gave, and matters for `Open` only.
pub open spec fn spec_apply_action(
    t: Seq<Option<FileEntry>>,
    a: FileAction,
    opened: Result<FileRef, Error>,
) -> Result<Seq<Option<FileEntry>>, Errno> {
    match a {
        FileAction::Open { path, mode, oflag, fd } => match opened {
            Ok(f) => Ok(
                spec_put_at(
                    t,
                    fd as int,
                    FileEntry { file: f, close_on_spawn: oflag & O_CLOEXEC != 0 },
                ),
            ),
            Err(e) => Err(e.errno),
        },
        FileAction::Dup2(old_fd, new_fd) => match slot(t, old_fd as int) {
            None => Err(Errno::EBADF),
            Some(e) => if old_fd != new_fd {
                Ok(spec_put_at(t, new_fd as int, FileEntry { file: e.file, close_on_spawn: false }))
            } else {
                Ok(t)
            },
        },
        FileAction::Close(fd) => Ok(spec_del(t, fd as int)),
    }
}

/// The table after the first `n` actions, or the first error.
pub open spec fn spec_apply_actions(
    t: Seq<Option<FileEntry>>,
    actions: Seq<FileAction>,
    opened: Seq<Result<FileRef, Error>>,
    n: nat,
) -> Result<Seq<Option<FileEntry>>, Errno>
    decreases n,
{
    if n == 0 {
        Ok(t)
    } else {
        match spec_apply_actions(t, actions, opened, (n - 1) as nat) {
            Ok(t2) => spec_apply_action(t2, actions[n - 1], opened[n - 1]),
            Err(e) => Err(e),
        }
    }
}

/// Once an action fails, the later ones are not applied.
proof fn lemma_error_persists(
    t: Seq<Option<FileEntry>>,
    actions: Seq<FileAction>,
    opened: Seq<Result<FileRef, Error>>,
    n: nat,
    m: nat,
)
    requires
        n <= m,
        spec_apply_actions(t, actions, opened, n) is Err,
    ensures
        spec_apply_actions(t, actions, opened, m) == spec_apply_actions(t, actions, opened, n),
    decreases m - n,
{
    if n < m {
        lemma_error_persists(t, actions, opened, n, (m - 1) as nat);
    }
}

/// The child's table when its parent is an ordinary process: the parent's
/// table, changed by the actions, then swept of close-on-spawn slots.
pub open spec fn spec_inherited_files(
    parent: Seq<Option<FileEntry>>,
    actions: Seq<FileAction>,
    opened: Seq<Result<FileRef, Error>>,
) -> Result<Seq<Option<FileEntry>>, Errno> {
    match spec_apply_actions(parent, actions, opened, actions.len()) {
        Ok(t) => Ok(spec_close_on_spawn(t)),
        Err(e) => Err(e),
    }
}

/// The table of a process spawned by the idle process: standard input,
/// standard output, and standard output again as standard error.
pub open spec fn spec_fresh_files(stdin: FileRef, stdout: FileRef) -> Seq<Option<FileEntry>> {
    seq![
        Some(FileEntry { file: stdin, close_on_spawn: false }),
        Some(FileEntry { file: stdout, close_on_spawn: false }),
        Some(FileEntry { file: stdout, close_on_spawn: false }),
    ]
}

/// Applies one file action to a child's table; `opened` is what opening
/// the action's path gave, and matters for `Open` only. A caller that opens
/// each path only when its action comes up applies the actions one by one
/// with this.
pub fn apply_file_action(
    table: &mut FileTable,
    action: &FileAction,
    opened: &Result<FileRef, Error>,
) -> (r: Result<(), Error>)
    ensures
        match spec_apply_action(old(table)@, *action, *opened) {
            Ok(t) => r is Ok && final(table)@ == t,
            Err(e) => r is Err && r->Err_0.errno == e,
        },
{
    match action {
        FileAction::Open { path: _, mode: _, oflag, fd } => {
            match opened {
                Ok(f) => {
                    let close_on_spawn = *oflag & O_CLOEXEC != 0;
                    table.put_at(*fd, *f, close_on_spawn);
                    Ok(())
                },
                Err(e) => Err(*e),
            }
        },
        FileAction::Dup2(old_fd, new_fd) => {
            let file = match table.get(*old_fd) {
                Ok(f) => f,
                Err(e) => return Err(e),
            };
            if *old_fd != *new_fd {
                table.put_at(*new_fd, file, false);
            }
            Ok(())
        },
        FileAction::Close(fd) => {
            // a descriptor that is already free is no error here
            let _ = table.del(*fd);
            Ok(())
        },
    }
}

/// Builds the file table of a new child of `parent_pid`.
///
/// `opened[i]` is the result of opening the path of `file_actions[i]`
/// through the parent's namespace, where that action is an `Open`.
pub fn init_files(
    parent_pid: u32,
    parent_files: &FileTable,
    file_actions: &Vec<FileAction>,
    opened: &Vec<Result<FileRef, Error>>,
    stdin: FileRef,
    stdout: FileRef,
) -> (r: Result<FileTable, Error>)
    requires
        opened@.len() == file_actions@.len(),
    ensures
        parent_pid > 0 ==> match spec_inherited_files(parent_files@, file_actions@, opened@) {
            Ok(t) => r is Ok && r->Ok_0@ == t,
            Err(e) => r is Err && r->Err_0.errno == e,
        },
        parent_pid == 0 ==> r is Ok && r->Ok_0@ == spec_fresh_files(stdin, stdout),
{
    if parent_pid > 0 {
        let mut table = parent_files.duplicate();
        let mut i: usize = 0;
        while i < file_actions.len()
            invariant
                i <= file_actions@.len(),
                parent_pid > 0,
                opened@.len() == file_actions@.len(),
                spec_apply_actions(parent_files@, file_actions@, opened@, i as nat) == Ok::<
                    Seq<Option<FileEntry>>,
                    Errno,
                >(table@),
            decreases file_actions@.len() - i,
        {
            match apply_file_action(&mut table, &file_actions[i], &opened[i]) {
                Ok(()) => {},
                Err(e) => {
                    proof {
                        lemma_error_persists(
                            parent_files@,
                            file_actions@,
                            opened@,
                            (i + 1) as nat,
                            file_actions@.len(),
                        );
                    }
                    return Err(e);
                },
            }
            i = i + 1;
        }
        table.close_on_spawn();
        return Ok(table);
    }
    let mut table = FileTable::new();
    table.put(stdin, false);
    table.put(stdout, false);
    table.put(stdout, false);
    assert(table@ =~= spec_fresh_files(stdin, stdout));
    Ok(table)
}

/// The bytes reserved at the top of the stack for the initial stack.
pub const INIT_STACK_SIZE: usize = 4096;

/// The auxiliary vector of a process placed at `base_addr`.
pub open spec fn spec_auxtbl(base_addr: int, program_entry: int, ph: ProgramHeaderInfo) -> Seq<
    (AuxKey, u64),
> {
    seq![
        (AuxKey::AT_PAGESZ, 4096u64),
        (AuxKey::AT_UID, 0u64),
        (AuxKey::AT_GID, 0u64),
        (AuxKey::AT_EUID, 0u64),
        (AuxKey::AT_EGID, 0u64),
        (AuxKey::AT_SECURE, 0u64),
        (AuxKey::AT_PHDR, (base_addr + ph.addr) as u64),
        (AuxKey::AT_PHENT, ph.entry_size as u64),
        (AuxKey::AT_PHNUM, ph.entry_num as u64),
        (AuxKey::AT_ENTRY, program_entry as u64),
    ]
}

/// Builds the auxiliary vector; where the program headers' address does
/// not fit in a `usize`, fails with `ENOEXEC`.
pub fn init_auxtbl(base_addr: usize, program_entry: usize, elf: &ElfInfo) -> (r: Result<
    AuxTable,
    Error,
>)
    ensures
        base_addr + elf.ph_info.addr <= usize::MAX ==> r is Ok && r->Ok_0@ == spec_auxtbl(
            base_addr as int,
            program_entry as int,
            elf.ph_info,
        ),
        base_addr + elf.ph_info.addr > usize::MAX ==> r is Err && r->Err_0.errno
            == Errno::ENOEXEC,
{
    let ph = get_program_header_info(elf);
    if ph.addr > usize::MAX - base_addr {
        return Err(Error::new(Errno::ENOEXEC, "program headers out of range"));
    }
    let mut auxtbl = AuxTable::new();
    let _ = auxtbl.set_val(AuxKey::AT_PAGESZ, 4096);
    let _ = auxtbl.set_val(AuxKey::AT_UID, 0);
    let _ = auxtbl.set_val(AuxKey::AT_GID, 0);
    let _ = auxtbl.set_val(AuxKey::AT_EUID, 0);
    let _ = auxtbl.set_val(AuxKey::AT_EGID, 0);
    let _ = auxtbl.set_val(AuxKey::AT_SECURE, 0);
    let _ = auxtbl.set_val(AuxKey::AT_PHDR, (base_addr + ph.addr) as u64);
    let _ = auxtbl.set_val(AuxKey::AT_PHENT, ph.entry_size as u64);
    let _ = auxtbl.set_val(AuxKey::AT_PHNUM, ph.entry_num as u64);
    let _ = auxtbl.set_val(AuxKey::AT_ENTRY, program_entry as u64);
    assert(auxtbl@ =~= spec_auxtbl(base_addr as int, program_entry as int, elf.ph_info));
    Ok(auxtbl)
}

/// The task that starts at `user_entry` with the initial stack laid out
/// below `stack_top`, with the bytes of that stack.
pub fn init_task(
    user_entry: usize,
    stack_top: usize,
    argv: &Vec<String>,
    envp: &Vec<String>,
    auxtbl: &AuxTable,
) -> (r: Result<(Task, Vec<u8>), Error>)
    ensures
        match spec_stack(stack_top as int, INIT_STACK_SIZE as int, argv@, envp@, aux_pairs(auxtbl@)) {
            Some((sp, bytes)) => r is Ok && r->Ok_0.0.user_entry_addr == user_entry
                && r->Ok_0.0.user_stack_addr == sp && r->Ok_0.1@ == bytes,
            None => r is Err && r->Err_0.errno == Errno::ENOMEM,
        },
{
    match init_stack::do_init(stack_top, INIT_STACK_SIZE, argv, envp, auxtbl) {
        Ok((sp, bytes)) => Ok((Task { user_entry_addr: user_entry, user_stack_addr: sp }, bytes)),
        Err(e) => Err(e),
    }
}

/// Records `child` as a child of `parent`, and `parent` as its parent.
pub fn parent_adopts_new_child(parent: &mut Process, child: &mut Process)
    ensures
        final(parent).children@ == old(parent).children@.push(old(child).pid),
        final(parent).pid == old(parent).pid,
        final(parent).cwd == old(parent).cwd,
        final(parent).parent == old(parent).parent,
        final(parent).files == old(parent).files,
        final(parent).task == old(parent).task,
        final(parent).rlimits == old(parent).rlimits,
        final(parent).vm == old(parent).vm,
        final(child).parent == Some(old(parent).pid),
        final(child).pid == old(child).pid,
        final(child).cwd == old(child).cwd,
        final(child).children == old(child).children,
        final(child).files == old(child).files,
        final(child).task == old(child).task,
        final(child).rlimits == old(child).rlimits,
        final(child).vm == old(child).vm,
{
    parent.children.push(child.pid);
    child.parent = Some(parent.pid);
}

/// What a successful spawn hands back: the new pid, and the bytes that the
/// caller copies into the new process's memory: its code and data from the
/// image base on, and its initial stack from the task's stack pointer on.
pub struct Spawned {
    pub pid: u32,
    pub image: Vec<u8>,
    pub stack: Vec<u8>,
}

/// The entry point of `elf` placed at `base`, where it lies in the code
/// region `[base, base + code_end)`.
pub open spec fn entry_ok(elf: ElfInfo, base: int, p: LayoutPlan) -> bool {
    &&& base + elf.entry <= usize::MAX
    &&& elf.entry < p.code_end
}

/// Why spawning fails, step by step, or `None` where it succeeds.
pub open spec fn spawn_error(
    parent: Process,
    elf: ElfInfo,
    buf: Seq<u8>,
    base: Option<usize>,
    syscall_addr: usize,
    argv: Seq<String>,
    envp: Seq<String>,
    actions: Seq<FileAction>,
    opened: Seq<Result<FileRef, Error>>,
) -> Option<Errno> {
    match spec_plan(elf, buf.len() as int) {
        Err(e) => Some(e),
        Ok(p) => if !vm_fits(base, p) {
            Some(Errno::ENOMEM)
        } else {
            let b = base->Some_0 as int;
            match spec_image(elf, p, buf, b, syscall_addr as u64) {
                Err(e) => Some(e),
                Ok(_) => if !entry_ok(elf, b, p) {
                    Some(Errno::EINVAL)
                } else if b + elf.ph_info.addr > usize::MAX {
                    Some(Errno::ENOEXEC)
                } else {
                    let stack_top = spec_layout(
                        b,
                        p.code_end as int,
                        p.data_end - p.code_end,
                        DEFAULT_HEAP_SIZE as int,
                        DEFAULT_STACK_SIZE as int,
                        DEFAULT_MMAP_SIZE as int,
                    )[3].1;
                    let aux = spec_auxtbl(b, b + elf.entry, elf.ph_info);
                    match spec_stack(stack_top, INIT_STACK_SIZE as int, argv, envp, aux_pairs(aux)) {
                        None => Some(Errno::ENOMEM),
                        Some(_) => if parent.pid > 0 {
                            match spec_inherited_files(parent.files@, actions, opened) {
                                Err(e) => Some(e),
                                Ok(_) => None,
                            }
                        } else {
                            None
                        },
                    }
                }
            }
        },
    }
}

/// Spawns a child of `parent` running the executable `elf`, whose file
/// bytes are `elf_buf`, in the memory that the allocator reserved at
/// `vm_base`. The file actions are applied to a copy of the parent's file
/// table; `opened[i]` is what opening the path of action `i` gave, and a
/// child of the idle process gets `stdin` and `stdout` instead. On success
/// the child is adopted by `parent` and published in `table` under a fresh
/// pid; on failure neither changes.
pub fn do_spawn(
    table: &mut ProcessTable,
    pids: &mut PidAllocator,
    parent: &mut Process,
    elf: &ElfInfo,
    elf_buf: &Vec<u8>,
    vm_base: Option<usize>,
    syscall_addr: usize,
    argv: &Vec<String>,
    envp: &Vec<String>,
    file_actions: &Vec<FileAction>,
    opened: &Vec<Result<FileRef, Error>>,
    stdin: FileRef,
    stdout: FileRef,
) -> (r: Result<Spawned, Error>)
    requires
        old(pids).wf(),
        old(pids).spec_next() < u32::MAX,
        old(table).wf(),
        pids_below(old(table)@, old(pids).spec_next()),
        opened@.len() == file_actions@.len(),
    ensures
        final(pids).wf(),
        final(table).wf(),
        pids_below(final(table)@, final(pids).spec_next()),
        match spawn_error(
            *old(parent),
            *elf,
            elf_buf@,
            vm_base,
            syscall_addr,
            argv@,
            envp@,
            file_actions@,
            opened@,
        ) {
            Some(e) => {
                &&& r is Err && r->Err_0.errno == e
                &&& final(table)@ == old(table)@
                &&& final(pids).spec_next() == old(pids).spec_next()
                &&& final(parent).children@ == old(parent).children@
            },
            None => {
                let pid = r->Ok_0.pid;
                let child = final(table)@[pid];
                let b = vm_base->Some_0 as int;
                let p = spec_plan(*elf, elf_buf@.len() as int)->Ok_0;
                &&& r is Ok
                &&& pid == old(pids).spec_next()
                &&& !old(table)@.contains_key(pid)
                &&& final(pids).spec_next() == pid + 1
                &&& final(table)@ == old(table)@.insert(pid, child)
                &&& child.pid == pid
                &&& child.parent == Some(old(parent).pid)
                &&& child.cwd@ == old(parent).cwd@
                &&& child.children@.len() == 0
                &&& final(parent).children@ == old(parent).children@.push(pid)
                &&& child.task.user_entry_addr == b + elf.entry
                &&& child.vm.wf()
                &&& child.vm.regions() == spec_layout(
                    b,
                    p.code_end as int,
                    p.data_end - p.code_end,
                    DEFAULT_HEAP_SIZE as int,
                    DEFAULT_STACK_SIZE as int,
                    DEFAULT_MMAP_SIZE as int,
                )
                &&& Ok::<Seq<u8>, Errno>(r->Ok_0.image@) == spec_image(
                    *elf,
                    p,
                    elf_buf@,
                    b,
                    syscall_addr as u64,
                )
                &&& spec_stack(
                    child.vm.stack.end as int,
                    INIT_STACK_SIZE as int,
                    argv@,
                    envp@,
                    aux_pairs(spec_auxtbl(b, b + elf.entry, elf.ph_info)),
                ) == Some((child.task.user_stack_addr as int, r->Ok_0.stack@))
                &&& old(parent).pid > 0 ==> spec_inherited_files(
                    old(parent).files@,
                    file_actions@,
                    opened@,
                ) == Ok::<Seq<Option<FileEntry>>, Errno>(child.files@)
                &&& old(parent).pid == 0 ==> child.files@ == spec_fresh_files(stdin, stdout)
            },
        },
{
    let (vm, image) = match init_vm::do_init(elf, elf_buf, vm_base, syscall_addr) {
        Ok(v) => v,
        Err(e) => return Err(e),
    };
    let ghost p = spec_plan(*elf, elf_buf@.len() as int)->Ok_0;
    let base_addr = vm.get_base_addr();
    proof {
        assert(vm.regions()[0].0 == vm.code.start);
        assert(base_addr == vm_base->Some_0);
    }
    let start = get_start_address(elf);
    if start > usize::MAX - base_addr {
        return Err(Error::new(Errno::EINVAL, "invalid program entry"));
    }
    let program_entry = base_addr + start;
    if !vm.get_code_range().contains(program_entry) {
        return Err(Error::new(Errno::EINVAL, "invalid program entry"));
    }
    let auxtbl = match init_auxtbl(base_addr, program_entry, elf) {
        Ok(t) => t,
        Err(e) => return Err(e),
    };
    let stack_top = vm.get_stack_top();
    let (task, stack) = match init_task(program_entry, stack_top, argv, envp, &auxtbl) {
        Ok(t) => t,
        Err(e) => return Err(e),
    };
    let files = match init_files(parent.pid, &parent.files, file_actions, opened, stdin, stdout) {
        Ok(f) => f,
        Err(e) => return Err(e),
    };
    let pid = alloc_pid(pids);
    let mut child = Process {
        pid,
        cwd: parent.cwd.clone(),
        parent: None,
        children: Vec::new(),
        vm,
        files,
        rlimits: ResourceLimits {
            stack_size: DEFAULT_STACK_SIZE,
            heap_size: DEFAULT_HEAP_SIZE,
            mmap_size: DEFAULT_MMAP_SIZE,
        },
        task,
    };
    parent_adopts_new_child(parent, &mut child);
    let ghost published = child;
    put(table, pid, child);
    proof {
        let b = vm_base->Some_0 as int;
        assert(table@[pid] == published);
        assert(published.vm.regions()[3].1 == published.vm.stack.end);
        assert(spec_stack(published.vm.stack.end as int, INIT_STACK_SIZE as int, argv@, envp@,
            aux_pairs(spec_auxtbl(b, b + elf.entry, elf.ph_info))) == Some((published.task.user_stack_addr as int, stack@)));
    }
    Ok(Spawned { pid, image, stack })
}

/// The child's file table holds no slot marked close-on-spawn, whichever
/// actions ran.
pub proof fn spawned_files_have_no_cloexec_slot(
    parent: Seq<Option<FileEntry>>,
    actions: Seq<FileAction>,
    opened: Seq<Result<FileRef, Error>>,
    stdin: FileRef,
    stdout: FileRef,
)
    ensures
        spec_inherited_files(parent, actions, opened) is Ok ==> forall|fd: int|
            #[trigger] slot(spec_inherited_files(parent, actions, opened)->Ok_0, fd) is Some
                ==> !slot(spec_inherited_files(parent, actions, opened)->Ok_0, fd)->Some_0.close_on_spawn,
        forall|fd: int|
            #[trigger] slot(spec_fresh_files(stdin, stdout), fd) is Some ==> !slot(
                spec_fresh_files(stdin, stdout),
                fd,
            )->Some_0.close_on_spawn,
{
    match spec_apply_actions(parent, actions, opened, actions.len()) {
        Ok(t) => crate::file_table::close_on_spawn_leaves_none_marked(t),
        Err(_) => {},
    }
}

/// A process published under `pid` is what the table gives for `pid`, and
/// stays so while other pids come and go.
pub proof fn published_process_is_found(
    before: Map<u32, Process>,
    after: Map<u32, Process>,
    pid: u32,
    child: Process,
)
    requires
        after == before.insert(pid, child),
    ensures
        after.contains_key(pid),
        after[pid] == child,
        forall|q: u32| q != pid ==> (#[trigger] after.remove(q)).contains_key(pid) && after.remove(
            q,
        )[pid] == child,
        forall|q: u32, other: Process|
            q != pid ==> (#[trigger] after.insert(q, other)).contains_key(pid) && after.insert(
                q,
                other,
            )[pid] == child,
{
}

/// An entry point at or past the end of the code region, the region's end
/// included, makes the spawn fail with `EINVAL` once the image is built.
pub proof fn entry_at_code_end_is_rejected(
    parent: Process,
    elf: ElfInfo,
    buf: Seq<u8>,
    base: Option<usize>,
    syscall_addr: usize,
    argv: Seq<String>,
    envp: Seq<String>,
    actions: Seq<FileAction>,
    opened: Seq<Result<FileRef, Error>>,
)
    requires
        spec_plan(elf, buf.len() as int) is Ok,
        vm_fits(base, spec_plan(elf, buf.len() as int)->Ok_0),
        spec_image(
            elf,
            spec_plan(elf, buf.len() as int)->Ok_0,
            buf,
            base->Some_0 as int,
            syscall_addr as u64,
        ) is Ok,
        elf.entry >= spec_plan(elf, buf.len() as int)->Ok_0.code_end,
    ensures
        spawn_error(parent, elf, buf, base, syscall_addr, argv, envp, actions, opened) == Some(
            Errno::EINVAL,
        ),
{
}

} // verus!
