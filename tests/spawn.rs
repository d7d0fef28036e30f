use occlum_libos::errno::Errno;
use occlum_libos::file_table::{FileRef, FileTable};
use occlum_libos::process_table::{
    get, put, remove, PidAllocator, Process, ProcessTable, ResourceLimits, Task,
};
use occlum_libos::spawn::elf::{ElfInfo, ProgramHeader, ProgramHeaderInfo, RelaEntry};
use occlum_libos::spawn::init_stack::{decode_auxv, encode_auxv, AuxKey, AuxTable};
use occlum_libos::spawn::init_vm::{link_syscalls, plan_layout, reloc_symbols};
use occlum_libos::spawn::{do_spawn, init_auxtbl, FileAction, INIT_STACK_SIZE};
use occlum_libos::vm::ProcessVM;

const BASE: usize = 0x1000_0000;
const TRAMP: usize = 0xdead_beef;

fn word(b: &[u8], off: usize) -> u64 {
    u64::from_le_bytes(b[off..off + 8].try_into().unwrap())
}

fn sample_elf(entry: usize) -> (ElfInfo, Vec<u8>) {
    let code = ProgramHeader { ph_type: 1, flags: 5, offset: 0, vaddr: 0, file_size: 16, mem_size: 16, align: 0x1000 };
    let data = ProgramHeader { ph_type: 1, flags: 6, offset: 16, vaddr: 0x1000, file_size: 8, mem_size: 0x40, align: 0x1000 };
    let elf = ElfInfo {
        entry,
        ph_info: ProgramHeaderInfo { addr: 0x40, entry_size: 56, entry_num: 2 },
        program_headers: vec![code, data],
        rela_dyn: vec![RelaEntry { offset: 0x1008, sym_index: 0, rela_type: 8, addend: 0x10 }],
        rela_plt: vec![RelaEntry { offset: 0x1010, sym_index: 1, rela_type: 7, addend: 0 }],
        dynsym_names: vec![Some(Vec::new()), Some(b"__occlum_syscall".to_vec())],
    };
    let mut buf: Vec<u8> = (0u8..16).collect();
    buf.extend_from_slice(&[0xaa; 8]);
    (elf, buf)
}

fn idle() -> Process {
    Process {
        pid: 0,
        cwd: String::from("/"),
        parent: None,
        children: Vec::new(),
        vm: ProcessVM::new(Some(0), 0, 0, 0, 0, 0).unwrap(),
        files: FileTable::new(),
        rlimits: ResourceLimits { stack_size: 0, heap_size: 0, mmap_size: 0 },
        task: Task { user_entry_addr: 0, user_stack_addr: 0 },
    }
}

#[test]
fn plan_follows_the_data_segment() {
    let (elf, buf) = sample_elf(0);
    let p = plan_layout(&elf, buf.len()).unwrap();
    assert_eq!(p.code_end, 0x1000);
    assert_eq!(p.data_end, 0x2000);
    assert_eq!(plan_layout(&elf, 10).unwrap_err().errno, Errno::ENOEXEC);
}

#[test]
fn missing_data_segment_is_not_executable() {
    let (mut elf, buf) = sample_elf(0);
    elf.program_headers.pop();
    assert_eq!(plan_layout(&elf, buf.len()).unwrap_err().errno, Errno::ENOEXEC);
}

#[test]
fn relative_relocation_rebases() {
    let mut img = vec![0u8; 32];
    let entries = vec![
        RelaEntry { offset: 8, sym_index: 0, rela_type: 8, addend: 0x20 },
        RelaEntry { offset: 16, sym_index: 3, rela_type: 8, addend: 0x20 },
        RelaEntry { offset: 0, sym_index: 0, rela_type: 6, addend: 0x20 },
    ];
    reloc_symbols(0x4000, &entries, &mut img).unwrap();
    assert_eq!(word(&img, 8), 0x4020);
    assert_eq!(word(&img, 16), 0);
    assert_eq!(word(&img, 0), 0);
    let neg = vec![RelaEntry { offset: 24, sym_index: 0, rela_type: 8, addend: -0x10 }];
    reloc_symbols(0x4000, &neg, &mut img).unwrap();
    assert_eq!(word(&img, 24), 0x3ff0);
    let under = vec![RelaEntry { offset: 24, sym_index: 0, rela_type: 8, addend: -0x4001 }];
    assert_eq!(reloc_symbols(0x4000, &under, &mut img).unwrap_err().errno, Errno::ENOEXEC);
    let bad = vec![RelaEntry { offset: 30, sym_index: 0, rela_type: 8, addend: 0 }];
    assert_eq!(reloc_symbols(0x4000, &bad, &mut img).unwrap_err().errno, Errno::ENOEXEC);
}

#[test]
fn plt_rewrite_touches_only_syscall_slots() {
    let mut img = vec![0x11u8; 48];
    let names = vec![Some(Vec::new()), Some(b"__occlum_syscall".to_vec()), Some(b"other".to_vec())];
    let entries = vec![
        RelaEntry { offset: 0, sym_index: 1, rela_type: 7, addend: 0 },
        RelaEntry { offset: 16, sym_index: 1, rela_type: 7, addend: 0 },
        RelaEntry { offset: 32, sym_index: 2, rela_type: 7, addend: 0 },
    ];
    link_syscalls(TRAMP, &entries, &names, &mut img).unwrap();
    assert_eq!(word(&img, 0), TRAMP as u64);
    assert_eq!(word(&img, 16), TRAMP as u64);
    assert_eq!(word(&img, 32), 0x1111_1111_1111_1111);
    assert_eq!(word(&img, 8), 0x1111_1111_1111_1111);
}

#[test]
fn unreadable_symbol_name_is_not_executable() {
    let mut img = vec![0u8; 16];
    let names = vec![None];
    let entries = vec![RelaEntry { offset: 0, sym_index: 0, rela_type: 7, addend: 0 }];
    assert_eq!(link_syscalls(TRAMP, &entries, &names, &mut img).unwrap_err().errno, Errno::ENOEXEC);
    let entries = vec![RelaEntry { offset: 0, sym_index: 5, rela_type: 7, addend: 0 }];
    assert_eq!(link_syscalls(TRAMP, &entries, &names, &mut img).unwrap_err().errno, Errno::ENOEXEC);
}

#[test]
fn auxv_round_trip_with_terminator() {
    let mut t = AuxTable::new();
    t.set_val(AuxKey::AT_PAGESZ, 4096).unwrap();
    t.set_val(AuxKey::AT_UID, 0).unwrap();
    t.set_val(AuxKey::AT_GID, 0).unwrap();
    t.set_val(AuxKey::AT_ENTRY, 0x401000).unwrap();
    let words = encode_auxv(&t.table());
    assert_eq!(words, vec![6, 4096, 11, 0, 13, 0, 9, 0x401000, 0, 0]);
    let back = decode_auxv(&words);
    assert_eq!(back, vec![(6, 4096), (11, 0), (13, 0), (9, 0x401000), (0, 0)]);
}

#[test]
fn aux_table_keeps_keys_unique() {
    let mut t = AuxTable::new();
    t.set_val(AuxKey::AT_UID, 1).unwrap();
    t.set_val(AuxKey::AT_UID, 2).unwrap();
    assert_eq!(t.table(), vec![(11, 2)]);
    assert_eq!(t.set_val(AuxKey::AT_NULL, 0).unwrap_err().errno, Errno::EINVAL);
}

#[test]
fn auxtbl_has_the_mandatory_keys() {
    let (elf, _) = sample_elf(0x10);
    let t = init_auxtbl(BASE, BASE + 0x10, &elf).unwrap();
    assert_eq!(
        t.table(),
        vec![(6, 4096), (11, 0), (13, 0), (12, 0), (14, 0), (23, 0), (3, (BASE + 0x40) as u64), (4, 56), (5, 2), (9, (BASE + 0x10) as u64)]
    );
}

#[test]
fn spawn_publishes_the_child() {
    let (elf, buf) = sample_elf(0x8);
    let mut table = ProcessTable::new();
    let mut pids = PidAllocator::new();
    let mut parent = idle();
    let argv = vec![String::from("prog"), String::from("x")];
    let s = do_spawn(&mut table, &mut pids, &mut parent, &elf, &buf, Some(BASE), TRAMP, &argv, &vec![], &vec![], &vec![], FileRef { id: 1 }, FileRef { id: 2 }).unwrap();
    assert_eq!(s.pid, 1);
    assert_eq!(pids.next(), 2);
    assert_eq!(table.len(), 1);
    let child = get(&table, 1).unwrap();
    assert_eq!(child.pid, 1);
    assert_eq!(child.parent, Some(0));
    assert_eq!(parent.children, vec![1]);
    assert_eq!(child.task.user_entry_addr, BASE + 8);
    assert_eq!(child.files.get(2).unwrap(), FileRef { id: 2 });
    // the image: code copied, data copied, rebased word, linked slot
    assert_eq!(s.image.len(), 0x2000);
    assert_eq!(&s.image[0..16], &buf[0..16]);
    assert_eq!(word(&s.image, 0x1000), 0xaaaa_aaaa_aaaa_aaaa);
    assert_eq!(word(&s.image, 0x1008), (BASE + 0x10) as u64);
    assert_eq!(word(&s.image, 0x1010), TRAMP as u64);
    // the stack: 16-byte aligned, argc then the argv pointers
    let sp = child.task.user_stack_addr;
    assert_eq!(sp % 16, 0);
    let top = child.vm.get_stack_top();
    assert_eq!(top - sp, s.stack.len());
    assert!(s.stack.len() <= INIT_STACK_SIZE);
    assert_eq!(word(&s.stack, 0), 2);
    let a0 = word(&s.stack, 8) as usize - sp;
    assert_eq!(&s.stack[a0..a0 + 5], b"prog\0");
    let a1 = word(&s.stack, 16) as usize - sp;
    assert_eq!(&s.stack[a1..a1 + 2], b"x\0");
    assert_eq!(word(&s.stack, 24), 0);
    assert_eq!(word(&s.stack, 32), 0);
    assert_eq!(word(&s.stack, 40), 6);
    assert_eq!(word(&s.stack, 48), 4096);
}

#[test]
fn entry_at_code_end_is_rejected() {
    let (elf, buf) = sample_elf(0x1000);
    let mut table = ProcessTable::new();
    let mut pids = PidAllocator::new();
    let mut parent = idle();
    let r = do_spawn(&mut table, &mut pids, &mut parent, &elf, &buf, Some(BASE), TRAMP, &vec![], &vec![], &vec![], &vec![], FileRef { id: 1 }, FileRef { id: 2 });
    assert_eq!(r.err().unwrap().errno, Errno::EINVAL);
    assert_eq!(table.len(), 0);
    assert!(parent.children.is_empty());
}

#[test]
fn entry_in_data_is_rejected() {
    let (elf, buf) = sample_elf(0x1010);
    let mut table = ProcessTable::new();
    let mut pids = PidAllocator::new();
    let mut parent = idle();
    let r = do_spawn(&mut table, &mut pids, &mut parent, &elf, &buf, Some(BASE), TRAMP, &vec![], &vec![], &vec![], &vec![], FileRef { id: 1 }, FileRef { id: 2 });
    assert_eq!(r.err().unwrap().errno, Errno::EINVAL);
    assert_eq!(table.len(), 0);
}

#[test]
fn spawn_without_memory_fails() {
    let (elf, buf) = sample_elf(0);
    let mut table = ProcessTable::new();
    let mut pids = PidAllocator::new();
    let mut parent = idle();
    let r = do_spawn(&mut table, &mut pids, &mut parent, &elf, &buf, None, TRAMP, &vec![], &vec![], &vec![], &vec![], FileRef { id: 1 }, FileRef { id: 2 });
    assert_eq!(r.err().unwrap().errno, Errno::ENOMEM);
}

#[test]
fn oversized_arguments_overflow_the_stack() {
    let (elf, buf) = sample_elf(0);
    let mut table = ProcessTable::new();
    let mut pids = PidAllocator::new();
    let mut parent = idle();
    let argv = vec!["a".repeat(5000)];
    let r = do_spawn(&mut table, &mut pids, &mut parent, &elf, &buf, Some(BASE), TRAMP, &argv, &vec![], &vec![], &vec![], FileRef { id: 1 }, FileRef { id: 2 });
    assert_eq!(r.err().unwrap().errno, Errno::ENOMEM);
}

#[test]
fn spawn_applies_file_actions_for_a_real_parent() {
    let (elf, buf) = sample_elf(0);
    let mut table = ProcessTable::new();
    let mut pids = PidAllocator::new();
    let mut parent = idle();
    parent.pid = 5;
    parent.files.put_at(7, FileRef { id: 70 }, false);
    let actions = vec![FileAction::Open { path: String::from("/tmp/x"), mode: 0, oflag: 2 | 0x80000, fd: 9 }];
    let opened = vec![Ok(FileRef { id: 90 })];
    let s = do_spawn(&mut table, &mut pids, &mut parent, &elf, &buf, Some(BASE), TRAMP, &vec![], &vec![], &actions, &opened, FileRef { id: 1 }, FileRef { id: 2 }).unwrap();
    let child = get(&table, s.pid).unwrap();
    assert_eq!(child.parent, Some(5));
    assert_eq!(child.files.get(7).unwrap(), FileRef { id: 70 });
    assert_eq!(child.files.get(9).unwrap_err().errno, Errno::EBADF);
}

#[test]
fn process_table_put_get_remove() {
    let mut table = ProcessTable::new();
    assert_eq!(get(&table, 3).err().unwrap().errno, Errno::ENOENT);
    let mut p = idle();
    p.pid = 3;
    put(&mut table, 3, p);
    assert_eq!(get(&table, 3).unwrap().pid, 3);
    assert!(table.pids_below(4));
    assert!(!table.pids_below(3));
    remove(&mut table, 3);
    assert_eq!(get(&table, 3).err().unwrap().errno, Errno::ENOENT);
}
