use occlum_libos::errno::Errno;
use occlum_libos::prelude::{align_down, align_up};
use occlum_libos::process_table::{alloc_pid, free_pid, PidAllocator};
use occlum_libos::sgx_storage::{
    empty_io, pad_chunk_len, padding_len, sealed_file_name, write_ops, SgxStorage, StreamOp,
    PAD_CHUNK,
};
use occlum_libos::file_table::FileRef;
use occlum_libos::uname::{do_uname, utsname_t};
use occlum_libos::vm::{ProcessVM, VMRange};

#[test]
fn align_rounds_to_multiples() {
    assert_eq!(align_up(0, 4096), 0);
    assert_eq!(align_up(1, 4096), 4096);
    assert_eq!(align_up(4096, 4096), 4096);
    assert_eq!(align_up(4097, 16), 4112);
    assert_eq!(align_down(4097, 4096), 4096);
    assert_eq!(align_down(0x2345, 0x1000), 0x2000);
    assert_eq!(align_down(4095, 4096), 0);
}

#[test]
fn pids_are_positive_and_increasing() {
    let mut pids = PidAllocator::new();
    assert_eq!(pids.next(), 1);
    let a = alloc_pid(&mut pids);
    let b = alloc_pid(&mut pids);
    free_pid(&mut pids, a);
    free_pid(&mut pids, 0);
    let c = alloc_pid(&mut pids);
    assert_eq!(a, 1);
    assert_eq!(b, 2);
    assert_eq!(c, 3);
}

fn field_str(f: &[u8; 65]) -> String {
    let n = f.iter().position(|&b| b == 0).unwrap();
    String::from_utf8(f[..n].to_vec()).unwrap()
}

#[test]
fn uname_fills_identity() {
    let mut name = utsname_t::new();
    name.sysname = [b'x'; 65];
    assert!(do_uname(&mut name).is_ok());
    assert_eq!(field_str(&name.sysname), "Occlum");
    assert_eq!(field_str(&name.nodename), "occlum-node");
    assert_eq!(field_str(&name.release), "0.1");
    assert_eq!(field_str(&name.version), "0.1");
    assert_eq!(field_str(&name.machine), "x86-64");
    assert_eq!(field_str(&name.domainname), "");
    for f in [&name.sysname, &name.nodename, &name.release, &name.version, &name.machine, &name.domainname] {
        assert!(f.iter().any(|&b| b == 0));
    }
}

#[test]
fn vm_regions_are_ordered_page_aligned() {
    let vm = ProcessVM::new(Some(0x100000), 0x1800, 0x1000, 0x10, 0x2000, 0).unwrap();
    assert_eq!(vm.get_base_addr(), 0x100000);
    assert_eq!(vm.get_code_range(), VMRange { start: 0x100000, end: 0x102000 });
    assert_eq!(vm.get_data_range(), VMRange { start: 0x102000, end: 0x103000 });
    assert_eq!(vm.get_heap_range(), VMRange { start: 0x103000, end: 0x104000 });
    assert_eq!(vm.get_stack_range(), VMRange { start: 0x104000, end: 0x106000 });
    assert_eq!(vm.get_mmap_range(), VMRange { start: 0x106000, end: 0x106000 });
    assert_eq!(vm.get_stack_top(), 0x106000);
    assert_eq!(vm.get_brk(), 0x103000);
    assert_eq!(ProcessVM::extent_size(0x1800, 0x1000, 0x10, 0x2000, 0), Some(0x6000));
}

#[test]
fn vm_without_memory_fails() {
    assert_eq!(ProcessVM::new(None, 1, 1, 1, 1, 1).err().unwrap().errno, Errno::ENOMEM);
    assert_eq!(ProcessVM::new(Some(0x1001), 1, 1, 1, 1, 1).err().unwrap().errno, Errno::ENOMEM);
    assert_eq!(ProcessVM::new(Some(usize::MAX - 0xfff), 1, 1, 1, 1, 1).err().unwrap().errno, Errno::ENOMEM);
}

#[test]
fn code_range_is_half_open() {
    let r = VMRange { start: 0x1000, end: 0x2000 };
    assert!(r.contains(0x1000));
    assert!(r.contains(0x1fff));
    assert!(!r.contains(0x2000));
    assert!(!r.contains(0xfff));
}

#[test]
fn sealed_file_names_are_decimal() {
    assert_eq!(sealed_file_name(0, false), b"0".to_vec());
    assert_eq!(sealed_file_name(42, false), b"42".to_vec());
    assert_eq!(sealed_file_name(1234567, true), b"1234567\0".to_vec());
}

#[test]
fn empty_buffers_need_no_io() {
    assert_eq!(empty_io(0), Some(0));
    assert_eq!(empty_io(1), None);
}

#[test]
fn write_padding_at_and_past_end() {
    assert_eq!(padding_len(10, 10), 0);
    assert_eq!(padding_len(10, 11), 1);
    assert_eq!(padding_len(0, 5), 5);
    assert_eq!(padding_len(10, 3), 0);
    assert_eq!(pad_chunk_len(10000), PAD_CHUNK);
    assert_eq!(pad_chunk_len(5), 5);
}

/// Runs the write operations on a byte vector that stands for the file.
fn write_at(file: &mut Vec<u8>, buf: &[u8], offset: usize) -> usize {
    let mut written = 0;
    for op in write_ops(file.len(), buf.len(), offset) {
        match op {
            StreamOp::AppendZeros(n) => file.extend(std::iter::repeat(0u8).take(n)),
            StreamOp::WriteBuf(pos) => {
                for (i, b) in buf.iter().enumerate() {
                    if pos + i < file.len() {
                        file[pos + i] = *b;
                    } else {
                        file.push(*b);
                    }
                }
                written = buf.len();
            }
        }
    }
    written
}

#[test]
fn write_ops_pad_in_chunks() {
    assert_eq!(write_ops(0, 3, 5), vec![StreamOp::AppendZeros(5), StreamOp::WriteBuf(5)]);
    assert_eq!(write_ops(7, 3, 7), vec![StreamOp::WriteBuf(7)]);
    assert_eq!(write_ops(7, 3, 8), vec![StreamOp::AppendZeros(1), StreamOp::WriteBuf(8)]);
    assert_eq!(write_ops(9, 3, 2), vec![StreamOp::WriteBuf(2)]);
    assert_eq!(write_ops(0, 0, 5), vec![]);
    assert_eq!(
        write_ops(0, 1, 10000),
        vec![StreamOp::AppendZeros(4096), StreamOp::AppendZeros(4096), StreamOp::AppendZeros(1808), StreamOp::WriteBuf(10000)]
    );
}

#[test]
fn sparse_sealed_write_reads_back_zeros() {
    let mut file = Vec::new();
    assert_eq!(write_at(&mut file, b"abc", 5), 3);
    assert_eq!(file, b"\0\0\0\0\0abc".to_vec());
    let mut g = vec![1u8, 2];
    write_at(&mut g, b"z", 2);
    assert_eq!(g, vec![1, 2, b'z']);
    write_at(&mut g, b"y", 4);
    assert_eq!(g, vec![1, 2, b'z', 0, b'y']);
    let mut h = vec![5u8];
    assert_eq!(write_at(&mut h, b"", 3), 0);
    assert_eq!(h, vec![5u8]);
}

#[test]
fn storage_cache_hits_and_evicts() {
    let mut s = SgxStorage::new(String::from("/sefs"));
    assert_eq!(s.get_path(), "/sefs");
    assert_eq!(s.get(3), None);
    s.remember(3, FileRef { id: 9 });
    assert_eq!(s.get(3), Some(FileRef { id: 9 }));
    s.remove(3);
    assert_eq!(s.get(3), None);
}
