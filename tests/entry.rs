use occlum_libos::entry::{parse_arguments, program_args};
use occlum_libos::errno::Errno;
use occlum_libos::mem_util::{from_untrusted, from_user, MemView};

const ENCLAVE: (u64, u64) = (0x100_0000, 0x200_0000);
const BASE: u64 = 0x1000;

/// A window at `BASE` holding the strings and, at offset 0x100, the
/// pointer array to all of them but the first, then NULL.
fn window(strs: &[&[u8]]) -> (MemView, u64, u64) {
    let mut bytes = vec![0u8; 0x100];
    let mut ptrs = Vec::new();
    for s in strs {
        ptrs.push(BASE + bytes.len() as u64);
        bytes.extend_from_slice(s);
        bytes.push(0);
    }
    let array = BASE + bytes.len() as u64;
    for p in &ptrs[1..] {
        bytes.extend_from_slice(&p.to_le_bytes());
    }
    bytes.extend_from_slice(&0u64.to_le_bytes());
    (MemView { base: BASE, bytes }, ptrs[0], array)
}

#[test]
fn first_argument_is_the_basename() {
    let (mem, path, argv) = window(&[b"/a/b/c/myprog", b"ignored", b"x"]);
    let (p, args) = parse_arguments(ENCLAVE, &mem, path, argv).unwrap();
    assert_eq!(p, "/a/b/c/myprog");
    assert_eq!(args, vec!["myprog", "ignored", "x"]);
}

#[test]
fn null_argv_gives_only_the_name() {
    let (mem, path, _) = window(&[b"/bin/echo"]);
    let (_, args) = parse_arguments(ENCLAVE, &mem, path, 0).unwrap();
    assert_eq!(args, vec!["echo"]);
}

#[test]
fn path_without_name_is_invalid() {
    let (mem, path, argv) = window(&[b"/"]);
    assert_eq!(parse_arguments(ENCLAVE, &mem, path, argv).unwrap_err().errno, Errno::EINVAL);
    let (mem, path, argv) = window(&[b"/a/.."]);
    assert_eq!(parse_arguments(ENCLAVE, &mem, path, argv).unwrap_err().errno, Errno::EINVAL);
}

#[test]
fn non_utf8_argument_is_invalid() {
    let (mem, path, argv) = window(&[b"/bin/p", b"\xff\xfe"]);
    assert_eq!(parse_arguments(ENCLAVE, &mem, path, argv).unwrap_err().errno, Errno::EINVAL);
}

#[test]
fn path_inside_the_enclave_faults() {
    let (mem, _, argv) = window(&[b"/bin/p"]);
    assert_eq!(parse_arguments(ENCLAVE, &mem, 0x100_0010, argv).unwrap_err().errno, Errno::EFAULT);
}

#[test]
fn program_args_puts_the_name_first() {
    let r = program_args(Some(String::from("p")), vec![String::from("a")]).unwrap();
    assert_eq!(r, vec!["p", "a"]);
    assert_eq!(program_args(None, vec![]).unwrap_err().errno, Errno::EINVAL);
    assert_eq!(program_args(Some(String::new()), vec![]).unwrap_err().errno, Errno::EINVAL);
}

#[test]
fn null_string_array_is_empty() {
    let (mem, _, _) = window(&[b"x"]);
    assert!(from_user::clone_cstrings_safely(&mem, 0).unwrap().is_empty());
    assert!(from_untrusted::clone_cstrings_safely(ENCLAVE, &mem, 0).unwrap().is_empty());
}

#[test]
fn user_strings_are_copied_up_to_nul() {
    let (mem, s0, array) = window(&[b"hello", b"a", b"bc"]);
    assert_eq!(from_user::clone_cstring_safely(&mem, s0).unwrap(), "hello");
    assert_eq!(from_user::clone_cstrings_safely(&mem, array).unwrap(), vec!["a", "bc"]);
}

#[test]
fn unterminated_string_faults() {
    let mem = MemView { base: BASE, bytes: b"abc".to_vec() };
    assert_eq!(from_user::clone_cstring_safely(&mem, BASE).unwrap_err().errno, Errno::EFAULT);
    assert_eq!(from_user::clone_cstring_safely(&mem, BASE + 3).unwrap_err().errno, Errno::EFAULT);
    assert_eq!(from_user::clone_cstrings_safely(&mem, BASE).unwrap_err().errno, Errno::EFAULT);
}

#[test]
fn user_pointer_checks() {
    let mem = MemView { base: BASE, bytes: vec![0u8; 0x100] };
    assert!(from_user::check_ptr(&mem, BASE, 8).is_ok());
    assert!(from_user::check_mut_ptr(&mem, BASE + 0xf8, 8).is_ok());
    assert_eq!(from_user::check_ptr(&mem, BASE + 0xf9, 8).unwrap_err().errno, Errno::EFAULT);
    assert_eq!(from_user::check_ptr(&mem, BASE - 1, 1).unwrap_err().errno, Errno::EFAULT);
    assert!(from_user::check_array(&mem, BASE, 8, 32).is_ok());
    assert_eq!(from_user::check_mut_array(&mem, BASE, 8, 33).unwrap_err().errno, Errno::EFAULT);
    assert!(from_user::check_array(&mem, BASE + 0x200, 8, 0).is_ok());
    assert!(from_user::check_ptr(&mem, 0, 0).is_ok());
}

#[test]
fn untrusted_pointer_checks() {
    assert!(from_untrusted::check_ptr(ENCLAVE, 0x1000, 8).is_ok());
    assert!(from_untrusted::check_ptr(ENCLAVE, 0x100_0000 - 8, 8).is_ok());
    assert_eq!(from_untrusted::check_ptr(ENCLAVE, 0x100_0000 - 7, 8).unwrap_err().errno, Errno::EFAULT);
    assert_eq!(from_untrusted::check_ptr(ENCLAVE, 0x180_0000, 1).unwrap_err().errno, Errno::EFAULT);
    assert!(from_untrusted::check_ptr(ENCLAVE, 0x200_0000, 1).is_ok());
    assert!(from_untrusted::check_array(ENCLAVE, 0x1000, 8, 4).is_ok());
    assert_eq!(from_untrusted::check_array(ENCLAVE, 0xff_fff0, 8, 4).unwrap_err().errno, Errno::EFAULT);
}

#[test]
fn untrusted_range_wrapping_the_address_space_faults() {
    let enclave = (4096u64, 8192u64);
    assert_eq!(
        from_untrusted::check_array(enclave, 0xffff_ffff_ffff_fff8, 8, 4096).unwrap_err().errno,
        Errno::EFAULT
    );
    assert_eq!(from_untrusted::check_ptr(enclave, u64::MAX - 3, 8).unwrap_err().errno, Errno::EFAULT);
    assert!(from_untrusted::check_ptr(enclave, u64::MAX - 7, 7).is_ok());
    assert!(from_untrusted::check_array(enclave, 0, 8, 512).is_ok());
    assert_eq!(from_untrusted::check_array(enclave, 0, 8, 513).unwrap_err().errno, Errno::EFAULT);
}

#[test]
fn user_range_wrapping_the_address_space_faults() {
    let mem = MemView { base: u64::MAX - 15, bytes: vec![0u8; 8] };
    assert!(from_user::check_ptr(&mem, u64::MAX - 15, 8).is_ok());
    assert_eq!(from_user::check_array(&mem, u64::MAX - 15, 8, 2).unwrap_err().errno, Errno::EFAULT);
}

#[test]
fn empty_untrusted_ranges_pass() {
    assert!(from_untrusted::check_array(ENCLAVE, 0x180_0000, 8, 0).is_ok());
    assert!(from_untrusted::check_ptr(ENCLAVE, 0x180_0000, 0).is_ok());
    assert!(from_untrusted::check_array(ENCLAVE, u64::MAX, 0, 5).is_ok());
}

fn first_arg(path: &[u8]) -> Result<String, Errno> {
    let (mem, p, argv) = window(&[path]);
    parse_arguments(ENCLAVE, &mem, p, argv).map(|(_, a)| a[0].clone()).map_err(|e| e.errno)
}

#[test]
fn basename_follows_path_components() {
    assert_eq!(first_arg(b"/a/b/").unwrap(), "b");
    assert_eq!(first_arg(b"x/.").unwrap(), "x");
    assert_eq!(first_arg(b"a/../b").unwrap(), "b");
    assert_eq!(first_arg(b"prog").unwrap(), "prog");
    assert_eq!(first_arg(b"a//b//").unwrap(), "b");
    assert_eq!(first_arg(b".").unwrap_err(), Errno::EINVAL);
    assert_eq!(first_arg(b"//").unwrap_err(), Errno::EINVAL);
    assert_eq!(first_arg(b"./").unwrap_err(), Errno::EINVAL);
}
