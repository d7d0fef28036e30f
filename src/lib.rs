//! Process bring-up substrate of a small library OS: boundary checks on
//! untrusted memory, the sealed-file storage rules, the process memory
//! layout, relocation and syscall linking, the initial stack with its
//! auxiliary vector, file-descriptor tables, the process table and the
//! spawn pipeline that composes them.
pub mod entry;
pub mod errno;
pub mod file_table;
pub mod mem_util;
pub mod prelude;
pub mod process_table;
pub mod sgx_storage;
pub mod spawn;
pub mod uname;
pub mod vm;

