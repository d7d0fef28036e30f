use vstd::prelude::*;

verus! {

/// The error numbers that the library reports.
#[derive(Clone, Copy, Debug, PartialEq, Eq, Structural)]
pub enum Errno {
    EFAULT,
    EINVAL,
    ENOENT,
    ENOEXEC,
    EBADF,
    EIO,
    ENOMEM,
}

/// An error: an error number with a short explanation.
#[derive(Clone, Copy, Debug)]
pub struct Error {
    pub errno: Errno,
    pub msg: &'static str,
}

impl Error {
    pub fn new(errno: Errno, msg: &'static str) -> (r: Error)
        ensures
            r.errno == errno,
    {
        Error { errno, msg }
    }
}

/// Whether `r` is an error carrying `e`.
pub open spec fn fails_with<T>(r: Result<T, Error>, e: Errno) -> bool {
    r is Err && r->Err_0.errno == e
}

} // verus!
