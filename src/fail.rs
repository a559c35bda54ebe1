use vstd::prelude::*;

verus! {

/// The POSIX code for an operation that is not supported.
pub open spec fn code_enotsup() -> i32 {
    95
}

/// The POSIX code for an address that is already in use.
pub open spec fn code_eaddrinuse() -> i32 {
    98
}

/// The POSIX code for a descriptor that does not name a live queue.
pub open spec fn code_ebadf() -> i32 {
    9
}

/// The POSIX code for an argument outside its contractual range.
pub open spec fn code_einval() -> i32 {
    22
}

/// The POSIX code for a resource that is temporarily unavailable.
pub open spec fn code_eagain() -> i32 {
    11
}

/// Relies on libc::ENOTSUP, which libc defines as EOPNOTSUPP: 95 on x86_64
/// Linux with glibc (other targets, such as MIPS, SPARC or Apple, differ).
#[verifier::external_body]
pub(crate) fn enotsup() -> (r: i32)
    ensures
        r == code_enotsup(),
{
    libc::ENOTSUP
}

/// Relies on libc::EADDRINUSE: 98 on x86_64 Linux with glibc (other targets,
/// such as MIPS, SPARC or Apple, may differ).
#[verifier::external_body]
pub(crate) fn eaddrinuse() -> (r: i32)
    ensures
        r == code_eaddrinuse(),
{
    libc::EADDRINUSE
}

/// Relies on libc::EBADF: 9 on x86_64 Linux with glibc (other targets,
/// such as MIPS, SPARC or Apple, may differ).
#[verifier::external_body]
pub(crate) fn ebadf() -> (r: i32)
    ensures
        r == code_ebadf(),
{
    libc::EBADF
}

/// Relies on libc::EINVAL: 22 on x86_64 Linux with glibc (other targets,
/// such as MIPS, SPARC or Apple, may differ).
#[verifier::external_body]
pub(crate) fn einval() -> (r: i32)
    ensures
        r == code_einval(),
{
    libc::EINVAL
}

/// Relies on libc::EAGAIN: 11 on x86_64 Linux with glibc (other targets,
/// such as MIPS, SPARC or Apple, may differ).
#[verifier::external_body]
pub(crate) fn eagain() -> (r: i32)
    ensures
        r == code_eagain(),
{
    libc::EAGAIN
}

/// A failure: a POSIX-style error number and a human-readable cause.
#[derive(Clone, Debug)]
pub struct Fail {
    pub errno: i32,
    pub cause: String,
}

impl Fail {
    /// Builds a failure with the given error number and cause.
    pub fn new(errno: i32, cause: &str) -> (r: Fail)
        ensures
            r.errno == errno,
            r.cause@ == cause@,
    {
        Fail { errno, cause: String::from_str(cause) }
    }
}

} // verus!
