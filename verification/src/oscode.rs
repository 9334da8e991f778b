//! The operating system's error codes that the error taxonomy speaks of, with
//! the numbers that Linux on x86-64 gives them, their classification, and the
//! step from a system call's outcome to the plain values that the state
//! machines take.

use vstd::prelude::*;
use syscalls::Errno;

verus! {

/// The error type of the `syscalls` crate, carried through as it is.
#[verifier::external_type_specification]
#[verifier::external_body]
pub struct ExErrno(Errno);

/// The raw number of an error of the `syscalls` crate: the number it was made
/// from.
pub uninterp spec fn errno_code(errno: Errno) -> i32;

/// Calls `Errno::into_raw`, which hands out the number that the error holds.
/// The contract only gives that number its name.
#[verifier::external_body]
fn into_raw(errno: Errno) -> (code: i32)
    ensures
        code == errno_code(errno),
{
    errno.into_raw()
}

/// The outcome of a system call with its error, if any, as the raw code.
pub fn raw_outcome(outcome: Result<usize, Errno>) -> (raw: Result<usize, i32>)
    ensures
        raw == match outcome {
            Ok(value) => Ok::<usize, i32>(value),
            Err(errno) => Err::<usize, i32>(errno_code(errno)),
        },
{
    match outcome {
        Ok(value) => Ok(value),
        Err(errno) => Err(into_raw(errno)),
    }
}

/// Operation not permitted.
pub const EPERM: i32 = 1;
/// Input/output error.
pub const EIO: i32 = 5;
/// Bad file descriptor.
pub const EBADF: i32 = 9;
/// The operation would block (also known as "try again").
pub const EAGAIN: i32 = 11;
/// Bad address.
pub const EFAULT: i32 = 14;
/// The descriptor names a directory.
pub const EISDIR: i32 = 21;
/// Invalid argument.
pub const EINVAL: i32 = 22;
/// File too large.
pub const EFBIG: i32 = 27;
/// No space left on the device.
pub const ENOSPC: i32 = 28;
/// Broken pipe.
pub const EPIPE: i32 = 32;
/// The descriptor is not a socket.
pub const ENOTSOCK: i32 = 88;
/// A destination address is required.
pub const EDESTADDRREQ: i32 = 89;
/// The operation is not supported on this socket.
pub const EOPNOTSUPP: i32 = 95;
/// Disk quota exceeded.
pub const EDQUOT: i32 = 122;

/// The codes after which reading from a descriptor can never succeed again.
pub open spec fn read_code_is_fatal(code: i32) -> bool {
    code == EBADF || code == EFAULT || code == EINVAL || code == EIO || code == EISDIR
}

/// The codes after which writing to a descriptor can never succeed again.
pub open spec fn write_code_is_fatal(code: i32) -> bool {
    code == EBADF || code == EDESTADDRREQ || code == EDQUOT || code == EFAULT || code == EFBIG
        || code == EINVAL || code == EIO || code == ENOSPC || code == EPERM || code == EPIPE
}

/// The codes that show the listening socket itself to be broken.
pub open spec fn accept_code_is_fatal(code: i32) -> bool {
    code == EBADF || code == EFAULT || code == EINVAL || code == ENOTSOCK || code == EOPNOTSUPP
}

/// Whether `code` says that a non-blocking call had nothing to do right now.
pub open spec fn code_is_would_block(code: i32) -> bool {
    code == EAGAIN
}

/// Reads `libc::EPERM`. Its number is taken on trust to be that of `EPERM`
/// here, as libc gives it for Linux on x86-64.
#[verifier::external_body]
fn operation_not_permitted() -> (code: i32)
    ensures
        code == EPERM,
{
    libc::EPERM
}

/// Reads `libc::EIO`. Its number is taken on trust to be that of `EIO`
/// here, as libc gives it for Linux on x86-64.
#[verifier::external_body]
fn input_output_error() -> (code: i32)
    ensures
        code == EIO,
{
    libc::EIO
}

/// Reads `libc::EBADF`. Its number is taken on trust to be that of `EBADF`
/// here, as libc gives it for Linux on x86-64.
#[verifier::external_body]
fn bad_descriptor() -> (code: i32)
    ensures
        code == EBADF,
{
    libc::EBADF
}

/// Reads `libc::EAGAIN`. Its number is taken on trust to be that of `EAGAIN`
/// here, as libc gives it for Linux on x86-64.
#[verifier::external_body]
fn would_block() -> (code: i32)
    ensures
        code == EAGAIN,
{
    libc::EAGAIN
}

/// Reads `libc::EFAULT`. Its number is taken on trust to be that of `EFAULT`
/// here, as libc gives it for Linux on x86-64.
#[verifier::external_body]
fn bad_address() -> (code: i32)
    ensures
        code == EFAULT,
{
    libc::EFAULT
}

/// Reads `libc::EISDIR`. Its number is taken on trust to be that of `EISDIR`
/// here, as libc gives it for Linux on x86-64.
#[verifier::external_body]
fn is_a_directory() -> (code: i32)
    ensures
        code == EISDIR,
{
    libc::EISDIR
}

/// Reads `libc::EINVAL`. Its number is taken on trust to be that of `EINVAL`
/// here, as libc gives it for Linux on x86-64.
#[verifier::external_body]
fn invalid_argument() -> (code: i32)
    ensures
        code == EINVAL,
{
    libc::EINVAL
}

/// Reads `libc::EFBIG`. Its number is taken on trust to be that of `EFBIG`
/// here, as libc gives it for Linux on x86-64.
#[verifier::external_body]
fn file_too_large() -> (code: i32)
    ensures
        code == EFBIG,
{
    libc::EFBIG
}

/// Reads `libc::ENOSPC`. Its number is taken on trust to be that of `ENOSPC`
/// here, as libc gives it for Linux on x86-64.
#[verifier::external_body]
fn no_space() -> (code: i32)
    ensures
        code == ENOSPC,
{
    libc::ENOSPC
}

/// Reads `libc::EPIPE`. Its number is taken on trust to be that of `EPIPE`
/// here, as libc gives it for Linux on x86-64.
#[verifier::external_body]
fn broken_pipe() -> (code: i32)
    ensures
        code == EPIPE,
{
    libc::EPIPE
}

/// Reads `libc::ENOTSOCK`. Its number is taken on trust to be that of `ENOTSOCK`
/// here, as libc gives it for Linux on x86-64.
#[verifier::external_body]
fn not_a_socket() -> (code: i32)
    ensures
        code == ENOTSOCK,
{
    libc::ENOTSOCK
}

/// Reads `libc::EDESTADDRREQ`. Its number is taken on trust to be that of `EDESTADDRREQ`
/// here, as libc gives it for Linux on x86-64.
#[verifier::external_body]
fn destination_address_required() -> (code: i32)
    ensures
        code == EDESTADDRREQ,
{
    libc::EDESTADDRREQ
}

/// Reads `libc::EOPNOTSUPP`. Its number is taken on trust to be that of `EOPNOTSUPP`
/// here, as libc gives it for Linux on x86-64.
#[verifier::external_body]
fn operation_not_supported() -> (code: i32)
    ensures
        code == EOPNOTSUPP,
{
    libc::EOPNOTSUPP
}

/// Reads `libc::EDQUOT`. Its number is taken on trust to be that of `EDQUOT`
/// here, as libc gives it for Linux on x86-64.
#[verifier::external_body]
fn quota_exceeded() -> (code: i32)
    ensures
        code == EDQUOT,
{
    libc::EDQUOT
}

/// Whether reading can never succeed again after a failure with `code`.
pub fn is_fatal_read_code(code: i32) -> (fatal: bool)
    ensures
        fatal == read_code_is_fatal(code),
{
    code == bad_descriptor() || code == bad_address() || code == invalid_argument() || code
        == input_output_error() || code == is_a_directory()
}

/// Whether writing can never succeed again after a failure with `code`.
pub fn is_fatal_write_code(code: i32) -> (fatal: bool)
    ensures
        fatal == write_code_is_fatal(code),
{
    code == bad_descriptor() || code == destination_address_required() || code
        == quota_exceeded() || code == bad_address() || code == file_too_large() || code
        == invalid_argument() || code == input_output_error() || code == no_space() || code
        == operation_not_permitted() || code == broken_pipe()
}

/// Whether a failure to accept with `code` shows the listening socket to be
/// broken.
pub fn is_fatal_accept_code(code: i32) -> (fatal: bool)
    ensures
        fatal == accept_code_is_fatal(code),
{
    code == bad_descriptor() || code == bad_address() || code == invalid_argument() || code
        == not_a_socket() || code == operation_not_supported()
}

/// Whether `code` says that a non-blocking call had nothing to do right now.
pub fn is_would_block_code(code: i32) -> (blocked: bool)
    ensures
        blocked == code_is_would_block(code),
{
    code == would_block()
}

} // verus!
