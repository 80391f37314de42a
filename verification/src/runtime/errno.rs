//! Error numbers and socket constants of the platform.
//!
//! The values are those of Linux with the generic error numbering (x86, Arm, RISC-V). Contracts speak of the constants
//! of this module; executable code reads the numbers from `libc`, through one function for each constant.

use vstd::prelude::*;

verus! {

/// Input/output error.
pub const EIO: i32 = 5;

/// Bad file descriptor.
pub const EBADF: i32 = 9;

/// Resource temporarily unavailable.
pub const EAGAIN: i32 = 11;

/// Invalid argument.
pub const EINVAL: i32 = 22;

/// Bad message.
pub const EBADMSG: i32 = 74;

/// Operation not supported.
pub const ENOTSUP: i32 = 95;

/// Connection reset by peer.
pub const ECONNRESET: i32 = 104;

/// Transport endpoint is not connected.
pub const ENOTCONN: i32 = 107;

/// Connection timed out.
pub const ETIMEDOUT: i32 = 110;

/// Operation canceled.
pub const ECANCELED: i32 = 125;

/// Address family of IPv4 sockets.
pub const AF_INET: i32 = 2;

/// Socket type of byte streams.
pub const SOCK_STREAM: i32 = 1;

/// Reads the constant `libc::EIO`, whose value on Linux is [`EIO`].
#[verifier::external_body]
pub(crate) fn eio() -> (value: i32)
    ensures
        value == EIO,
{
    libc::EIO
}

/// Reads the constant `libc::EBADF`, whose value on Linux is [`EBADF`].
#[verifier::external_body]
pub(crate) fn ebadf() -> (value: i32)
    ensures
        value == EBADF,
{
    libc::EBADF
}

/// Reads the constant `libc::EAGAIN`, whose value on Linux is [`EAGAIN`].
#[verifier::external_body]
pub(crate) fn eagain() -> (value: i32)
    ensures
        value == EAGAIN,
{
    libc::EAGAIN
}

/// Reads the constant `libc::EINVAL`, whose value on Linux is [`EINVAL`].
#[verifier::external_body]
pub(crate) fn einval() -> (value: i32)
    ensures
        value == EINVAL,
{
    libc::EINVAL
}

/// Reads the constant `libc::EBADMSG`, whose value on Linux is [`EBADMSG`].
#[verifier::external_body]
pub(crate) fn ebadmsg() -> (value: i32)
    ensures
        value == EBADMSG,
{
    libc::EBADMSG
}

/// Reads the constant `libc::ENOTSUP`, whose value on Linux is [`ENOTSUP`].
#[verifier::external_body]
pub(crate) fn enotsup() -> (value: i32)
    ensures
        value == ENOTSUP,
{
    libc::ENOTSUP
}

/// Reads the constant `libc::ECONNRESET`, whose value on Linux is [`ECONNRESET`].
#[verifier::external_body]
pub(crate) fn econnreset() -> (value: i32)
    ensures
        value == ECONNRESET,
{
    libc::ECONNRESET
}

/// Reads the constant `libc::ENOTCONN`, whose value on Linux is [`ENOTCONN`].
#[verifier::external_body]
pub(crate) fn enotconn() -> (value: i32)
    ensures
        value == ENOTCONN,
{
    libc::ENOTCONN
}

/// Reads the constant `libc::ETIMEDOUT`, whose value on Linux is [`ETIMEDOUT`].
#[verifier::external_body]
pub(crate) fn etimedout() -> (value: i32)
    ensures
        value == ETIMEDOUT,
{
    libc::ETIMEDOUT
}

/// Reads the constant `libc::ECANCELED`, whose value on Linux is [`ECANCELED`].
#[verifier::external_body]
pub(crate) fn ecanceled() -> (value: i32)
    ensures
        value == ECANCELED,
{
    libc::ECANCELED
}

/// Reads the constant `libc::AF_INET`, whose value on Linux is [`AF_INET`].
#[verifier::external_body]
pub(crate) fn af_inet() -> (value: i32)
    ensures
        value == AF_INET,
{
    libc::AF_INET
}

/// Reads the constant `libc::SOCK_STREAM`, whose value on Linux is [`SOCK_STREAM`].
#[verifier::external_body]
pub(crate) fn sock_stream() -> (value: i32)
    ensures
        value == SOCK_STREAM,
{
    libc::SOCK_STREAM
}

} // verus!
