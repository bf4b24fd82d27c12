//! The numbers of the kernel interface, as the C library's headers give them.

use vstd::prelude::*;

verus! {

/// `libc::SIGTERM`, which asks a process to end: signal 15.
#[verifier::external_body]
pub(crate) fn sigterm() -> (r: i32)
    ensures
        r == 15,
{
    libc::SIGTERM
}

/// `libc::SIGKILL`, which ends a process at once: signal 9.
#[verifier::external_body]
pub(crate) fn sigkill() -> (r: i32)
    ensures
        r == 9,
{
    libc::SIGKILL
}

/// `libc::EINVAL`, the error of a call with an invalid argument: number 22.
#[verifier::external_body]
pub(crate) fn einval() -> (r: i32)
    ensures
        r == 22,
{
    libc::EINVAL
}

/// `libc::EPERM`, the error of a call that is not permitted: number 1.
#[verifier::external_body]
pub(crate) fn eperm() -> (r: i32)
    ensures
        r == 1,
{
    libc::EPERM
}

/// `libc::NFPROTO_IPV4`, the packet filter's number of IPv4: 2.
#[verifier::external_body]
pub(crate) fn nfproto_ipv4() -> (r: u8)
    ensures
        r == 2,
{
    libc::NFPROTO_IPV4 as u8
}

/// `libc::NFPROTO_IPV6`, the packet filter's number of IPv6: 10.
#[verifier::external_body]
pub(crate) fn nfproto_ipv6() -> (r: u8)
    ensures
        r == 10,
{
    libc::NFPROTO_IPV6 as u8
}

} // verus!
