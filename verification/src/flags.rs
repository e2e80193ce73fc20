//! Whitelisted flag bitmasks for the two privileged syscalls the tool makes.
//!
//! The syscall filter policy shipped with the tool whitelists exactly one
//! flag combination for namespace creation and one for the recursive bind
//! mount. The policy file and the flag constants used by the code are
//! maintained by hand in two separate artifacts, so the tool checks at run
//! time that the bits it is about to pass match the whitelisted values, and
//! refuses to proceed on a mismatch rather than run into a confusing
//! permission error later.

use vstd::prelude::*;

verus! {

/// Bit pattern of the flag pair that atomically creates a new user namespace
/// and a new mount namespace. Must stay in sync with the syscall filter
/// policy shipped beside the tool.
pub const UNSHARE_FLAGS_WHITELIST: u64 = 268566528;

/// Bit pattern of the recursive bind-mount flag pair. Must stay in sync with
/// the syscall filter policy shipped beside the tool.
pub const BIND_MOUNT_FLAGS_WHITELIST: u64 = 20480;

/// A flag bit pattern diverged from the whitelisted value.
#[derive(Clone, Copy, PartialEq, Eq, Structural, Debug)]
pub struct FlagMismatch {
    /// The bits the flag library produced.
    pub got: u64,
    /// The whitelisted bits the tool expected.
    pub expected: u64,
}

/// Relies on nix::sched::CloneFlags: returns the bit pattern of
/// CLONE_NEWUSER | CLONE_NEWNS. nix takes both constants from libc, which
/// fixes them at 0x10000000 and 0x00020000: together 268566528.
#[verifier::external_body]
fn nix_unshare_flag_bits() -> (r: u64)
    ensures
        r == 268566528,
{
    (nix::sched::CloneFlags::CLONE_NEWUSER | nix::sched::CloneFlags::CLONE_NEWNS).bits() as u64
}

/// Relies on nix::mount::MsFlags: returns the bit pattern of
/// MS_BIND | MS_REC. nix takes both constants from libc, which fixes them
/// at 0x1000 and 0x4000: together 20480.
#[verifier::external_body]
fn nix_bind_mount_flag_bits() -> (r: u64)
    ensures
        r == 20480,
{
    (nix::mount::MsFlags::MS_BIND | nix::mount::MsFlags::MS_REC).bits() as u64
}

/// Accepts a flag bit pattern exactly when it equals the expected
/// whitelisted value; otherwise reports both values.
pub fn validate_flag_bits(bits: u64, expected: u64) -> (r: Result<u64, FlagMismatch>)
    ensures
        r is Ok <==> bits == expected,
        r matches Ok(b) ==> b == bits,
        r matches Err(m) ==> m.got == bits && m.expected == expected,
{
    if bits == expected {
        Ok(bits)
    } else {
        Err(FlagMismatch { got: bits, expected })
    }
}

/// Fetches the namespace-creation flag bits from the flag library and checks
/// them against the whitelisted value at run time. With the flag library as
/// its locked source defines it, the check succeeds and the returned bits
/// are exactly the whitelisted ones, safe to hand to the namespace syscall
/// under the shipped filter policy.
pub fn checked_unshare_flags() -> (r: Result<u64, FlagMismatch>)
    ensures
        r == Ok::<u64, FlagMismatch>(UNSHARE_FLAGS_WHITELIST),
{
    let bits = nix_unshare_flag_bits();
    validate_flag_bits(bits, UNSHARE_FLAGS_WHITELIST)
}

/// Fetches the recursive bind-mount flag bits from the flag library and
/// checks them against the whitelisted value at run time. With the flag
/// library as its locked source defines it, the check succeeds and the
/// returned bits are exactly the whitelisted ones.
pub fn checked_bind_mount_flags() -> (r: Result<u64, FlagMismatch>)
    ensures
        r == Ok::<u64, FlagMismatch>(BIND_MOUNT_FLAGS_WHITELIST),
{
    let bits = nix_bind_mount_flag_bits();
    validate_flag_bits(bits, BIND_MOUNT_FLAGS_WHITELIST)
}

} // verus!
