//! Classification rules of the configuration diagnostics.
//!
//! The diagnostics read two sysctl values and the process's
//! mandatory-access-control label, and issue two deliberately invalid
//! mount calls to see which kernel check rejects them. The reads and the
//! probe calls are made by the surrounding binary; the functions here turn
//! their outcomes — file content, a missing file, or an error code — into
//! verdicts.

use vstd::prelude::*;
use crate::text::{contains_seq, contains_bytes};

verus! {

/// The verdict a diagnostic check reports for one dimension of the host
/// configuration. Purely informational: it never steers the main path.
#[derive(Clone, Copy, PartialEq, Eq, Structural, Debug)]
pub enum Verdict {
    /// The dimension looks right for the tool.
    Okay,
    /// The dimension will prevent the tool from working.
    Problem,
    /// The check could not tell.
    Unknown,
    /// Nothing suspicious was found, but the check cannot be sure.
    ProbablyOkay,
}

/// The outcome of reading one kernel pseudo-file, as handed in by the
/// caller that did the read.
pub enum ReadOutcome {
    /// The file was read; its full content.
    Content(Vec<u8>),
    /// The file does not exist.
    Missing,
    /// The read failed for another reason.
    ReadFailed,
}

/// The error class of a failed probe syscall, as handed in by the caller
/// that made the call.
#[derive(Clone, Copy, PartialEq, Eq, Structural, Debug)]
pub enum ProbeErr {
    /// The call was denied.
    PermissionDenied,
    /// A path the call named does not exist.
    NotFound,
    /// The kernel rejected the call's arguments.
    InvalidArgument,
    /// Any other error class.
    Other,
}

/// The content "1\n".
pub open spec fn one_line() -> Seq<u8> {
    seq![49u8, 10u8]
}

/// The content "0\n".
pub open spec fn zero_line() -> Seq<u8> {
    seq![48u8, 10u8]
}

/// The label "unconfined\n".
pub open spec fn unconfined_label() -> Seq<u8> {
    seq![117u8, 110u8, 99u8, 111u8, 110u8, 102u8, 105u8, 110u8, 101u8, 100u8, 10u8]
}

/// The marker "localbind", the name of the tool's own
/// mandatory-access-control profile.
pub open spec fn own_profile_marker() -> Seq<u8> {
    seq![108u8, 111u8, 99u8, 97u8, 108u8, 98u8, 105u8, 110u8, 100u8]
}

/// The marker "docker-default", the container runtime's stock profile,
/// which blocks the tool.
pub open spec fn stock_profile_marker() -> Seq<u8> {
    seq![
        100u8,
        111u8,
        99u8,
        107u8,
        101u8,
        114u8,
        45u8,
        100u8,
        101u8,
        102u8,
        97u8,
        117u8,
        108u8,
        116u8,
    ]
}

/// Verdict on the sysctl that must permit unprivileged namespace creation:
/// right exactly when its value is "1\n"; fine when the control is absent;
/// unreadable otherwise.
pub open spec fn spec_userns_clone_verdict(r: ReadOutcome) -> Verdict {
    match r {
        ReadOutcome::Content(s) => if s@ == one_line() {
            Verdict::Okay
        } else {
            Verdict::Problem
        },
        ReadOutcome::Missing => Verdict::Okay,
        ReadOutcome::ReadFailed => Verdict::Unknown,
    }
}

/// Classifies the read of the sysctl permitting unprivileged namespace
/// creation.
pub fn check_userns_clone(r: &ReadOutcome) -> (v: Verdict)
    ensures
        v == spec_userns_clone_verdict(*r),
{
    match r {
        ReadOutcome::Content(s) => {
            if s.len() == 2 && s[0] == 49 && s[1] == 10 {
                proof {
                    assert(s@ =~= one_line());
                }
                Verdict::Okay
            } else {
                proof {
                    if s@ == one_line() {
                        assert(s@.len() == 2 && s@[0] == 49 && s@[1] == 10);
                    }
                }
                Verdict::Problem
            }
        },
        ReadOutcome::Missing => Verdict::Okay,
        ReadOutcome::ReadFailed => Verdict::Unknown,
    }
}

/// Verdict on the sysctl that must not restrict user namespaces: right
/// exactly when its value is "0\n"; fine when the control is absent;
/// unreadable otherwise.
pub open spec fn spec_userns_restrict_verdict(r: ReadOutcome) -> Verdict {
    match r {
        ReadOutcome::Content(s) => if s@ == zero_line() {
            Verdict::Okay
        } else {
            Verdict::Problem
        },
        ReadOutcome::Missing => Verdict::Okay,
        ReadOutcome::ReadFailed => Verdict::Unknown,
    }
}

/// Classifies the read of the sysctl restricting user namespaces.
pub fn check_userns_restrict(r: &ReadOutcome) -> (v: Verdict)
    ensures
        v == spec_userns_restrict_verdict(*r),
{
    match r {
        ReadOutcome::Content(s) => {
            if s.len() == 2 && s[0] == 48 && s[1] == 10 {
                proof {
                    assert(s@ =~= zero_line());
                }
                Verdict::Okay
            } else {
                proof {
                    if s@ == zero_line() {
                        assert(s@.len() == 2 && s@[0] == 48 && s@[1] == 10);
                    }
                }
                Verdict::Problem
            }
        },
        ReadOutcome::Missing => Verdict::Okay,
        ReadOutcome::ReadFailed => Verdict::Unknown,
    }
}

/// Verdict on the process's mandatory-access-control label: fine when
/// exactly unconfined or when the tool's own profile name occurs in it; a
/// problem when the container runtime's stock profile name occurs in it;
/// unrecognized otherwise. An absent label file means no such module is
/// active, which is probably fine.
pub open spec fn spec_mac_label_verdict(r: ReadOutcome) -> Verdict {
    match r {
        ReadOutcome::Content(s) => if s@ == unconfined_label() {
            Verdict::Okay
        } else if contains_seq(s@, own_profile_marker()) {
            Verdict::Okay
        } else if contains_seq(s@, stock_profile_marker()) {
            Verdict::Problem
        } else {
            Verdict::Unknown
        },
        ReadOutcome::Missing => Verdict::ProbablyOkay,
        ReadOutcome::ReadFailed => Verdict::Unknown,
    }
}

fn unconfined_label_bytes() -> (r: Vec<u8>)
    ensures
        r@ == unconfined_label(),
{
    let mut r: Vec<u8> = Vec::new();
    r.push(117);
    r.push(110);
    r.push(99);
    r.push(111);
    r.push(110);
    r.push(102);
    r.push(105);
    r.push(110);
    r.push(101);
    r.push(100);
    r.push(10);
    proof {
        assert(r@ =~= unconfined_label());
    }
    r
}

fn own_profile_marker_bytes() -> (r: Vec<u8>)
    ensures
        r@ == own_profile_marker(),
{
    let mut r: Vec<u8> = Vec::new();
    r.push(108);
    r.push(111);
    r.push(99);
    r.push(97);
    r.push(108);
    r.push(98);
    r.push(105);
    r.push(110);
    r.push(100);
    proof {
        assert(r@ =~= own_profile_marker());
    }
    r
}

fn stock_profile_marker_bytes() -> (r: Vec<u8>)
    ensures
        r@ == stock_profile_marker(),
{
    let mut r: Vec<u8> = Vec::new();
    r.push(100);
    r.push(111);
    r.push(99);
    r.push(107);
    r.push(101);
    r.push(114);
    r.push(45);
    r.push(100);
    r.push(101);
    r.push(102);
    r.push(97);
    r.push(117);
    r.push(108);
    r.push(116);
    proof {
        assert(r@ =~= stock_profile_marker());
    }
    r
}

fn bytes_equal(a: &Vec<u8>, b: &Vec<u8>) -> (r: bool)
    ensures
        r == (a@ == b@),
{
    let n = a.len();
    if n != b.len() {
        return false;
    }
    let mut k: usize = 0;
    while k < n
        invariant
            k <= n,
            n == a@.len(),
            n == b@.len(),
            forall|i: int| 0 <= i < k ==> a@[i] == b@[i],
        decreases n - k,
    {
        if a[k] != b[k] {
            return false;
        }
        k += 1;
    }
    proof {
        assert(a@ =~= b@);
    }
    true
}

/// Classifies the read of the process's mandatory-access-control label.
pub fn check_mac_label(r: &ReadOutcome) -> (v: Verdict)
    ensures
        v == spec_mac_label_verdict(*r),
{
    match r {
        ReadOutcome::Content(s) => {
            let unconfined = unconfined_label_bytes();
            if bytes_equal(s, &unconfined) {
                return Verdict::Okay;
            }
            let own = own_profile_marker_bytes();
            if contains_bytes(s, &own) {
                return Verdict::Okay;
            }
            let stock = stock_profile_marker_bytes();
            if contains_bytes(s, &stock) {
                return Verdict::Problem;
            }
            Verdict::Unknown
        },
        ReadOutcome::Missing => Verdict::ProbablyOkay,
        ReadOutcome::ReadFailed => Verdict::Unknown,
    }
}

/// Verdict of the dual mount probe. The kernel validates flag syntax
/// before path existence and both before permissions, so the pair of error
/// classes shows whether a syscall filter intercepted the calls before the
/// kernel's own checks ran: denial of both probes means a filter is likely
/// blocking mount outright; denial of the bad-flag probe with the bad-path
/// probe failing on the path is how the tool's own filter profile behaves;
/// a flag-syntax rejection with a path failure suggests no filter at all;
/// any other pair is unrecognized.
pub open spec fn spec_seccomp_verdict(bad_flags: ProbeErr, bad_path: ProbeErr) -> Verdict {
    if bad_flags == ProbeErr::PermissionDenied && bad_path == ProbeErr::PermissionDenied {
        Verdict::Problem
    } else if bad_flags == ProbeErr::PermissionDenied && bad_path == ProbeErr::NotFound {
        Verdict::Okay
    } else if bad_flags == ProbeErr::InvalidArgument && bad_path == ProbeErr::NotFound {
        Verdict::Okay
    } else {
        Verdict::Unknown
    }
}

/// Classifies the pair of error classes returned by the two intentionally
/// invalid mount probes: the first with an always-rejected flag
/// combination, the second with valid flags on a nonexistent path.
pub fn check_seccomp(bad_flags: ProbeErr, bad_path: ProbeErr) -> (v: Verdict)
    ensures
        v == spec_seccomp_verdict(bad_flags, bad_path),
{
    match (bad_flags, bad_path) {
        (ProbeErr::PermissionDenied, ProbeErr::PermissionDenied) => Verdict::Problem,
        (ProbeErr::PermissionDenied, ProbeErr::NotFound) => Verdict::Okay,
        (ProbeErr::InvalidArgument, ProbeErr::NotFound) => Verdict::Okay,
        _ => Verdict::Unknown,
    }
}

} // verus!
