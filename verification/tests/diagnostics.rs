use localbind::diag::{
    check_userns_clone, check_userns_restrict, check_mac_label, check_seccomp, ProbeErr,
    ReadOutcome, Verdict,
};
use localbind::text::contains_bytes;
use localbind::command::effective_command;

fn content(bytes: &[u8]) -> ReadOutcome {
    ReadOutcome::Content(bytes.to_vec())
}

#[test]
fn good_configuration_is_all_okay() {
    assert_eq!(check_userns_clone(&content(b"1\n")), Verdict::Okay);
    assert_eq!(check_userns_restrict(&content(b"0\n")), Verdict::Okay);
    assert_eq!(check_mac_label(&content(b"unconfined\n")), Verdict::Okay);
}

#[test]
fn disabled_userns_clone_is_a_problem() {
    assert_eq!(check_userns_clone(&content(b"0\n")), Verdict::Problem);
}

#[test]
fn userns_clone_absent_is_okay() {
    assert_eq!(check_userns_clone(&ReadOutcome::Missing), Verdict::Okay);
}

#[test]
fn userns_clone_unreadable_is_unknown() {
    assert_eq!(check_userns_clone(&ReadOutcome::ReadFailed), Verdict::Unknown);
}

#[test]
fn userns_clone_needs_exact_content() {
    assert_eq!(check_userns_clone(&content(b"1")), Verdict::Problem);
    assert_eq!(check_userns_clone(&content(b"1\n\n")), Verdict::Problem);
}

#[test]
fn restricted_userns_is_a_problem() {
    assert_eq!(check_userns_restrict(&content(b"1\n")), Verdict::Problem);
}

#[test]
fn userns_restrict_absent_is_okay() {
    assert_eq!(check_userns_restrict(&ReadOutcome::Missing), Verdict::Okay);
}

#[test]
fn own_mac_profile_is_okay() {
    assert_eq!(check_mac_label(&content(b"localbind (enforce)\n")), Verdict::Okay);
}

#[test]
fn stock_mac_profile_is_a_problem() {
    assert_eq!(check_mac_label(&content(b"docker-default (enforce)\n")), Verdict::Problem);
}

#[test]
fn own_mac_profile_wins_over_stock_marker() {
    assert_eq!(
        check_mac_label(&content(b"localbind-over-docker-default\n")),
        Verdict::Okay
    );
}

#[test]
fn unrecognized_mac_label_is_unknown() {
    assert_eq!(check_mac_label(&content(b"system_u:system_r:init_t:s0\n")), Verdict::Unknown);
}

#[test]
fn absent_mac_label_is_probably_okay() {
    assert_eq!(check_mac_label(&ReadOutcome::Missing), Verdict::ProbablyOkay);
}

#[test]
fn unreadable_mac_label_is_unknown() {
    assert_eq!(check_mac_label(&ReadOutcome::ReadFailed), Verdict::Unknown);
}

#[test]
fn seccomp_decision_table() {
    assert_eq!(
        check_seccomp(ProbeErr::PermissionDenied, ProbeErr::PermissionDenied),
        Verdict::Problem
    );
    assert_eq!(check_seccomp(ProbeErr::PermissionDenied, ProbeErr::NotFound), Verdict::Okay);
    assert_eq!(check_seccomp(ProbeErr::InvalidArgument, ProbeErr::NotFound), Verdict::Okay);
    assert_eq!(check_seccomp(ProbeErr::Other, ProbeErr::NotFound), Verdict::Unknown);
    assert_eq!(
        check_seccomp(ProbeErr::PermissionDenied, ProbeErr::InvalidArgument),
        Verdict::Unknown
    );
    assert_eq!(check_seccomp(ProbeErr::NotFound, ProbeErr::NotFound), Verdict::Unknown);
}

#[test]
fn substring_search() {
    assert!(contains_bytes(&b"abc docker-default xyz".to_vec(), &b"docker-default".to_vec()));
    assert!(!contains_bytes(&b"docker-defaul".to_vec(), &b"docker-default".to_vec()));
    assert!(contains_bytes(&b"anything".to_vec(), &b"".to_vec()));
}

#[test]
fn empty_command_defaults_to_shell() {
    let r = effective_command(Vec::new());
    assert_eq!(r, vec![b"/bin/bash".to_vec()]);
}

#[test]
fn supplied_command_is_kept() {
    let cmd = vec![b"echo".to_vec(), b"hi".to_vec()];
    let r = effective_command(cmd.clone());
    assert_eq!(r, cmd);
}
