use localbind::mapping::{
    identity_map_line, is_single_identity_map, parse_map_entries, setgroups_deny_token, MapEntry,
};
use localbind::text::parse_u32;
use localbind::flags::{
    checked_unshare_flags, checked_bind_mount_flags, validate_flag_bits, FlagMismatch,
    UNSHARE_FLAGS_WHITELIST, BIND_MOUNT_FLAGS_WHITELIST,
};

#[test]
fn identity_map_line_renders_decimal() {
    assert_eq!(identity_map_line(1000), b"1000 1000 1".to_vec());
}

#[test]
fn identity_map_line_zero() {
    assert_eq!(identity_map_line(0), b"0 0 1".to_vec());
}

#[test]
fn identity_map_line_largest_id() {
    assert_eq!(identity_map_line(u32::MAX), b"4294967295 4294967295 1".to_vec());
}

#[test]
fn probe_true_after_identity_map() {
    let content = {
        let mut c = identity_map_line(1000);
        c.push(b'\n');
        c
    };
    assert_eq!(is_single_identity_map(&content), Some(true));
}

#[test]
fn probe_false_on_root_namespace_table() {
    let content = b"         0          0 4294967295\n".to_vec();
    assert_eq!(is_single_identity_map(&content), Some(false));
}

#[test]
fn probe_false_on_two_single_ranges() {
    let content = b"0 0 1\n1000 1000 1\n".to_vec();
    assert_eq!(is_single_identity_map(&content), Some(false));
}

#[test]
fn probe_true_on_empty_range() {
    assert_eq!(is_single_identity_map(&b"0 0 0\n".to_vec()), Some(true));
}

#[test]
fn probe_rejects_unreadable_table() {
    assert_eq!(is_single_identity_map(&b"not numbers here\n".to_vec()), None);
    assert_eq!(is_single_identity_map(&b"\n\n".to_vec()), None);
}

#[test]
fn map_entries_read_back() {
    let content = {
        let mut c = identity_map_line(1000);
        c.push(b'\n');
        c
    };
    let entries = parse_map_entries(&content).unwrap();
    assert_eq!(entries, vec![MapEntry { inside: 1000, outside: 1000, count: 1 }]);
}

#[test]
fn map_entries_root_namespace_table() {
    let content = b"         0          0 4294967295\n".to_vec();
    let entries = parse_map_entries(&content).unwrap();
    assert_eq!(entries, vec![MapEntry { inside: 0, outside: 0, count: 4294967295 }]);
}

#[test]
fn map_entries_reject_short_lines() {
    assert_eq!(parse_map_entries(&b"0 0\n".to_vec()), None);
    assert_eq!(parse_map_entries(&b"0 0 1 2\n".to_vec()), None);
}

#[test]
fn parse_u32_values() {
    assert_eq!(parse_u32(&b"0".to_vec()), Some(0));
    assert_eq!(parse_u32(&b"007".to_vec()), Some(7));
    assert_eq!(parse_u32(&b"4294967295".to_vec()), Some(u32::MAX));
    assert_eq!(parse_u32(&b"4294967296".to_vec()), None);
    assert_eq!(parse_u32(&b"12a".to_vec()), None);
    assert_eq!(parse_u32(&b"".to_vec()), None);
}

#[test]
fn deny_token_is_deny() {
    assert_eq!(setgroups_deny_token(), b"deny".to_vec());
}

#[test]
fn unshare_flags_match_whitelist() {
    assert_eq!(checked_unshare_flags(), Ok(268566528));
    assert_eq!(UNSHARE_FLAGS_WHITELIST, 268566528);
}

#[test]
fn bind_mount_flags_match_whitelist() {
    assert_eq!(checked_bind_mount_flags(), Ok(20480));
    assert_eq!(BIND_MOUNT_FLAGS_WHITELIST, 20480);
}

#[test]
fn flag_validation_reports_both_values() {
    assert_eq!(validate_flag_bits(7, 7), Ok(7));
    assert_eq!(validate_flag_bits(6, 7), Err(FlagMismatch { got: 6, expected: 7 }));
}
