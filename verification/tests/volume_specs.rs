use localbind::volume::{parse_volume_spec, parse_mount_list, is_ignored_line, VolumeError};
use localbind::text::split_lines;

#[test]
fn parse_basic() {
    let v = parse_volume_spec(&b"/a:/b".to_vec()).unwrap();
    assert_eq!(v.src, b"/a".to_vec());
    assert_eq!(v.dest, b"/b".to_vec());
}

#[test]
fn parse_then_serialize_round_trips() {
    let input = b"/home/user:/tmp/view/home/user".to_vec();
    let v = parse_volume_spec(&input).unwrap();
    assert_eq!(v.serialize(), input);
}

#[test]
fn serialize_then_parse_round_trips() {
    let v = parse_volume_spec(&b"/:/tmp/view".to_vec()).unwrap();
    let text = v.serialize();
    let w = parse_volume_spec(&text).unwrap();
    assert_eq!(w.src, v.src);
    assert_eq!(w.dest, v.dest);
}

#[test]
fn parse_no_colon_is_field_count_error() {
    let r = parse_volume_spec(&b"just-a-path".to_vec());
    assert_eq!(r.err(), Some(VolumeError::FieldCount));
}

#[test]
fn parse_two_colons_is_field_count_error() {
    let r = parse_volume_spec(&b"/a:/b:/c".to_vec());
    assert_eq!(r.err(), Some(VolumeError::FieldCount));
}

#[test]
fn parse_empty_is_field_count_error() {
    let r = parse_volume_spec(&b"".to_vec());
    assert_eq!(r.err(), Some(VolumeError::FieldCount));
}

#[test]
fn parse_adjacent_colons_is_field_count_error() {
    let r = parse_volume_spec(&b"::".to_vec());
    assert_eq!(r.err(), Some(VolumeError::FieldCount));
}

#[test]
fn parse_empty_src_is_empty_field_error() {
    let r = parse_volume_spec(&b":/b".to_vec());
    assert_eq!(r.err(), Some(VolumeError::EmptyField));
}

#[test]
fn parse_empty_dest_is_empty_field_error() {
    let r = parse_volume_spec(&b"/a:".to_vec());
    assert_eq!(r.err(), Some(VolumeError::EmptyField));
}

#[test]
fn parse_lone_colon_is_empty_field_error() {
    let r = parse_volume_spec(&b":".to_vec());
    assert_eq!(r.err(), Some(VolumeError::EmptyField));
}

#[test]
fn parse_keeps_raw_bytes() {
    let input = vec![0xffu8, 0xfe, b':', 0x80, 0x81];
    let v = parse_volume_spec(&input).unwrap();
    assert_eq!(v.src, vec![0xffu8, 0xfe]);
    assert_eq!(v.dest, vec![0x80u8, 0x81]);
}

#[test]
fn mount_list_stops_at_first_bad_line() {
    let lines = vec![
        b"# comment".to_vec(),
        b"".to_vec(),
        b"/a:/b".to_vec(),
        b"bad-line".to_vec(),
    ];
    let (specs, err) = parse_mount_list(&lines);
    assert_eq!(specs.len(), 1);
    assert_eq!(specs[0].src, b"/a".to_vec());
    assert_eq!(specs[0].dest, b"/b".to_vec());
    let e = err.unwrap_or_else(|| panic!("expected a line error"));
    assert_eq!(e.line_no, 4);
    assert_eq!(e.line, b"bad-line".to_vec());
    assert_eq!(e.err, VolumeError::FieldCount);
}

#[test]
fn mount_list_applies_all_good_lines_in_order() {
    let lines = vec![
        b"/a:/b".to_vec(),
        b"   ".to_vec(),
        b"# note".to_vec(),
        b"/c:/d".to_vec(),
    ];
    let (specs, err) = parse_mount_list(&lines);
    assert!(err.is_none());
    assert_eq!(specs.len(), 2);
    assert_eq!(specs[0].src, b"/a".to_vec());
    assert_eq!(specs[1].src, b"/c".to_vec());
    assert_eq!(specs[1].dest, b"/d".to_vec());
}

#[test]
fn mount_list_reports_empty_field_lines() {
    let lines = vec![b"/a:".to_vec()];
    let (specs, err) = parse_mount_list(&lines);
    assert_eq!(specs.len(), 0);
    let e = err.unwrap_or_else(|| panic!("expected a line error"));
    assert_eq!(e.line_no, 1);
    assert_eq!(e.err, VolumeError::EmptyField);
}

#[test]
fn ignored_lines() {
    assert!(is_ignored_line(&b"# comment".to_vec()));
    assert!(is_ignored_line(&b"".to_vec()));
    assert!(is_ignored_line(&b" \t ".to_vec()));
    assert!(!is_ignored_line(&b"/a:/b".to_vec()));
    assert!(!is_ignored_line(&b" # indented comment marker".to_vec()));
}

#[test]
fn split_lines_keeps_trailing_empty_segment() {
    let segs = split_lines(&b"a\nbc\n".to_vec());
    assert_eq!(segs, vec![b"a".to_vec(), b"bc".to_vec(), b"".to_vec()]);
}

#[test]
fn split_lines_without_trailing_newline() {
    let segs = split_lines(&b"a\nbc".to_vec());
    assert_eq!(segs, vec![b"a".to_vec(), b"bc".to_vec()]);
}

#[test]
fn end_to_end_invocation_decisions() {
    // The decisions behind invoking with two volume options and a command:
    // both specifications parse to their two fields, in order, and the
    // command vector is passed through unchanged.
    let first = parse_volume_spec(&b"/:/tmp/view".to_vec()).unwrap();
    assert_eq!(first.src, b"/".to_vec());
    assert_eq!(first.dest, b"/tmp/view".to_vec());
    let second = parse_volume_spec(&b"/home/user:/tmp/view/home/user".to_vec()).unwrap();
    assert_eq!(second.src, b"/home/user".to_vec());
    assert_eq!(second.dest, b"/tmp/view/home/user".to_vec());
    let cmd = vec![b"echo".to_vec(), b"hi".to_vec()];
    assert_eq!(localbind::command::effective_command(cmd.clone()), cmd);
}

#[test]
fn mount_list_from_file_content() {
    // A whole mount-list file, split into lines and parsed in one go.
    let content = b"# mounts for the dev container\n\n/:/tmp/view\n/home/user:/tmp/view/home/user\n".to_vec();
    let lines = split_lines(&content);
    let (specs, err) = parse_mount_list(&lines);
    assert!(err.is_none());
    assert_eq!(specs.len(), 2);
    assert_eq!(specs[0].src, b"/".to_vec());
    assert_eq!(specs[1].dest, b"/tmp/view/home/user".to_vec());
}
