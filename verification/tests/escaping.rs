//! Percent-encoding of group names for the member-selection request path.

use clash_tui::escape_path_segment;

#[test]
fn space_and_quote_are_escaped() {
    let out = escape_path_segment("a b\"c".as_bytes());
    assert_eq!(out, b"a%20b%22c".to_vec());
}

#[test]
fn angle_brackets_and_backtick_are_escaped() {
    let out = escape_path_segment(b"<>`");
    assert_eq!(out, b"%3C%3E%60".to_vec());
}

#[test]
fn control_bytes_are_escaped() {
    assert_eq!(escape_path_segment(&[0x07u8]), b"%07".to_vec());
    assert_eq!(escape_path_segment(&[0x1fu8]), b"%1F".to_vec());
    assert_eq!(escape_path_segment(&[0x7fu8]), b"%7F".to_vec());
}

#[test]
fn non_ascii_bytes_are_escaped() {
    let out = escape_path_segment("é".as_bytes());
    assert_eq!(out, b"%C3%A9".to_vec());
}

#[test]
fn safe_bytes_pass_through() {
    let out = escape_path_segment(b"safe-name_1.All");
    assert_eq!(out, b"safe-name_1.All".to_vec());
}

#[test]
fn empty_name_stays_empty() {
    assert_eq!(escape_path_segment(b""), Vec::<u8>::new());
}
