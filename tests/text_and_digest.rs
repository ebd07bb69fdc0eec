use passenger::digest::sha256_hex_of;
use passenger::stats::diff_line_counts;
use passenger::text::{count_lines_bytes, format_padded, starts_with, str_eq, str_lt, strip_prefix_str, trim_str};
use passenger::state::format_commit_id;

#[test]
fn line_count_of_empty_file_is_zero() {
    assert_eq!(count_lines_bytes(b""), 0);
}

#[test]
fn line_count_counts_unterminated_last_line() {
    assert_eq!(count_lines_bytes(b"a"), 1);
    assert_eq!(count_lines_bytes(b"a\nb"), 2);
}

#[test]
fn line_count_counts_newlines() {
    assert_eq!(count_lines_bytes(b"a\n"), 1);
    assert_eq!(count_lines_bytes(b"a\nb\nc\n"), 3);
    assert_eq!(count_lines_bytes(b"\n\n"), 2);
}

#[test]
fn sha256_hex_of_abc() {
    assert_eq!(
        sha256_hex_of(b"abc"),
        "ba7816bf8f01cfea414140de5dae2223b00361a396177a9cb410ff61f20015ad"
    );
}

#[test]
fn sha256_hex_of_empty() {
    assert_eq!(
        sha256_hex_of(b""),
        "e3b0c44298fc1c149afbf4c8996fb92427ae41e4649b934ca495991b7852b855"
    );
}

#[test]
fn one_changed_line_adds_one_and_removes_one() {
    assert_eq!(diff_line_counts("a\nb\nc\n", "a\nb\nd\n"), (1, 1));
}

#[test]
fn appended_line_is_one_addition() {
    assert_eq!(diff_line_counts("a\nb\nc\n", "a\nb\nc\nd\n"), (1, 0));
}

#[test]
fn identical_texts_have_no_line_changes() {
    assert_eq!(diff_line_counts("x\ny\n", "x\ny\n"), (0, 0));
}

#[test]
fn trim_removes_unicode_white_space() {
    assert_eq!(trim_str("  ref: refs/main\n"), "ref: refs/main");
    assert_eq!(trim_str("\u{3000}a b\u{a0}"), "a b");
    assert_eq!(trim_str(" \t\n"), "");
}

#[test]
fn prefix_helpers() {
    assert!(starts_with("ref: refs/x", "ref: "));
    assert!(!starts_with("re", "ref: "));
    assert_eq!(strip_prefix_str("refs/main", "refs/"), Some("main".to_string()));
    assert_eq!(strip_prefix_str("main", "refs/"), None);
}

#[test]
fn string_order_and_equality() {
    assert!(str_lt("a", "b"));
    assert!(str_lt("a", "ab"));
    assert!(!str_lt("b", "ab"));
    assert!(!str_lt("a", "a"));
    assert!(str_eq("abc", "abc"));
    assert!(!str_eq("abc", "abd"));
}

#[test]
fn padded_decimal() {
    assert_eq!(format_padded(42, 6), "000042");
    assert_eq!(format_padded(0, 3), "000");
    assert_eq!(format_padded(1234567, 6), "1234567");
}

#[test]
fn commit_ids_are_s_and_six_digits() {
    assert_eq!(format_commit_id(1), "S000001");
    assert_eq!(format_commit_id(42), "S000042");
    assert_eq!(format_commit_id(1234567), "S1234567");
}
