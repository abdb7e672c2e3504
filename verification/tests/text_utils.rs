//! The verified text utilities at their edges.

use dji_tello_lib::text::{
    i32_string, split_string, str_contains, str_eq, str_starts_with, str_trim, u32_string,
};

#[test]
fn substring_search_edges() {
    assert!(str_contains("pitch:1;roll:2", "roll:"));
    assert!(str_contains("abc", ""));
    assert!(str_contains("", ""));
    assert!(!str_contains("", "a"));
    assert!(!str_contains("ab", "abc"));
    assert!(str_contains("aaab", "aab"));
    assert!(!str_contains("acac", "aca c"));
}

#[test]
fn prefix_and_equality_checks() {
    assert!(str_starts_with("download file.jpg", "download"));
    assert!(!str_starts_with("down", "download"));
    assert!(str_starts_with("anything", ""));
    assert!(str_eq("ok", "ok"));
    assert!(!str_eq("ok", "Ok"));
    assert!(!str_eq("ok", "ok "));
}

#[test]
fn trimming_strips_protocol_whitespace() {
    assert_eq!(str_trim("  file1.jpg \r\n"), "file1.jpg");
    assert_eq!(str_trim("\t\n \r"), "");
    assert_eq!(str_trim("plain"), "plain");
    assert_eq!(str_trim(""), "");
    assert_eq!(str_trim(" a b "), "a b");
}

#[test]
fn splitting_keeps_empty_fields() {
    assert_eq!(split_string("a;b;;c", ';'), vec!["a", "b", "", "c"]);
    assert_eq!(split_string("", ';'), vec![""]);
    assert_eq!(split_string(";", ';'), vec!["", ""]);
    assert_eq!(split_string("one", ';'), vec!["one"]);
    assert_eq!(split_string("x\ny\n", '\n'), vec!["x", "y", ""]);
}

#[test]
fn decimal_formatting() {
    assert_eq!(u32_string(0), "0");
    assert_eq!(u32_string(7), "7");
    assert_eq!(u32_string(100), "100");
    assert_eq!(u32_string(4294967295), "4294967295");
    assert_eq!(i32_string(-1), "-1");
    assert_eq!(i32_string(0), "0");
    assert_eq!(i32_string(501), "501");
    assert_eq!(i32_string(i32::MIN), "-2147483648");
    assert_eq!(i32_string(i32::MAX), "2147483647");
}
