use serde_valid::validate_string_length;
use std::borrow::Cow;
use std::path::{Path, PathBuf};

#[test]
fn test_validate_string_length_ascii_is_true() {
    assert!(validate_string_length("abcde", Some(5), Some(5)));
}

#[test]
fn test_validate_string_length_unicode_is_true() {
    assert!(validate_string_length("a̐éö̲", Some(7), Some(7)));
}

#[test]
fn test_validate_string_length_japanese_is_true() {
    assert!(validate_string_length("あ堯", Some(2), Some(2)));
}

#[test]
fn test_validate_string_length_emoji_is_true() {
    assert!(validate_string_length("😍👺👻", Some(3), Some(3)));
}

#[test]
fn test_validate_string_length_string_type() {
    assert!(validate_string_length(
        &String::from("abcde"),
        Some(5),
        Some(5)
    ));
}

#[test]
fn test_validate_string_length_cow_str_type() {
    assert!(validate_string_length(
        &Cow::from("abcde"),
        Some(5),
        Some(5)
    ));
}

#[test]
fn test_validate_string_length_vec_u8_type() {
    assert!(validate_string_length(
        &"abcde".as_bytes().to_vec(),
        Some(5),
        Some(5)
    ));
}

#[test]
fn test_validate_string_length_vec_char_type() {
    assert!(validate_string_length(
        &vec!['a', 'b', 'c'],
        Some(3),
        Some(3)
    ));
}

#[test]
fn test_validate_string_length_u8_array_type() {
    assert!(validate_string_length("abcde".as_bytes(), Some(5), Some(5)));
}

#[test]
fn test_validate_string_length_char_array_type() {
    assert!(validate_string_length(&['a', 'b', 'c'], Some(3), Some(3)));
}

#[test]
fn test_validate_string_length_path_type() {
    assert!(validate_string_length(
        Path::new("./foo/bar.txt"),
        Some(13),
        Some(13)
    ));
}

#[test]
fn test_validate_string_length_path_buf_type() {
    assert!(validate_string_length(
        &PathBuf::from("./foo/bar.txt"),
        Some(13),
        Some(13)
    ));
}

#[test]
fn test_validate_string_length_min_is_true() {
    assert!(validate_string_length("abcde", Some(5), None));
}

#[test]
fn test_validate_string_length_min_is_false() {
    assert!(!validate_string_length("abcde", Some(6), None));
}

#[test]
fn test_validate_string_length_max_is_true() {
    assert!(validate_string_length("abcde", None, Some(5)));
}

#[test]
fn test_validate_string_length_max_is_false() {
    assert!(!validate_string_length("abcde", None, Some(4)));
}
