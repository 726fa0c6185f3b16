//! Diagnostics: construction, message rendering, and context snippets.

use rustyaml::YAMLError;
use rustyaml::error::extract_context;

#[test]
fn test_error_context() {
    let yaml = "line1: value\nline2 missing_colon\nline3: value";
    let context = extract_context(yaml, 2, 7);

    // Should show line 2 with pointer at column 7
    assert!(context.contains("line2"));
    assert!(context.contains("^"));
}

#[test]
fn test_parse_error_display() {
    let err = YAMLError::parse(5, 10, "unexpected token".to_string());
    let msg = err.to_message();
    assert!(msg.contains("line 5"));
    assert!(msg.contains("column 10"));
    assert!(msg.contains("unexpected token"));
}

#[test]
fn test_unsafe_tag_error() {
    let err = YAMLError::unsafe_tag("!!python/object".to_string());
    let msg = err.to_message();
    assert!(msg.contains("!!python/object"));
    assert!(msg.contains("Hint"));
}

#[test]
fn test_invalid_number_message() {
    let err = YAMLError::invalid_number("12abc".to_string());
    let msg = err.to_message();
    assert!(msg.contains("Invalid number format"));
    assert!(msg.contains("12abc"));
}

#[test]
fn test_file_not_found_message() {
    let err = YAMLError::FileNotFound { path: "/does/not/exist".to_string() };
    let msg = err.to_message();
    assert_eq!(msg, "File not found: /does/not/exist");
}

#[test]
fn test_decoding_error_message() {
    let err = YAMLError::DecodingError { message: "invalid byte".to_string() };
    let msg = err.to_message();
    assert_eq!(msg, "UTF-8 decoding error: invalid byte");
}

#[test]
fn test_parse_error_message_exact() {
    let err = YAMLError::parse(12, 3, "boom".to_string());
    assert_eq!(err.to_message(), "YAML parse error at line 12, column 3: boom");
}

#[test]
fn test_parse_with_context_keeps_position() {
    let yaml = "a: 1\nb !\nc: 3";
    let err = YAMLError::parse_with_context(2, 3, "bad token".to_string(), yaml);
    match &err {
        YAMLError::ParseError { line, col, message } => {
            assert_eq!(*line, 2);
            assert_eq!(*col, 3);
            assert!(message.starts_with("bad token\n\n"));
            assert!(message.contains("b !"));
            assert!(message.contains("^"));
        }
        _ => panic!("expected a parse error"),
    }
}

#[test]
fn test_context_exact_rendering() {
    let context = extract_context("aa\nbb\ncc\ndd", 3, 2);
    assert_eq!(context, "  1 | aa\n  2 | bb\n  3 | cc\n    |  ^\n  4 | dd\n");
}

#[test]
fn test_context_unknown_position_is_empty() {
    assert_eq!(extract_context("a: 1\nb: 2", 0, 5), "");
    assert_eq!(extract_context("a: 1\nb: 2", 9, 1), "");
}
