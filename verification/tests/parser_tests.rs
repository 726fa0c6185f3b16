//! The loading pipeline on real documents, through the external grammar.

use rustyaml::NativeValue;
use rustyaml::parser::parse_all;
use rustyaml::parser::parse_safe;

fn get<'a>(pairs: &'a [(NativeValue, NativeValue)], key: &str) -> &'a NativeValue {
    for (k, v) in pairs {
        if *k == NativeValue::Str(key.to_string()) {
            return v;
        }
    }
    panic!("key {} not found", key);
}

#[test]
fn test_parse_simple_dict() {
    let yaml = "key: value";
    let result = parse_safe(yaml).unwrap();

    // Should be a dict
    assert!(matches!(result, NativeValue::Dict(_)));
}

#[test]
fn test_parse_list() {
    let yaml = "- item1\n- item2\n- item3";
    let result = parse_safe(yaml).unwrap();

    // Should be a list
    assert!(matches!(result, NativeValue::List(_)));
}

#[test]
fn test_parse_nested_structure() {
    let yaml = r#"
database:
  host: localhost
  port: 5432
  enabled: true
"#;
    let result = parse_safe(yaml).unwrap();
    match result {
        NativeValue::Dict(pairs) => match get(&pairs, "database") {
            NativeValue::Dict(db) => {
                assert_eq!(*get(db, "host"), NativeValue::Str("localhost".to_string()));
                assert_eq!(*get(db, "port"), NativeValue::Int(5432));
                assert_eq!(*get(db, "enabled"), NativeValue::Bool(true));
            }
            other => panic!("expected a nested dict, got {:?}", other),
        },
        other => panic!("expected a dict, got {:?}", other),
    }
}

#[test]
fn test_parse_multiple_documents() {
    let yaml = "doc: 1\n---\ndoc: 2\n---\ndoc: 3";
    let results = parse_all(yaml).unwrap();

    assert_eq!(results.len(), 3);
}

#[test]
fn test_parse_empty_string() {
    let yaml = "";
    let result = parse_safe(yaml).unwrap();

    // Empty YAML should return the native null
    assert_eq!(result, NativeValue::Null);
}

#[test]
fn test_parse_null() {
    let yaml = "null";
    let result = parse_safe(yaml).unwrap();

    assert_eq!(result, NativeValue::Null);
}

#[test]
fn test_parse_numbers() {
    let yaml = r#"
integer: 42
negative: -17
float: 3.14
scientific: 1.23e-4
"#;
    let result = parse_safe(yaml).unwrap();
    match result {
        NativeValue::Dict(pairs) => {
            assert_eq!(*get(&pairs, "integer"), NativeValue::Int(42));
            assert_eq!(*get(&pairs, "negative"), NativeValue::Int(-17));
            match get(&pairs, "float") {
                NativeValue::Float(bits) => {
                    assert!((f64::from_bits(*bits) - 3.14).abs() < 1e-9);
                }
                other => panic!("expected a float, got {:?}", other),
            }
            match get(&pairs, "scientific") {
                NativeValue::Float(bits) => {
                    assert!((f64::from_bits(*bits) - 1.23e-4).abs() < 1e-12);
                }
                other => panic!("expected a float, got {:?}", other),
            }
        }
        other => panic!("expected a dict, got {:?}", other),
    }
}

#[test]
fn test_parse_booleans() {
    // The external grammar recognizes only true/false as booleans; the
    // words yes and no stay strings.
    let yaml = r#"
yes_val: yes
no_val: no
true_val: true
false_val: false
"#;
    let result = parse_safe(yaml).unwrap();
    match result {
        NativeValue::Dict(pairs) => {
            assert_eq!(*get(&pairs, "true_val"), NativeValue::Bool(true));
            assert_eq!(*get(&pairs, "false_val"), NativeValue::Bool(false));
            assert_eq!(*get(&pairs, "yes_val"), NativeValue::Str("yes".to_string()));
            assert_eq!(*get(&pairs, "no_val"), NativeValue::Str("no".to_string()));
        }
        other => panic!("expected a dict, got {:?}", other),
    }
}

#[test]
fn test_parse_invalid_yaml() {
    let yaml = "key: : invalid";
    let result = parse_safe(yaml);

    assert!(result.is_err());
}

#[test]
fn test_parse_multiline_string() {
    let yaml = r#"
text: |
  This is a
  multiline string
"#;
    let result = parse_safe(yaml).unwrap();
    match result {
        NativeValue::Dict(pairs) => match get(&pairs, "text") {
            NativeValue::Str(text) => assert!(text.contains("multiline")),
            other => panic!("expected a string, got {:?}", other),
        },
        other => panic!("expected a dict, got {:?}", other),
    }
}

#[test]
fn test_parse_error_carries_position() {
    let err = parse_safe("@invalid").unwrap_err();
    match err {
        rustyaml::YAMLError::ParseError { line, col, .. } => {
            assert_eq!(line, 1);
            assert_eq!(col, 1);
        }
        other => panic!("expected a parse error, got {:?}", other),
    }
}

#[test]
fn test_int64_boundary_values() {
    // The largest signed value stays an exact integer.
    assert_eq!(
        parse_safe("9223372036854775807").unwrap(),
        NativeValue::Int(9223372036854775807),
    );
    // Beyond the signed range but within the unsigned range: exact unsigned.
    assert_eq!(
        parse_safe("18446744073709551615").unwrap(),
        NativeValue::UInt(18446744073709551615),
    );
}

#[test]
fn test_oversized_number_becomes_float() {
    // A numeric literal beyond both integer ranges comes through as a
    // floating-point approximation, never a loss of magnitude.
    match parse_safe("1.0e23").unwrap() {
        NativeValue::Float(bits) => {
            let v = f64::from_bits(bits);
            assert!(v > 9.9e22 && v < 1.1e23);
        }
        other => panic!("expected a float approximation, got {:?}", other),
    }
}

#[test]
fn test_oversized_integer_literal_is_refused_by_grammar() {
    // The external grammar reads an oversized plain integer as a 128-bit
    // number and refuses it for a dynamic value; the call fails with a
    // parse error rather than silently losing magnitude.
    assert!(matches!(
        parse_safe("99999999999999999999999"),
        Err(rustyaml::YAMLError::ParseError { .. })
    ));
}

#[test]
fn test_load_all_first_bad_document_fails_call() {
    let yaml = "a: 1\n---\n@bad\n---\nc: 3";
    assert!(parse_all(yaml).is_err());
}
