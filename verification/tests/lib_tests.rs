//! The top-level loading surface, and the stated laws on concrete values.

use rustyaml::NativeValue;
use rustyaml::load_all;
use rustyaml::safe_load;
use rustyaml::unsafe_load;
use rustyaml::version;

fn get<'a>(pairs: &'a [(NativeValue, NativeValue)], key: &str) -> &'a NativeValue {
    for (k, v) in pairs {
        if *k == NativeValue::Str(key.to_string()) {
            return v;
        }
    }
    panic!("key {} not found", key);
}

#[test]
fn test_safe_load_simple() {
    let yaml = "key: value";
    let result = safe_load(yaml).unwrap();
    match result {
        NativeValue::Dict(pairs) => {
            assert_eq!(*get(&pairs, "key"), NativeValue::Str("value".to_string()));
        }
        other => panic!("expected a dict, got {:?}", other),
    }
}

#[test]
fn test_load_all_multiple_docs() {
    let yaml = "doc: 1\n---\ndoc: 2\n---\ndoc: 3";
    let results = load_all(yaml).unwrap();
    assert_eq!(results.len(), 3);
}

#[test]
fn test_version() {
    let v = version();
    assert!(!v.is_empty());
}

#[test]
fn test_safe_load_nested() {
    let yaml = r#"
database:
  host: localhost
  port: 5432
"#;
    let result = safe_load(yaml).unwrap();
    match result {
        NativeValue::Dict(pairs) => match get(&pairs, "database") {
            NativeValue::Dict(db) => {
                assert_eq!(*get(db, "host"), NativeValue::Str("localhost".to_string()));
                assert_eq!(*get(db, "port"), NativeValue::Int(5432));
            }
            other => panic!("expected a nested dict, got {:?}", other),
        },
        other => panic!("expected a dict, got {:?}", other),
    }
}

#[test]
fn test_safe_load_list() {
    let yaml = "- item1\n- item2\n- item3";
    let result = safe_load(yaml).unwrap();

    assert_eq!(
        result,
        NativeValue::List(vec![
            NativeValue::Str("item1".to_string()),
            NativeValue::Str("item2".to_string()),
            NativeValue::Str("item3".to_string()),
        ])
    );
}

#[test]
fn test_safe_load_empty() {
    let yaml = "";
    let result = safe_load(yaml).unwrap();
    assert_eq!(result, NativeValue::Null);
}

#[test]
fn test_safe_load_rejects_unsafe_tags() {
    let yaml = "!!python/object/apply:os.system ['echo bad']";
    let result = safe_load(yaml);
    assert!(result.is_err());
}

#[test]
fn test_unsafe_load_allows_regular_yaml() {
    let yaml = "key: value";
    let result = unsafe_load(yaml).unwrap();
    match result {
        NativeValue::Dict(pairs) => {
            assert_eq!(*get(&pairs, "key"), NativeValue::Str("value".to_string()));
        }
        other => panic!("expected a dict, got {:?}", other),
    }
}

#[test]
fn test_source_order_is_preserved() {
    // Keys come out in first-seen source order, never re-sorted.
    let result = safe_load("b: 2\na: 1").unwrap();
    assert_eq!(
        result,
        NativeValue::Dict(vec![
            (NativeValue::Str("b".to_string()), NativeValue::Int(2)),
            (NativeValue::Str("a".to_string()), NativeValue::Int(1)),
        ])
    );
}

#[test]
fn test_safe_and_unsafe_agree_on_tag_free_input() {
    let yaml = "a: [1, two, 3.5]\nb:\n  c: true";
    assert_eq!(safe_load(yaml).unwrap(), unsafe_load(yaml).unwrap());
}

#[test]
fn test_loading_is_deterministic() {
    let yaml = "a: 1\nb: [x, y]\nc:\n  d: 2.5";
    assert_eq!(safe_load(yaml).unwrap(), safe_load(yaml).unwrap());
}

#[test]
fn test_unsafe_load_still_fails_on_surviving_tag() {
    // Unsafe mode skips the filter, but a tagged node has no supported
    // realization and fails at conversion.
    let yaml = "!point {x: 1}";
    assert!(unsafe_load(yaml).is_err());
}

#[test]
fn test_safe_rejects_tag_in_mapping_key() {
    let yaml = "? !!python/name:os.system\n: 1";
    let result = safe_load(yaml);
    match result {
        Err(rustyaml::YAMLError::UnsafeTag { .. }) => {}
        other => panic!("expected an unsafe-tag rejection, got {:?}", other),
    }
}

#[test]
fn test_load_all_unsafe_tag_fails_call() {
    let yaml = "a: 1\n---\nb: !!python/module:os x";
    assert!(load_all(yaml).is_err());
}
