//! The parallel batch loader: ordering, all-or-nothing failure, scale.

use rustyaml::NativeValue;
use rustyaml::batch::is_yaml_extension;
use rustyaml::batch::safe_load_many;
use rustyaml::batch::unsafe_load_many;

#[test]
fn test_parallel_loading() {
    let yamls = vec![
        "doc: 1".to_string(),
        "doc: 2".to_string(),
        "doc: 3".to_string(),
    ];

    let results = safe_load_many(yamls).unwrap();
    assert_eq!(results.len(), 3);
}

#[test]
fn test_parallel_loading_preserves_order() {
    let yamls = vec![
        "value: first".to_string(),
        "value: second".to_string(),
        "value: third".to_string(),
    ];

    let results = safe_load_many(yamls).unwrap();
    assert_eq!(results.len(), 3);

    // Results should be in the same order as input
    assert_eq!(
        results[0],
        NativeValue::Dict(vec![(
            NativeValue::Str("value".to_string()),
            NativeValue::Str("first".to_string()),
        )])
    );
}

#[test]
fn test_parallel_loading_with_error() {
    let yamls = vec![
        "valid: yaml".to_string(),
        "invalid: yaml: :".to_string(), // This is invalid
        "also_valid: yaml".to_string(),
    ];

    let result = safe_load_many(yamls);
    assert!(result.is_err());
}

#[test]
fn test_parallel_loading_empty_list() {
    let yamls: Vec<String> = vec![];

    let results = safe_load_many(yamls).unwrap();
    assert_eq!(results.len(), 0);
}

#[test]
fn test_parallel_loading_large_batch() {
    // Create a batch of 100 YAML strings
    let yamls: Vec<String> = (0..100).map(|i| format!("key_{}: value_{}", i, i)).collect();

    let results = safe_load_many(yamls).unwrap();
    assert_eq!(results.len(), 100);
}

#[test]
fn test_unsafe_load_many() {
    let yamls = vec![
        "doc: 1".to_string(),
        "doc: 2".to_string(),
        "doc: 3".to_string(),
    ];

    let results = unsafe_load_many(yamls).unwrap();
    assert_eq!(results.len(), 3);
}

#[test]
fn test_batch_order_and_values_exact() {
    let yamls = vec!["a: 1".to_string(), "b: 2".to_string()];
    let results = safe_load_many(yamls).unwrap();
    assert_eq!(
        results,
        vec![
            NativeValue::Dict(vec![(
                NativeValue::Str("a".to_string()),
                NativeValue::Int(1),
            )]),
            NativeValue::Dict(vec![(
                NativeValue::Str("b".to_string()),
                NativeValue::Int(2),
            )]),
        ]
    );
}

#[test]
fn test_batch_is_all_or_nothing() {
    // A failing middle item fails the whole call with one diagnostic.
    let yamls = vec!["a: 1".to_string(), "bad: : :".to_string(), "c: 3".to_string()];
    match safe_load_many(yamls) {
        Err(e) => {
            // A single diagnostic, never a partial list.
            let msg = e.to_message();
            assert!(!msg.is_empty());
        }
        Ok(values) => panic!("expected the whole call to fail, got {} values", values.len()),
    }
}

#[test]
fn test_batch_rejects_unsafe_tag_anywhere() {
    let yamls = vec![
        "a: 1".to_string(),
        "b: !python/object/new:os.system []".to_string(),
    ];
    assert!(safe_load_many(yamls).is_err());
}

#[test]
fn test_yaml_extension_rule() {
    assert!(is_yaml_extension("yaml"));
    assert!(is_yaml_extension("yml"));
    assert!(is_yaml_extension("YAML"));
    assert!(is_yaml_extension("Yml"));
    assert!(!is_yaml_extension("txt"));
    assert!(!is_yaml_extension("yamll"));
    assert!(!is_yaml_extension(""));
}
