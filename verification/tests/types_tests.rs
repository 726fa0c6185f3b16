//! The value converter: every node kind, order preservation, collisions.

use rustyaml::NativeValue;
use rustyaml::ParsedNode;
use rustyaml::types::yaml_to_native;

#[test]
fn test_null_conversion() {
    let yaml_null = ParsedNode::Null;
    let native = yaml_to_native(&yaml_null).unwrap();
    assert_eq!(native, NativeValue::Null);
}

#[test]
fn test_string_interning() {
    // Short strings may be interned by a host value system; here the
    // conversion is the identity on the text either way.
    let yaml_str = ParsedNode::Str("key".to_string());
    let native = yaml_to_native(&yaml_str).unwrap();
    assert_eq!(native, NativeValue::Str("key".to_string()));
}

#[test]
fn test_boolean_conversion() {
    let yaml_true = ParsedNode::Bool(true);
    let yaml_false = ParsedNode::Bool(false);

    assert_eq!(yaml_to_native(&yaml_true).unwrap(), NativeValue::Bool(true));
    assert_eq!(yaml_to_native(&yaml_false).unwrap(), NativeValue::Bool(false));
}

#[test]
fn test_integer_conversion() {
    let yaml_int = ParsedNode::Int(42);
    assert_eq!(yaml_to_native(&yaml_int).unwrap(), NativeValue::Int(42));
}

#[test]
fn test_float_conversion() {
    let yaml_float = ParsedNode::Float((3.14f64).to_bits());
    let native = yaml_to_native(&yaml_float).unwrap();
    match native {
        NativeValue::Float(bits) => {
            let value = f64::from_bits(bits);
            assert!((value - 3.14).abs() < 0.001);
        }
        other => panic!("expected a float, got {:?}", other),
    }
}

#[test]
fn test_list_conversion() {
    let yaml_list = ParsedNode::Sequence(vec![
        ParsedNode::Str("a".to_string()),
        ParsedNode::Str("b".to_string()),
        ParsedNode::Str("c".to_string()),
    ]);
    let native = yaml_to_native(&yaml_list).unwrap();
    match native {
        NativeValue::List(items) => assert_eq!(items.len(), 3),
        other => panic!("expected a list, got {:?}", other),
    }
}

#[test]
fn test_dict_conversion() {
    let yaml_dict = ParsedNode::Mapping(vec![(
        ParsedNode::Str("key".to_string()),
        ParsedNode::Str("value".to_string()),
    )]);
    let native = yaml_to_native(&yaml_dict).unwrap();
    match native {
        NativeValue::Dict(pairs) => assert_eq!(pairs.len(), 1),
        other => panic!("expected an ordered mapping, got {:?}", other),
    }
}

#[test]
fn test_tagged_node_fails_conversion() {
    let tagged = ParsedNode::Tagged("!point".to_string(), Box::new(ParsedNode::Null));
    match yaml_to_native(&tagged) {
        Err(rustyaml::YAMLError::UnsafeTag { tag }) => assert_eq!(tag, "!point"),
        other => panic!("expected an unsafe-tag failure, got {:?}", other),
    }
}

#[test]
fn test_dict_collision_last_write_wins() {
    // A colliding key keeps its first-seen position and takes the new value.
    let yaml_dict = ParsedNode::Mapping(vec![
        (ParsedNode::Str("a".to_string()), ParsedNode::Int(1)),
        (ParsedNode::Str("b".to_string()), ParsedNode::Int(2)),
        (ParsedNode::Str("a".to_string()), ParsedNode::Int(3)),
    ]);
    let native = yaml_to_native(&yaml_dict).unwrap();
    assert_eq!(
        native,
        NativeValue::Dict(vec![
            (NativeValue::Str("a".to_string()), NativeValue::Int(3)),
            (NativeValue::Str("b".to_string()), NativeValue::Int(2)),
        ])
    );
}

#[test]
fn test_nested_conversion_preserves_structure() {
    let tree = ParsedNode::Mapping(vec![(
        ParsedNode::Str("xs".to_string()),
        ParsedNode::Sequence(vec![
            ParsedNode::Int(1),
            ParsedNode::Sequence(vec![ParsedNode::Bool(false)]),
        ]),
    )]);
    assert_eq!(
        yaml_to_native(&tree).unwrap(),
        NativeValue::Dict(vec![(
            NativeValue::Str("xs".to_string()),
            NativeValue::List(vec![
                NativeValue::Int(1),
                NativeValue::List(vec![NativeValue::Bool(false)]),
            ]),
        )])
    );
}

#[test]
fn test_error_inside_list_aborts_conversion() {
    let tree = ParsedNode::Sequence(vec![
        ParsedNode::Int(1),
        ParsedNode::Tagged("!x".to_string(), Box::new(ParsedNode::Null)),
    ]);
    assert!(yaml_to_native(&tree).is_err());
}
