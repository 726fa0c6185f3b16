//! The safety filter: the quick text scan and the recursive tree scan.

use rustyaml::ParsedNode;
use rustyaml::safe::check_safety;
use rustyaml::safe::quick_safety_check;

#[test]
fn test_detect_unsafe_tag() {
    // This should fail
    let value = ParsedNode::Tagged(
        "!python/object/apply:os.system".to_string(),
        Box::new(ParsedNode::Sequence(vec![ParsedNode::Str("echo dangerous".to_string())])),
    );

    assert!(check_safety(&value).is_err());
}

#[test]
fn test_safe_yaml() {
    let value = ParsedNode::Mapping(vec![(
        ParsedNode::Str("key".to_string()),
        ParsedNode::Str("value".to_string()),
    )]);

    assert!(check_safety(&value).is_ok());
}

#[test]
fn test_nested_safe_yaml() {
    let value = ParsedNode::Mapping(vec![(
        ParsedNode::Str("database".to_string()),
        ParsedNode::Mapping(vec![
            (ParsedNode::Str("host".to_string()), ParsedNode::Str("localhost".to_string())),
            (ParsedNode::Str("port".to_string()), ParsedNode::Int(5432)),
            (
                ParsedNode::Str("credentials".to_string()),
                ParsedNode::Mapping(vec![
                    (
                        ParsedNode::Str("username".to_string()),
                        ParsedNode::Str("admin".to_string()),
                    ),
                    (
                        ParsedNode::Str("password".to_string()),
                        ParsedNode::Str("secret".to_string()),
                    ),
                ]),
            ),
        ]),
    )]);
    assert!(check_safety(&value).is_ok());
}

#[test]
fn test_list_safe_yaml() {
    let value = ParsedNode::Sequence(vec![
        ParsedNode::Str("item1".to_string()),
        ParsedNode::Str("item2".to_string()),
        ParsedNode::Str("item3".to_string()),
    ]);
    assert!(check_safety(&value).is_ok());
}

#[test]
fn test_quick_safety_check_catches_dangerous() {
    let yaml = "data: !!python/object/apply:os.system ['rm -rf /']";
    assert!(quick_safety_check(yaml).is_err());
}

#[test]
fn test_quick_safety_check_allows_safe() {
    let yaml = "key: value\nnested:\n  foo: bar";
    assert!(quick_safety_check(yaml).is_ok());
}

#[test]
fn test_detect_unsafe_in_nested() {
    // Even deeply nested unsafe tags should be caught
    let yaml = r#"
safe_key: safe_value
nested:
  also_safe: true
  dangerous: !!python/object/apply:subprocess.Popen ['echo', 'bad']
"#;
    assert!(quick_safety_check(yaml).is_err());
}

#[test]
fn test_detect_unsafe_tag_in_mapping_key() {
    let value = ParsedNode::Mapping(vec![(
        ParsedNode::Tagged("!python/name:os.system".to_string(), Box::new(ParsedNode::Null)),
        ParsedNode::Int(1),
    )]);
    assert!(check_safety(&value).is_err());
}

#[test]
fn test_check_safety_names_the_offending_tag() {
    let value = ParsedNode::Tagged("!python/module:os".to_string(), Box::new(ParsedNode::Null));
    match check_safety(&value) {
        Err(rustyaml::YAMLError::UnsafeTag { tag }) => {
            assert_eq!(tag, "!python/module:os");
        }
        other => panic!("expected an unsafe-tag rejection, got {:?}", other),
    }
}

#[test]
fn test_quick_check_names_the_matched_fragment() {
    match quick_safety_check("x: !!python/name:getattr") {
        Err(rustyaml::YAMLError::UnsafeTag { tag }) => {
            assert_eq!(tag, "!!python/name");
        }
        other => panic!("expected an unsafe-tag rejection, got {:?}", other),
    }
}

#[test]
fn test_benign_tag_passes_the_filter() {
    let value = ParsedNode::Tagged("!point".to_string(), Box::new(ParsedNode::Null));
    assert!(check_safety(&value).is_ok());
}
