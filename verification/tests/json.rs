use usfm::json::{to_json_string, to_json_string_pretty, types};
use usfm::parse;

/// The vocabulary is a set.
#[test]
fn the_type_vocabulary_has_no_repeats() {
    let mut seen: Vec<&str> = Vec::new();
    for kind in types() {
        assert!(!seen.contains(&kind), "{kind} is listed twice");
        seen.push(kind);
    }
}

/// The compact form: one object, keys in sorted order, no `null`.
#[test]
fn a_document_is_one_compact_object() {
    let result = parse("\\id GEN\n\\c 1\n\\p \\v 1 verse one");
    let json = to_json_string(&result.document);
    assert!(json.starts_with('{'), "{json}");
    assert!(json.ends_with('}'), "{json}");
    assert!(!json.contains('\n'), "{json}");
    assert!(json.contains(r#""type":"document""#), "{json}");
    assert!(json.contains(r#""code":"GEN""#), "{json}");
    assert!(json.contains(r#""number":"1""#), "{json}");
    assert!(json.contains(r#""content":"verse one""#), "{json}");
    assert!(!json.contains("null"), "{json}");
}

/// A span is two numbers, and a synthesized node's is `[0,0]`.
#[test]
fn a_span_is_a_pair_of_offsets() {
    let result = parse("\\id GEN\n\\c 1\n\\p \\v 1 a");
    let json = to_json_string(&result.document);
    assert!(json.contains(r#""span":[0,7]"#), "{json}");
    // The verse end the parser inserts is synthesized.
    assert!(json.contains(r#""span":[0,0],"type":"verse_end""#), "{json}");
}

/// A bare `|` is an empty attribute list, and no `|` is no key at all.
#[test]
fn an_absent_attribute_list_is_left_out() {
    let with = to_json_string(&parse("\\id GEN\n\\c 1\n\\p \\v 1 \\w a|\\w*").document);
    assert!(with.contains(r#""attributes":[]"#), "{with}");
    let without = to_json_string(&parse("\\id GEN\n\\c 1\n\\p \\v 1 \\w a\\w*").document);
    assert!(!without.contains("attributes"), "{without}");
}

/// Attributes keep their order, and the default one has an empty name.
#[test]
fn attributes_are_name_value_objects_in_order() {
    let json = to_json_string(
        &parse("\\id GEN\n\\c 1\n\\p \\v 1 \\w a|lemma=\"x\" strong=\"H1\"\\w*").document,
    );
    assert!(
        json.contains(r#""attributes":[{"name":"lemma","value":"x"},{"name":"strong","value":"H1"}]"#),
        "{json}"
    );
}

#[test]
fn the_pretty_form_is_the_same_value_indented() {
    let result = usfm::parse("\\id GEN\n\\c 1\n\\p \\v 1 verse one");
    let pretty = to_json_string_pretty(&result.document);
    assert!(pretty.contains("\n  \"type\": \"document\""), "{pretty}");
    let compact = to_json_string(&result.document);
    let a: serde_json::Value = serde_json::from_str(&pretty).unwrap();
    let b: serde_json::Value = serde_json::from_str(&compact).unwrap();
    assert_eq!(a, b);
}
