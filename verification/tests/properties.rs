use secure_config_server::properties::{
    float_bits_are_finite, flatten_yaml_value, number_value, PropertyMap, PropertyValue,
};
use secure_config_server::yaml::{parse_document, YamlEntry, YamlNumber, YamlValue};

fn flat(text: &str) -> Vec<(String, PropertyValue)> {
    let doc = parse_document(text).unwrap();
    let mut map = PropertyMap::new();
    flatten_yaml_value(None, &doc, &mut map);
    map.entries().iter().map(|e| (e.key.clone(), e.value.clone())).collect()
}

fn whole(n: i64) -> YamlValue {
    YamlValue::Number(YamlNumber {
        as_i64: Some(n),
        as_u64: if n >= 0 { Some(n as u64) } else { None },
        as_float_bits: Some((n as f64).to_bits()),
        text: n.to_string(),
    })
}

fn entry(key: YamlValue, key_debug: &str, value: YamlValue) -> YamlEntry {
    YamlEntry { key, key_debug: key_debug.to_string(), value }
}

#[test]
fn nested_document_flattens_to_dotted_and_indexed_keys() {
    // {a: {b: [1, 2]}}
    let doc = YamlValue::Mapping(vec![entry(
        YamlValue::String("a".to_string()),
        "String(\"a\")",
        YamlValue::Mapping(vec![entry(
            YamlValue::String("b".to_string()),
            "String(\"b\")",
            YamlValue::Sequence(vec![whole(1), whole(2)]),
        )]),
    )]);
    let mut map = PropertyMap::new();
    flatten_yaml_value(None, &doc, &mut map);
    let got: Vec<(String, PropertyValue)> =
        map.entries().iter().map(|e| (e.key.clone(), e.value.clone())).collect();
    assert_eq!(
        got,
        vec![
            ("a.b[0]".to_string(), PropertyValue::Int(1)),
            ("a.b[1]".to_string(), PropertyValue::Int(2)),
        ]
    );
}

#[test]
fn parsed_nested_document_flattens_the_same_way() {
    assert_eq!(
        flat("{a: {b: [1, 2]}}"),
        vec![
            ("a.b[0]".to_string(), PropertyValue::Int(1)),
            ("a.b[1]".to_string(), PropertyValue::Int(2)),
        ]
    );
}

#[test]
fn scalars_keep_their_native_type() {
    assert_eq!(
        flat("s: text\nb: true\nn: ~\ni: -5\nu: 18446744073709551615\nf: 1.5\nq: \"42\"\n"),
        vec![
            ("s".to_string(), PropertyValue::String("text".to_string())),
            ("b".to_string(), PropertyValue::Bool(true)),
            ("n".to_string(), PropertyValue::Null),
            ("i".to_string(), PropertyValue::Int(-5)),
            ("u".to_string(), PropertyValue::UInt(u64::MAX)),
            ("f".to_string(), PropertyValue::Float(1.5f64.to_bits())),
            ("q".to_string(), PropertyValue::String("42".to_string())),
        ]
    );
}

#[test]
fn floats_that_are_not_finite_count_as_zero() {
    assert_eq!(
        flat("a: .inf\nb: -.inf\nc: .nan\n"),
        vec![
            ("a".to_string(), PropertyValue::Int(0)),
            ("b".to_string(), PropertyValue::Int(0)),
            ("c".to_string(), PropertyValue::Int(0)),
        ]
    );
    assert!(float_bits_are_finite(0.0f64.to_bits()));
    assert!(float_bits_are_finite(f64::MAX.to_bits()));
    assert!(float_bits_are_finite((-1.25f64).to_bits()));
    assert!(!float_bits_are_finite(f64::INFINITY.to_bits()));
    assert!(!float_bits_are_finite(f64::NEG_INFINITY.to_bits()));
    assert!(!float_bits_are_finite(f64::NAN.to_bits()));
}

#[test]
fn number_without_any_reading_counts_as_zero() {
    let n = YamlNumber { as_i64: None, as_u64: None, as_float_bits: None, text: "?".to_string() };
    assert_eq!(number_value(&n), PropertyValue::Int(0));
    let n = YamlNumber {
        as_i64: None,
        as_u64: Some(9223372036854775808),
        as_float_bits: Some(9223372036854775808f64.to_bits()),
        text: "9223372036854775808".to_string(),
    };
    assert_eq!(number_value(&n), PropertyValue::UInt(9223372036854775808));
}

#[test]
fn a_top_level_scalar_sets_nothing() {
    assert_eq!(flat("just text"), vec![]);
    assert_eq!(flat("42"), vec![]);
    assert_eq!(flat(""), vec![]);
}

#[test]
fn a_top_level_sequence_uses_bare_indices() {
    assert_eq!(
        flat("- a\n- x: 1\n- [p, q]\n"),
        vec![
            ("[0]".to_string(), PropertyValue::String("a".to_string())),
            ("[1].x".to_string(), PropertyValue::Int(1)),
            ("[2][0]".to_string(), PropertyValue::String("p".to_string())),
            ("[2][1]".to_string(), PropertyValue::String("q".to_string())),
        ]
    );
}

#[test]
fn long_sequences_have_decimal_indices() {
    let items: Vec<YamlValue> = (0..12).map(whole).collect();
    let doc = YamlValue::Mapping(vec![entry(
        YamlValue::String("v".to_string()),
        "String(\"v\")",
        YamlValue::Sequence(items),
    )]);
    let mut map = PropertyMap::new();
    flatten_yaml_value(None, &doc, &mut map);
    let keys: Vec<String> = map.entries().iter().map(|e| e.key.clone()).collect();
    assert_eq!(
        keys,
        vec![
            "v[0]", "v[1]", "v[2]", "v[3]", "v[4]", "v[5]", "v[6]", "v[7]", "v[8]", "v[9]", "v[10]",
            "v[11]"
        ]
    );
}

#[test]
fn keys_that_are_not_strings_use_their_literal_text() {
    assert_eq!(
        flat("1: one\ntrue: yes\n2.5: half\n~: nothing\n"),
        vec![
            ("1".to_string(), PropertyValue::String("one".to_string())),
            ("true".to_string(), PropertyValue::String("yes".to_string())),
            ("2.5".to_string(), PropertyValue::String("half".to_string())),
            ("Null".to_string(), PropertyValue::String("nothing".to_string())),
        ]
    );
    assert_eq!(
        flat("outer:\n  7: x\n  false: y\n"),
        vec![
            ("outer.7".to_string(), PropertyValue::String("x".to_string())),
            ("outer.false".to_string(), PropertyValue::String("y".to_string())),
        ]
    );
}

#[test]
fn tagged_values_flatten_as_their_content() {
    assert_eq!(
        flat("a: !Thing\n  b: 1\nc: !Other 5\n"),
        vec![
            ("a.b".to_string(), PropertyValue::Int(1)),
            ("c".to_string(), PropertyValue::Int(5)),
        ]
    );
}

#[test]
fn an_existing_prefix_is_used() {
    let doc = parse_document("x: 1\ny: [2]\n").unwrap();
    let mut map = PropertyMap::new();
    flatten_yaml_value(Some("root"), &doc, &mut map);
    let got: Vec<(String, PropertyValue)> =
        map.entries().iter().map(|e| (e.key.clone(), e.value.clone())).collect();
    assert_eq!(
        got,
        vec![
            ("root.x".to_string(), PropertyValue::Int(1)),
            ("root.y[0]".to_string(), PropertyValue::Int(2)),
        ]
    );
    let mut map = PropertyMap::new();
    flatten_yaml_value(Some("leaf"), &YamlValue::Bool(false), &mut map);
    assert_eq!(map.get(&"leaf".to_string()), Some(&PropertyValue::Bool(false)));
}

#[test]
fn flattening_overwrites_keys_that_exist() {
    let mut map = PropertyMap::new();
    map.insert("a".to_string(), PropertyValue::Int(1));
    map.insert("b".to_string(), PropertyValue::Int(1));
    let doc = parse_document("b: 2\nc: 3\n").unwrap();
    flatten_yaml_value(None, &doc, &mut map);
    let got: Vec<(String, PropertyValue)> =
        map.entries().iter().map(|e| (e.key.clone(), e.value.clone())).collect();
    assert_eq!(
        got,
        vec![
            ("a".to_string(), PropertyValue::Int(1)),
            ("b".to_string(), PropertyValue::Int(2)),
            ("c".to_string(), PropertyValue::Int(3)),
        ]
    );
}

#[test]
fn parse_document_reports_bad_yaml() {
    assert!(matches!(
        parse_document("a: [1, 2"),
        Err(secure_config_server::error::ServerError::Yaml(_))
    ));
    assert_eq!(parse_document("a: 1").unwrap(), YamlValue::Mapping(vec![entry(
        YamlValue::String("a".to_string()),
        "String(\"a\")",
        whole(1),
    )]));
}
