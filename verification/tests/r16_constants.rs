use codenoesis_contracts::json::Json;
use codenoesis_contracts::s4_r16::{
    canonical_integer_value, constant_integer_in_range, enforce_contract_limit,
    enforce_portable_size, has_exact_fields, ordered_string_array, safe_viewer_bytes,
    string_array_value, valid_constant_properties, validate_evidence_paths, validate_family,
    validate_reference, validate_reference_array, R16ContractError, MAX_R16_PORTABLE_GRAPH_BYTES,
};

fn to_json(value: &serde_json::Value) -> Json {
    match value {
        serde_json::Value::Null => Json::Null,
        serde_json::Value::Bool(b) => Json::Bool(*b),
        serde_json::Value::Number(n) => match n.as_u64() {
            Some(v) => Json::UInt(v),
            None => Json::NegInt(n.as_i64().expect("integer")),
        },
        serde_json::Value::String(s) => Json::Str(s.clone()),
        serde_json::Value::Array(items) => Json::Array(items.iter().map(to_json).collect()),
        serde_json::Value::Object(fields) => Json::Object(
            fields
                .iter()
                .map(|(k, v)| (k.clone(), to_json(v)))
                .collect(),
        ),
    }
}

fn j(text: &str) -> Json {
    to_json(&serde_json::from_str::<serde_json::Value>(text).expect("valid JSON"))
}

fn ids(values: &[&str]) -> Vec<String> {
    values.iter().map(|v| (*v).to_owned()).collect()
}

#[test]
fn canonical_integers_have_no_redundant_digits() {
    for good in ["0", "7", "-7", "1200", "-340282366920938463463374607431768211456"] {
        assert!(canonical_integer_value(good), "{good}");
    }
    for bad in ["", "-", "-0", "007", "+7", "1_0", "٣", "0x10"] {
        assert!(!canonical_integer_value(bad), "{bad}");
    }
}

#[test]
fn integer_ranges_follow_the_type_width() {
    assert!(constant_integer_in_range("127", "i8"));
    assert!(!constant_integer_in_range("128", "i8"));
    assert!(constant_integer_in_range("-128", "i8"));
    assert!(!constant_integer_in_range("-129", "i8"));
    assert!(constant_integer_in_range("255", "u8"));
    assert!(!constant_integer_in_range("256", "u8"));
    assert!(!constant_integer_in_range("-1", "u8"));
    assert!(constant_integer_in_range("340282366920938463463374607431768211455", "u128"));
    assert!(!constant_integer_in_range("340282366920938463463374607431768211456", "u128"));
    assert!(constant_integer_in_range("-170141183460469231731687303715884105728", "i128"));
    assert!(!constant_integer_in_range("170141183460469231731687303715884105728", "i128"));
    assert!(constant_integer_in_range("+5", "u16"));
    assert!(!constant_integer_in_range("5", "f32"));
    assert!(!constant_integer_in_range("5", ""));
    assert!(!constant_integer_in_range("x", "i8"));
}

#[test]
fn every_canonical_integer_can_be_range_checked() {
    for value in ["0", "-1", "65535", "-9223372036854775808"] {
        assert!(canonical_integer_value(value));
        let _ = constant_integer_in_range(value, "i64");
        assert_eq!(value.parse::<i128>().is_ok(), true);
    }
}

#[test]
fn constant_properties_need_a_matching_authority() {
    let constant = j(r#"{"kind": "rust.constant"}"#);
    let variant = j(r#"{"kind": "rust.enum_variant"}"#);
    let integer = j(r#"{"value_kind": "integer", "canonical_value": "-3", "rust_type": "i16", "type_authority": "explicit_primitive_annotation"}"#);
    assert!(valid_constant_properties(&integer, &constant));
    assert!(!valid_constant_properties(&integer, &variant));
    let repr = j(r#"{"value_kind": "integer", "canonical_value": "300", "rust_type": "u8", "type_authority": "fixed_repr_attribute"}"#);
    assert!(!valid_constant_properties(&repr, &variant));
    let boolean = j(r#"{"value_kind": "boolean", "canonical_value": "true", "rust_type": "bool", "type_authority": "explicit_primitive_annotation"}"#);
    assert!(valid_constant_properties(&boolean, &j(r#"{"kind": "rust.static"}"#)));
    let usize_value = j(r#"{"value_kind": "integer", "canonical_value": "3", "rust_type": "usize", "type_authority": "explicit_primitive_annotation"}"#);
    assert!(!valid_constant_properties(&usize_value, &constant));
}

#[test]
fn string_arrays_and_exact_fields() {
    let record = j(r#"{"a": ["x", "y"], "b": ["y", "x"], "c": [], "d": ["x", 1]}"#);
    assert_eq!(string_array_value(&record, "a"), Ok(ids(&["x", "y"])));
    assert_eq!(string_array_value(&record, "d"), Err(R16ContractError::InvalidProjection));
    assert_eq!(string_array_value(&j("[]"), "a"), Err(R16ContractError::InvalidProjection));
    assert_eq!(ordered_string_array(&record, "a", false), Ok(ids(&["x", "y"])));
    assert_eq!(ordered_string_array(&record, "b", false), Err(R16ContractError::InvalidProjection));
    assert_eq!(ordered_string_array(&record, "c", false), Err(R16ContractError::InvalidProjection));
    assert_eq!(ordered_string_array(&record, "c", true), Ok(Vec::new()));
    assert!(has_exact_fields(&record, &["d", "c", "b", "a"]));
    assert!(!has_exact_fields(&record, &["a", "b", "c"]));
    assert!(!has_exact_fields(&record, &["a", "b", "c", "d", "e"]));
    assert!(!has_exact_fields(&j("[]"), &[]));
}

#[test]
fn limits_accept_the_maximum_and_refuse_one_more() {
    let maximum = usize::try_from(MAX_R16_PORTABLE_GRAPH_BYTES).expect("fits");
    assert_eq!(enforce_portable_size(maximum), Ok(()));
    assert_eq!(
        enforce_portable_size(maximum + 1),
        Err(R16ContractError::LimitExceeded {
            limit: "portable_graph_bytes",
            maximum: MAX_R16_PORTABLE_GRAPH_BYTES,
            observed: MAX_R16_PORTABLE_GRAPH_BYTES + 1,
        })
    );
    assert_eq!(enforce_contract_limit("dependencies", 3, 3), Ok(()));
    assert_eq!(
        enforce_contract_limit("dependencies", 4, 3),
        Err(R16ContractError::LimitExceeded { limit: "dependencies", maximum: 3, observed: 4 })
    );
}

#[test]
fn viewer_bytes_hold_no_remote_or_dynamic_code() {
    assert!(safe_viewer_bytes(b"<script>let a = 1;</script>"));
    assert!(!safe_viewer_bytes(b"<SCRIPT SRC=x>"));
    assert!(!safe_viewer_bytes(b"eval(x)"));
    assert!(!safe_viewer_bytes(&[0xed, 0xa0, 0x80]));
}

#[test]
fn evidence_paths_and_references() {
    assert_eq!(validate_evidence_paths(&j(r#"{"evidence": [{"path": "a.rs"}]}"#), "evidence"), Ok(()));
    assert_eq!(
        validate_evidence_paths(&j(r#"{"evidence": [{"path": "a.rs"}, {"path": "/a.rs"}]}"#), "evidence"),
        Err(R16ContractError::UnsafePayload("unsafe_evidence_path"))
    );
    assert_eq!(
        validate_evidence_paths(&j(r#"{"evidence": [{"digest": "x"}]}"#), "evidence"),
        Err(R16ContractError::InvalidProjection)
    );
    let object = j(r#"{"claims": [{"id": "c2"}, {"id": "c1"}]}"#);
    assert_eq!(
        validate_family(&object, "claims", "id"),
        Err(R16ContractError::IdentityConflict("c1".to_owned()))
    );
    let known = ids(&["c1"]);
    assert_eq!(
        validate_reference(&j(r#"{"subject_id": "c9"}"#), "subject_id", &known),
        Err(R16ContractError::ReferenceMismatch("c9".to_owned()))
    );
    assert_eq!(validate_reference_array(&j(r#"{"ids": ["c1"]}"#), "ids", &known), Ok(()));
}
