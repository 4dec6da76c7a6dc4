use codenoesis_contracts::json::Json;
use codenoesis_contracts::s4_r17::{
    call_summary, collect_evidence_ids, collect_references, contains_selected_reference,
    display_signature, normalized_component, optional_non_empty_string, relationship_target,
    required_string, safe_content_security_policy, safe_viewer, selected_uncertainty,
    validate_claim_subjects, validate_function_context_limits,
    validate_function_context_output_bytes, validate_private_fields, FunctionContextCounts,
    FunctionContextError, MAX_R17_CONTEXT_OUTPUT_BYTES, MAX_R17_FUNCTION_PARAMETERS,
    MAX_R17_LINKED_SUBJECTS,
};

fn to_json(value: &serde_json::Value) -> Json {
    match value {
        serde_json::Value::Null => Json::Null,
        serde_json::Value::Bool(b) => Json::Bool(*b),
        serde_json::Value::Number(n) => match n.as_u64() {
            Some(v) => Json::UInt(v),
            None => Json::NegInt(n.as_i64().expect("integer")),
        },
        serde_json::Value::String(s) => Json::Str(s.clone()),
        serde_json::Value::Array(items) => Json::Array(items.iter().map(to_json).collect()),
        serde_json::Value::Object(fields) => Json::Object(
            fields
                .iter()
                .map(|(k, v)| (k.clone(), to_json(v)))
                .collect(),
        ),
    }
}

fn j(text: &str) -> Json {
    to_json(&serde_json::from_str::<serde_json::Value>(text).expect("valid JSON"))
}

fn ids(values: &[&str]) -> Vec<String> {
    values.iter().map(|v| (*v).to_owned()).collect()
}

fn signature(properties: &str) -> Json {
    j(&format!("{{\"properties\": {properties}}}"))
}

#[test]
fn ct_fr_ctx_001_display_signature_uses_only_declared_facts_when_root_has_no_card() {
    let root = j(r#"{"kind": "rust.function", "name": "clamp", "properties": {}}"#);
    let signature = j(r#"{
        "properties": {
            "visibility": "public",
            "async": false,
            "const": false,
            "unsafe": false,
            "abi": null,
            "generic_parameters": null,
            "where_clause": null,
            "return_state": "declared",
            "return_type": "i32"
        }
    }"#);
    let parameters = [
        j(r#"{"properties": {"pattern": "input", "declared_type": "i32"}}"#),
        j(r#"{"properties": {"pattern": "limit", "declared_type": "i32"}}"#),
    ];

    assert_eq!(
        display_signature(&root, &signature, &parameters).expect("declared display signature"),
        "pub fn clamp(input: i32, limit: i32) -> i32"
    );
}

#[test]
fn display_signature_prefers_the_declared_card_and_normalizes_it() {
    let root = j(r#"{"name": "f", "properties": {"declared_signature": "  pub   fn\tf(x:  u8)\n "}}"#);
    let unusable = j(r#"{"properties": 3}"#);
    assert_eq!(
        display_signature(&root, &unusable, &[]).expect("card"),
        "pub fn f(x: u8)"
    );
}

#[test]
fn display_signature_assembles_every_declared_part() {
    let root = j(r#"{"name": "run", "properties": {"declared_signature": "   "}}"#);
    let signature = signature(
        r#"{
            "visibility": "restricted", "const": true, "async": true, "unsafe": true,
            "abi": " C ", "generic_parameters": "<T:  Copy>", "where_clause": "where  T: Send",
            "return_state": "unit_default"
        }"#,
    );
    let parameters = [j(r#"{"properties": {"pattern": " value ", "declared_type": null}}"#)];
    assert_eq!(
        display_signature(&root, &signature, &parameters).expect("assembled"),
        "pub(…) const async unsafe extern \"C\" fn run<T: Copy>(value) where T: Send"
    );
}

#[test]
fn display_signature_rejects_undeclared_or_malformed_facts() {
    let root = j(r#"{"name": "g"}"#);
    let base = r#""const": false, "async": false, "unsafe": false"#;
    let cases = [
        format!(r#"{{"visibility": "galaxy", {base}, "return_state": "unit_default"}}"#),
        format!(r#"{{"visibility": "private", "const": false, "async": false, "return_state": "unit_default"}}"#),
        format!(r#"{{"visibility": "private", {base}, "return_state": "declared"}}"#),
        format!(r#"{{"visibility": "private", {base}, "return_state": "unit_default", "return_type": "u8"}}"#),
        format!(r#"{{"visibility": "private", {base}, "return_state": "unit_default", "abi": "  "}}"#),
        format!(r#"{{"visibility": "private", {base}, "return_state": "elsewhere"}}"#),
    ];
    for case in &cases {
        assert_eq!(
            display_signature(&root, &signature(case), &[]),
            Err(FunctionContextError::InvalidSnapshot),
            "{case}"
        );
    }
    let good = format!(r#"{{"visibility": "crate", {base}, "return_state": "unit_default"}}"#);
    assert_eq!(
        display_signature(&root, &signature(&good), &[]).expect("crate visibility"),
        "pub(crate) fn g()"
    );
    let blank_pattern = [j(r#"{"properties": {"pattern": "  "}}"#)];
    assert_eq!(
        display_signature(&root, &signature(&good), &blank_pattern),
        Err(FunctionContextError::InvalidSnapshot)
    );
    let nameless = j(r#"{"name": ""}"#);
    assert_eq!(
        display_signature(&nameless, &signature(&good), &[]),
        Err(FunctionContextError::InvalidSnapshot)
    );
}

#[test]
fn normalized_component_joins_words_with_single_spaces() {
    assert_eq!(normalized_component("  a \t b\u{3000}\u{a0}c\n"), "a b c");
    assert_eq!(normalized_component(" \u{2028} "), "");
    assert_eq!(normalized_component("plain"), "plain");
}

#[test]
fn normalizing_twice_changes_nothing_more() {
    for text in ["  x  y ", "\u{85}a\u{2009}b\u{200a}", "", "one"] {
        let once = normalized_component(text);
        assert_eq!(normalized_component(&once), once);
        assert!(!once.starts_with(' ') && !once.ends_with(' ') && !once.contains("  "));
    }
}

#[test]
fn required_and_optional_strings() {
    let record = j(r#"{"id": "r1", "empty": "", "target": "t", "blank": " ", "n": 1, "nothing": null}"#);
    assert_eq!(required_string(&record, "id"), Ok("r1"));
    assert_eq!(required_string(&record, "empty"), Err(FunctionContextError::InvalidSnapshot));
    assert_eq!(required_string(&record, "n"), Err(FunctionContextError::InvalidSnapshot));
    assert_eq!(relationship_target(&record), Ok("t"));
    assert_eq!(optional_non_empty_string(record.get("absent")), Ok(None));
    assert_eq!(optional_non_empty_string(record.get("nothing")), Ok(None));
    assert_eq!(optional_non_empty_string(record.get("id")), Ok(Some("r1")));
    assert_eq!(
        optional_non_empty_string(record.get("blank")),
        Err(FunctionContextError::InvalidSnapshot)
    );
    assert_eq!(
        optional_non_empty_string(record.get("n")),
        Err(FunctionContextError::InvalidSnapshot)
    );
}

#[test]
fn function_context_limits_report_the_first_excess() {
    let within = FunctionContextCounts::default();
    assert_eq!(validate_function_context_limits(within), Ok(()));
    let mut counts = FunctionContextCounts::default();
    counts.parameters = MAX_R17_FUNCTION_PARAMETERS + 1;
    counts.linked_subjects = MAX_R17_LINKED_SUBJECTS + 1;
    assert_eq!(
        validate_function_context_limits(counts),
        Err(FunctionContextError::LimitExceeded {
            limit: "function_parameters",
            maximum: MAX_R17_FUNCTION_PARAMETERS,
            observed: MAX_R17_FUNCTION_PARAMETERS + 1,
        })
    );
    counts.parameters = MAX_R17_FUNCTION_PARAMETERS;
    assert_eq!(
        validate_function_context_limits(counts),
        Err(FunctionContextError::LimitExceeded {
            limit: "linked_subjects",
            maximum: MAX_R17_LINKED_SUBJECTS,
            observed: MAX_R17_LINKED_SUBJECTS + 1,
        })
    );
    assert_eq!(validate_function_context_output_bytes(MAX_R17_CONTEXT_OUTPUT_BYTES), Ok(()));
    assert_eq!(
        validate_function_context_output_bytes(MAX_R17_CONTEXT_OUTPUT_BYTES + 1),
        Err(FunctionContextError::LimitExceeded {
            limit: "context_output_bytes_including_lf",
            maximum: MAX_R17_CONTEXT_OUTPUT_BYTES,
            observed: MAX_R17_CONTEXT_OUTPUT_BYTES + 1,
        })
    );
}

#[test]
fn private_fields_name_the_member_or_the_url() {
    assert_eq!(validate_private_fields(&j(r#"{"a": [1, {"b": "c"}]}"#)), Ok(()));
    assert_eq!(
        validate_private_fields(&j(r#"{"a": [{"model_data": 1}]}"#)),
        Err(FunctionContextError::UnsafePayload("model_data".to_owned()))
    );
    assert_eq!(
        validate_private_fields(&j(r#"["see https://example.invalid"]"#)),
        Err(FunctionContextError::UnsafePayload("url".to_owned()))
    );
}

#[test]
fn viewer_and_policy_checks() {
    let good = b"<html><SCRIPT>let x = 1;</script></html>";
    assert!(safe_viewer(good));
    assert!(!safe_viewer(b"<script>fetch('/a')</script>"));
    assert!(!safe_viewer(b"<script></script><script></script>"));
    assert!(!safe_viewer(&[0xff, 0xfe]));
    let policy = "default-src 'none'; connect-src 'none'; worker-src 'none'; object-src 'none'; frame-src 'none'; form-action 'none'";
    assert!(safe_content_security_policy(policy));
    assert!(!safe_content_security_policy(&format!("{policy}; script-src 'unsafe-inline'")));
    assert!(!safe_content_security_policy(&policy.replace("default-src 'none';", "default-src 'self';")));
}

#[test]
fn selected_references_are_found_anywhere_in_values() {
    let entities = ids(&["e1"]);
    let relationships = ids(&["r1"]);
    assert!(contains_selected_reference(&j(r#"{"x": [{"y": "r1"}]}"#), &entities, &relationships));
    assert!(!contains_selected_reference(&j(r#"{"e1": ["other", 3]}"#), &entities, &relationships));
}

#[test]
fn evidence_identifiers_are_collected_in_order_without_repeats() {
    let mut collected = Vec::new();
    let value = j(r#"{
        "claim": {"evidence_ids": ["ev2", "ev1"], "source_evidence_id": "ev3"},
        "evidence_id": null,
        "items": [{"evidence_id": "ev1"}]
    }"#);
    assert_eq!(collect_evidence_ids(&value, &mut collected), Ok(()));
    assert_eq!(collected, ids(&["ev1", "ev2", "ev3"]));
    assert_eq!(
        collect_evidence_ids(&j(r#"{"evidence_id": 7}"#), &mut collected),
        Err(FunctionContextError::InvalidSnapshot)
    );
    assert_eq!(
        collect_evidence_ids(&j(r#"{"evidence_ids": "ev1"}"#), &mut collected),
        Err(FunctionContextError::InvalidSnapshot)
    );
}

#[test]
fn claim_subjects_must_be_selected() {
    let entities = ids(&["e1"]);
    let relationships = ids(&["r1"]);
    let claims = [
        j(r#"{"subject_id": "e1", "subject_kind": "entity"}"#),
        j(r#"{"subject_id": "r1", "subject_kind": "relationship"}"#),
    ];
    assert_eq!(validate_claim_subjects(&claims, &entities, &relationships), Ok(()));
    let crossed = [j(r#"{"subject_id": "e1", "subject_kind": "relationship"}"#)];
    assert_eq!(
        validate_claim_subjects(&crossed, &entities, &relationships),
        Err(FunctionContextError::InvalidRelationship)
    );
    let missing = [j(r#"{"subject_kind": "entity"}"#)];
    assert_eq!(
        validate_claim_subjects(&missing, &entities, &relationships),
        Err(FunctionContextError::InvalidSnapshot)
    );
}

#[test]
fn call_summary_lists_both_ends_in_key_order() {
    let relationship = j(r#"{"id": "rel"}"#);
    let source = j(r#"{"id": "s", "kind": "rust.function", "name": "caller"}"#);
    let target = j(r#"{"id": "t", "kind": "rust.method", "name": "callee"}"#);
    let summary = call_summary(&relationship, &source, &target).expect("summary");
    assert_eq!(
        summary,
        j(r#"{
            "relationship_id": "rel", "source_id": "s", "source_kind": "rust.function",
            "source_name": "caller", "state": "proven_unique_local", "target_id": "t",
            "target_kind": "rust.method", "target_name": "callee"
        }"#)
    );
    assert_eq!(
        call_summary(&relationship, &source, &j(r#"{"id": "t"}"#)),
        Err(FunctionContextError::InvalidSnapshot)
    );
}

#[test]
fn uncertainty_and_references_are_selected_in_order() {
    let graph = j(r#"{"diagnostics": [{"subject_id": "e2"}, {"subject_id": "e1"}, {"x": 1}, {"subject_id": "e1"}]}"#);
    assert_eq!(selected_uncertainty(&graph, "diagnostics", &ids(&["e1"])), Ok(vec![1, 3]));
    assert_eq!(
        selected_uncertainty(&graph, "coverage_gaps", &ids(&["e1"])),
        Err(FunctionContextError::InvalidSnapshot)
    );
    let record = j(r#"{"refs": ["a", "b"], "bad": ["a", 1]}"#);
    assert_eq!(collect_references(&record, "refs"), Ok(ids(&["a", "b"])));
    assert_eq!(collect_references(&record, "absent"), Ok(Vec::new()));
    assert_eq!(collect_references(&record, "bad"), Err(FunctionContextError::InvalidSnapshot));
}
