use codenoesis_contracts::json::Json;
use codenoesis_contracts::s4_r12::{is_k1_entity_kind, is_k1_kind, strictly_ordered as r12_strictly_ordered};
use codenoesis_contracts::s4_r13::{
    validate_evidence_path as r13_validate_evidence_path, validate_family as r13_validate_family,
    valid_sha256, R13ContractError,
};
use codenoesis_contracts::s4_r14::{
    balanced_script_elements, is_expression_entity_kind, is_expression_relationship_kind,
    validate_evidence_path, validate_family, validate_private_fields,
    validate_reference, validate_reference_array_if_present, R14ContractError,
};
use codenoesis_contracts::s4_r15::{
    is_local_flow_relationship_kind, portable_entity_evidence, portable_reachable,
    validate_portable_local_flow_index, LocalFlowProfile,
    strictly_ordered, validate_portable_derivation_semantics,
    validate_portable_lexical_derivation, validate_portable_syntax_derivation, R15ContractError,
};

fn to_json(value: &serde_json::Value) -> Json {
    match value {
        serde_json::Value::Null => Json::Null,
        serde_json::Value::Bool(b) => Json::Bool(*b),
        serde_json::Value::Number(n) => match n.as_u64() {
            Some(v) => Json::UInt(v),
            None => Json::NegInt(n.as_i64().expect("integer")),
        },
        serde_json::Value::String(s) => Json::Str(s.clone()),
        serde_json::Value::Array(items) => Json::Array(items.iter().map(to_json).collect()),
        serde_json::Value::Object(fields) => Json::Object(
            fields
                .iter()
                .map(|(k, v)| (k.clone(), to_json(v)))
                .collect(),
        ),
    }
}

fn j(text: &str) -> Json {
    to_json(&serde_json::from_str::<serde_json::Value>(text).expect("valid JSON"))
}

fn items(text: &str) -> Vec<Json> {
    match j(text) {
        Json::Array(items) => items,
        _ => panic!("array expected"),
    }
}

fn ids(values: &[&str]) -> Vec<String> {
    values.iter().map(|v| (*v).to_owned()).collect()
}

fn edges(pairs: &[(&str, &str)]) -> Vec<(String, String)> {
    pairs.iter().map(|(a, b)| ((*a).to_owned(), (*b).to_owned())).collect()
}

#[test]
fn kinds_of_each_layer() {
    assert!(is_k1_kind("CALLS"));
    assert!(!is_k1_kind("calls"));
    assert!(is_k1_entity_kind("rust.call_site"));
    assert!(!is_k1_entity_kind("rust.expression"));
    assert!(is_expression_entity_kind("rust.pattern_binding"));
    assert!(is_expression_relationship_kind("WRITES"));
    assert!(!is_expression_relationship_kind("CALLS"));
    assert!(is_local_flow_relationship_kind("LEXICAL_MAY_REACHES_READ"));
    assert!(!is_local_flow_relationship_kind("READS"));
}

#[test]
fn identifiers_must_strictly_increase() {
    assert!(r12_strictly_ordered(&["a", "b", "c"]));
    assert!(!r12_strictly_ordered(&["a", "a"]));
    assert!(strictly_ordered(&ids(&["α", "β"])));
    assert!(!strictly_ordered(&ids(&["b", "a"])));
    assert!(strictly_ordered(&[]));
}

#[test]
fn families_are_ordered_and_report_the_first_conflict() {
    let object = j(r#"{"entities": [{"id": "a"}, {"id": "b"}], "bad": [{"id": "b"}, {"id": "a"}], "empty": [{"id": ""}]}"#);
    assert_eq!(validate_family(&object, "entities", "id"), Ok(ids(&["a", "b"])));
    assert_eq!(
        validate_family(&object, "bad", "id"),
        Err(R14ContractError::IdentityConflict { family: "bad", id: "a".to_owned() })
    );
    assert_eq!(validate_family(&object, "empty", "id"), Err(R14ContractError::InvalidProjection));
    assert_eq!(validate_family(&object, "missing", "id"), Err(R14ContractError::InvalidProjection));
    assert_eq!(
        r13_validate_family(&object, "entities", "id"),
        Ok(ids(&["a", "b"]))
    );
}

#[test]
fn references_name_known_records() {
    let known = ids(&["a", "b"]);
    let record = j(r#"{"source": "a", "target": "z", "evidence_ids": ["b", "q"], "bad": [1]}"#);
    assert_eq!(validate_reference(&record, "source", &known, "relationships"), Ok(()));
    assert_eq!(
        validate_reference(&record, "target", &known, "relationships"),
        Err(R14ContractError::ReferenceMismatch { family: "relationships", id: "z".to_owned() })
    );
    assert_eq!(
        validate_reference(&record, "absent", &known, "relationships"),
        Err(R14ContractError::InvalidProjection)
    );
    assert_eq!(validate_reference_array_if_present(&record, "absent", &known, "claims"), Ok(()));
    assert_eq!(
        validate_reference_array_if_present(&record, "evidence_ids", &known, "claims"),
        Err(R14ContractError::ReferenceMismatch { family: "claims", id: "q".to_owned() })
    );
    assert_eq!(
        validate_reference_array_if_present(&record, "bad", &known, "claims"),
        Err(R14ContractError::InvalidProjection)
    );
}

#[test]
fn evidence_points_at_safe_paths_or_artifacts() {
    let digest = "a".repeat(64);
    assert_eq!(validate_evidence_path(&j(r#"{"path": "src/lib.rs"}"#)), Ok(()));
    assert_eq!(
        validate_evidence_path(&j(r#"{"path": "../lib.rs"}"#)),
        Err(R14ContractError::UnsafePayload { reason: "unsafe_evidence_path" })
    );
    assert_eq!(
        validate_evidence_path(&j(&format!(r#"{{"artifact_sha256": "{digest}", "document_path": "/etc/x"}}"#))),
        Err(R14ContractError::UnsafePayload { reason: "unsafe_document_path" })
    );
    assert_eq!(
        r13_validate_evidence_path(&j(&format!(r#"{{"artifact_sha256": "{digest}", "document_path": "/etc/x"}}"#))),
        Err(R13ContractError::UnsafePayload { reason: "unsafe_compiler_document_path" })
    );
    assert_eq!(
        validate_evidence_path(&j(&format!(r#"{{"artifact_sha256": "{digest}"}}"#))),
        Ok(())
    );
    assert_eq!(
        validate_evidence_path(&j(r#"{"artifact_sha256": "ABC"}"#)),
        Err(R14ContractError::InvalidProjection)
    );
    assert!(valid_sha256(&digest));
    assert!(!valid_sha256(&"A".repeat(64)));
}

#[test]
fn private_fields_and_urls_are_refused() {
    assert_eq!(validate_private_fields(&j(r#"{"a": {"b": [1, "x"]}}"#)), Ok(()));
    assert_eq!(
        validate_private_fields(&j(r#"{"a": {"arguments": []}}"#)),
        Err(R14ContractError::UnsafePayload { reason: "private_field" })
    );
    assert_eq!(
        validate_private_fields(&j(r#"{"a": "ftp://host"}"#)),
        Err(R14ContractError::UnsafePayload { reason: "raw_url" })
    );
}

#[test]
fn explorer_scripts_are_balanced() {
    assert!(balanced_script_elements(b"<Script>a</SCRIPT><script>b</script>"));
    assert!(!balanced_script_elements(b"<script>a"));
    assert!(!balanced_script_elements(b"no scripts"));
    assert!(!balanced_script_elements(&[0xc3]));
}

#[test]
fn reachability_follows_one_edge_or_more() {
    let adjacency = edges(&[("a", "b"), ("b", "c"), ("c", "b"), ("d", "a")]);
    assert_eq!(portable_reachable("a", &adjacency), ids(&["b", "c"]));
    assert_eq!(portable_reachable("d", &adjacency), ids(&["a", "b", "c"]));
    assert_eq!(portable_reachable("c", &adjacency), ids(&["b", "c"]));
    assert_eq!(portable_reachable("z", &adjacency), ids(&[]));
}

#[test]
fn reachability_composes() {
    let adjacency = edges(&[("a", "b"), ("b", "c"), ("c", "d")]);
    let from_a = portable_reachable("a", &adjacency);
    for middle in &from_a {
        for far in portable_reachable(middle, &adjacency) {
            assert!(from_a.contains(&far));
        }
    }
}

fn syntax_relationships() -> Vec<Json> {
    items(
        r#"[
        {"id": "r1", "kind": "SYNTAX_NEXT", "source": "s", "target": "m"},
        {"id": "r2", "kind": "SYNTAX_TRUE_BRANCH", "source": "m", "target": "t"},
        {"id": "r3", "kind": "SYNTAX_NEXT", "source": "m", "target": "x"},
        {"id": "r4", "kind": "READS", "source": "t", "target": "b"}
    ]"#,
    )
}

#[test]
fn syntax_derivations_list_exactly_the_paths() {
    let relationships = syntax_relationships();
    assert_eq!(
        validate_portable_syntax_derivation("s", "t", &ids(&["m", "s", "t"]), &ids(&["r1", "r2"]), &relationships),
        Ok(())
    );
    assert_eq!(
        validate_portable_syntax_derivation("s", "t", &ids(&["m", "s", "t", "x"]), &ids(&["r1", "r2"]), &relationships),
        Err(R15ContractError::InvalidProjection)
    );
    assert_eq!(
        validate_portable_syntax_derivation("s", "t", &ids(&["s", "m", "t"]), &ids(&["r1", "r2"]), &relationships),
        Err(R15ContractError::InvalidProjection)
    );
    assert_eq!(
        validate_portable_syntax_derivation("s", "t", &ids(&["m", "s", "t"]), &ids(&["r2", "r1"]), &relationships),
        Err(R15ContractError::InvalidProjection)
    );
}

fn lexical_entities() -> Vec<Json> {
    items(
        r#"[
        {"id": "w", "kind": "rust.expression", "callable_id": "f", "locator": {"start_byte": 1}, "evidence_id": "ev1"},
        {"id": "rd", "kind": "rust.expression", "callable_id": "f", "locator": {"start_byte": 9}, "evidence_ids": ["ev2", "ev1"]},
        {"id": "b", "kind": "rust.pattern_binding", "callable_id": "f", "locator": {"start_byte": 0}, "evidence_id": "ev3"}
    ]"#,
    )
}

fn lexical_relationships() -> Vec<Json> {
    items(
        r#"[
        {"id": "l1", "kind": "LEXICAL_MUST_REACHES_READ", "source": "w", "target": "rd"},
        {"id": "rr", "kind": "READS", "source": "rd", "target": "b"},
        {"id": "ww", "kind": "WRITES", "source": "w", "target": "b"},
        {"id": "sn", "kind": "SYNTAX_NEXT", "source": "w", "target": "rd"}
    ]"#,
    )
}

#[test]
fn lexical_derivations_follow_one_write_and_one_read() {
    let entities = lexical_entities();
    let relationships = lexical_relationships();
    assert_eq!(
        validate_portable_lexical_derivation("w", "rd", &ids(&["rd", "w"]), &ids(&["rr", "sn", "ww"]), &entities, &relationships),
        Ok(())
    );
    assert_eq!(
        validate_portable_lexical_derivation("w", "rd", &ids(&["rd", "w"]), &ids(&["sn", "ww"]), &entities, &relationships),
        Err(R15ContractError::InvalidProjection)
    );
    assert_eq!(
        validate_portable_lexical_derivation("rd", "w", &ids(&["rd", "w"]), &ids(&["rr"]), &entities, &relationships),
        Err(R15ContractError::InvalidProjection)
    );
}

#[test]
fn derivation_semantics_check_evidence_and_dispatch_on_kind() {
    let entities = lexical_entities();
    let relationships = lexical_relationships();
    let derivation = j(
        r#"{"relationship_id": "l1", "input_entity_ids": ["rd", "w"], "input_relationship_ids": ["rr", "sn", "ww"], "input_evidence_ids": ["ev1", "ev2"]}"#,
    );
    assert_eq!(validate_portable_derivation_semantics(&derivation, &entities, &relationships), Ok(()));
    let wrong_evidence = j(
        r#"{"relationship_id": "l1", "input_entity_ids": ["rd", "w"], "input_relationship_ids": ["rr", "sn", "ww"], "input_evidence_ids": ["ev2", "ev1"]}"#,
    );
    assert_eq!(
        validate_portable_derivation_semantics(&wrong_evidence, &entities, &relationships),
        Err(R15ContractError::InvalidProjection)
    );
    let unknown = j(
        r#"{"relationship_id": "nope", "input_entity_ids": [], "input_relationship_ids": [], "input_evidence_ids": []}"#,
    );
    assert_eq!(
        validate_portable_derivation_semantics(&unknown, &entities, &relationships),
        Err(R15ContractError::InvalidProjection)
    );
}

#[test]
fn entity_evidence_is_an_ordered_nonempty_set() {
    assert_eq!(
        portable_entity_evidence(&j(r#"{"evidence_id": "b", "evidence_ids": ["c", "a", "b"]}"#)),
        Ok(ids(&["a", "b", "c"]))
    );
    assert_eq!(portable_entity_evidence(&j(r#"{}"#)), Err(R15ContractError::InvalidProjection));
    assert_eq!(
        portable_entity_evidence(&j(r#"{"evidence_ids": "a"}"#)),
        Err(R15ContractError::InvalidProjection)
    );
}

#[test]
fn a_safe_function_context_viewer_has_balanced_scripts() {
    for viewer in [&b"<script>var a = 1;</script>"[..], b"<html><Script>x</Script></html>"] {
        assert!(codenoesis_contracts::s4_r17::safe_viewer(viewer));
        assert!(balanced_script_elements(viewer));
    }
}

fn local_flow_object() -> Json {
    j(r#"{
        "entities": [
            {"id": "w", "kind": "rust.expression", "callable_id": "f", "locator": {"start_byte": 1}, "evidence_id": "ev1"},
            {"id": "rd", "kind": "rust.expression", "callable_id": "f", "locator": {"start_byte": 9}, "evidence_ids": ["ev2", "ev1"]},
            {"id": "b", "kind": "rust.pattern_binding", "callable_id": "f", "locator": {"start_byte": 0}, "evidence_id": "ev3"}
        ],
        "relationships": [
            {"id": "l1", "kind": "LEXICAL_MUST_REACHES_READ", "source": "w", "target": "rd"},
            {"id": "rr", "kind": "READS", "source": "rd", "target": "b"},
            {"id": "ww", "kind": "WRITES", "source": "w", "target": "b"},
            {"id": "sn", "kind": "SYNTAX_NEXT", "source": "w", "target": "rd"}
        ],
        "local_flow_index": {
            "schema_version": "index/v1",
            "rule_version": "rule/v1",
            "block_entity_ids": [],
            "flow_node_relationship_ids": [],
            "condition_relationship_ids": [],
            "direct_syntax_relationship_ids": ["sn"],
            "reachability_relationship_ids": [],
            "must_reach_relationship_ids": ["l1"],
            "may_reach_relationship_ids": [],
            "completed_callable_ids": ["b", "w"],
            "derivations": [
                {"rule_version": "rule/v1", "relationship_id": "l1", "input_entity_ids": ["rd", "w"],
                 "input_relationship_ids": ["rr", "sn", "ww"], "input_evidence_ids": ["ev1", "ev2"]}
            ]
        }
    }"#)
}

fn profile(max_relationships: u64, max_derivation_inputs: u64) -> LocalFlowProfile {
    LocalFlowProfile {
        index_version: "index/v1".to_owned(),
        rule_version: "rule/v1".to_owned(),
        max_relationships,
        max_derivation_inputs,
    }
}

#[test]
fn local_flow_index_matches_the_graph_and_its_limits() {
    let object = local_flow_object();
    let entity_ids = ids(&["b", "rd", "w"]);
    let relationship_ids = ids(&["l1", "rr", "sn", "ww"]);
    let evidence_ids = ids(&["ev1", "ev2", "ev3"]);
    let check = |p: &LocalFlowProfile| {
        validate_portable_local_flow_index(&object, &entity_ids, &relationship_ids, &evidence_ids, p)
    };
    assert_eq!(check(&profile(10, 7)), Ok(()));
    assert_eq!(
        check(&profile(10, 6)),
        Err(R15ContractError::LimitExceeded { limit: "derivation_input_references", maximum: 6, observed: 7 })
    );
    assert_eq!(
        check(&profile(0, 7)),
        Err(R15ContractError::LimitExceeded { limit: "local_flow_derivations", maximum: 0, observed: 1 })
    );
    let mut other_rule = profile(10, 7);
    other_rule.rule_version = "rule/v2".to_owned();
    assert_eq!(check(&other_rule), Err(R15ContractError::InvalidProjection));
    assert_eq!(
        validate_portable_local_flow_index(&object, &ids(&["b", "rd"]), &relationship_ids, &evidence_ids, &profile(10, 7)),
        Err(R15ContractError::InvalidProjection)
    );
}
