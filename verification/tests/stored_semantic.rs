use codenoesis_contracts::json::Json;
use codenoesis_contracts::s4_r15::{
    validate_stored_r15_semantic, LocalFlowProfile, R15ContractError, SemanticVersionsV15,
};

fn to_json(value: &serde_json::Value) -> Json {
    match value {
        serde_json::Value::Null => Json::Null,
        serde_json::Value::Bool(b) => Json::Bool(*b),
        serde_json::Value::Number(n) => match n.as_u64() {
            Some(v) => Json::UInt(v),
            None => Json::NegInt(n.as_i64().expect("integer")),
        },
        serde_json::Value::String(s) => Json::Str(s.clone()),
        serde_json::Value::Array(items) => Json::Array(items.iter().map(to_json).collect()),
        serde_json::Value::Object(fields) => Json::Object(
            fields
                .iter()
                .map(|(k, v)| (k.clone(), to_json(v)))
                .collect(),
        ),
    }
}

fn versions() -> SemanticVersionsV15 {
    SemanticVersionsV15 {
        pipeline: "pipeline/v15".to_owned(),
        ontology: "ontology/v15".to_owned(),
        configuration: "configuration/v15".to_owned(),
        flow_profile: "rust-flow/v1".to_owned(),
        extractor: "extractor/v15".to_owned(),
        graph: "graph/v15".to_owned(),
    }
}

fn flow_profile() -> LocalFlowProfile {
    LocalFlowProfile {
        index_version: "index/v1".to_owned(),
        rule_version: "rule/v1".to_owned(),
        max_relationships: 10,
        max_derivation_inputs: 7,
    }
}

fn semantic() -> serde_json::Value {
    serde_json::from_str(
        r#"{
        "pipeline_version": "pipeline/v15",
        "ontology_version": "ontology/v15",
        "configuration": {"schema_version": "configuration/v15", "rust_flow_profile": "rust-flow/v1"},
        "extractor_versions": ["extractor/v14", "extractor/v15"],
        "knowledge_graph": {
            "schema_version": "graph/v15",
            "ontology_version": "ontology/v15",
            "entities": [
                {"id": "b", "kind": "rust.pattern_binding", "callable_id": "f", "locator": {"start_byte": 0}, "evidence_id": "ev3"},
                {"id": "rd", "kind": "rust.expression", "callable_id": "f", "locator": {"start_byte": 9}, "evidence_ids": ["ev1", "ev2"]},
                {"id": "w", "kind": "rust.expression", "callable_id": "f", "locator": {"start_byte": 1}, "evidence_id": "ev1"}
            ],
            "relationships": [
                {"id": "l1", "kind": "LEXICAL_MUST_REACHES_READ", "source": "w", "target": "rd"},
                {"id": "rr", "kind": "READS", "source": "rd", "target": "b"},
                {"id": "sn", "kind": "SYNTAX_NEXT", "source": "w", "target": "rd"},
                {"id": "ww", "kind": "WRITES", "source": "w", "target": "b"}
            ],
            "evidence": [{"id": "ev1"}, {"id": "ev2"}, {"id": "ev3"}],
            "claims": [{"id": "c1", "subject_kind": "relationship", "subject_id": "rr", "evidence_ids": ["ev2"]}],
            "diagnostics": [],
            "coverage": [{"id": "cv1", "evidence_ids": ["ev3"]}],
            "local_flow_index": {
                "schema_version": "index/v1",
                "rule_version": "rule/v1",
                "block_entity_ids": [],
                "flow_node_relationship_ids": [],
                "condition_relationship_ids": [],
                "direct_syntax_relationship_ids": ["sn"],
                "reachability_relationship_ids": [],
                "must_reach_relationship_ids": ["l1"],
                "may_reach_relationship_ids": [],
                "completed_callable_ids": ["b", "w"],
                "derivations": [
                    {"rule_version": "rule/v1", "relationship_id": "l1", "input_entity_ids": ["rd", "w"],
                     "input_relationship_ids": ["rr", "sn", "ww"], "input_evidence_ids": ["ev1", "ev2"]}
                ]
            }
        }
    }"#,
    )
    .expect("fixture parses")
}

#[test]
fn stored_r15_semantic_validates() {
    assert_eq!(validate_stored_r15_semantic(&to_json(&semantic()), &versions(), &flow_profile()), Ok(()));
}

#[test]
fn stored_r15_semantic_without_extractor_is_invalid() {
    let mut value = semantic();
    value["extractor_versions"] = serde_json::Value::Array(vec![serde_json::Value::String("extractor/v14".to_owned())]);
    assert_eq!(
        validate_stored_r15_semantic(&to_json(&value), &versions(), &flow_profile()),
        Err(R15ContractError::InvalidSnapshot)
    );
}

#[test]
fn stored_r15_semantic_with_wrong_graph_schema_is_invalid() {
    let mut value = semantic();
    value["knowledge_graph"]["schema_version"] = serde_json::Value::String("graph/v14".to_owned());
    assert_eq!(
        validate_stored_r15_semantic(&to_json(&value), &versions(), &flow_profile()),
        Err(R15ContractError::InvalidSnapshot)
    );
}

#[test]
fn stored_r15_claim_on_unknown_subject_is_a_reference_mismatch() {
    let mut value = semantic();
    value["knowledge_graph"]["claims"][0]["subject_kind"] = serde_json::Value::String("entity".to_owned());
    assert_eq!(
        validate_stored_r15_semantic(&to_json(&value), &versions(), &flow_profile()),
        Err(R15ContractError::ReferenceMismatch { family: "claims", id: "rr".to_owned() })
    );
}

#[test]
fn stored_r15_claim_without_subject_is_invalid() {
    let mut value = semantic();
    value["knowledge_graph"]["claims"][0].as_object_mut().expect("object").remove("subject_id");
    assert_eq!(
        validate_stored_r15_semantic(&to_json(&value), &versions(), &flow_profile()),
        Err(R15ContractError::InvalidSnapshot)
    );
}

#[test]
fn stored_r15_entity_with_unknown_evidence_is_a_reference_mismatch() {
    let mut value = semantic();
    value["knowledge_graph"]["entities"][0]["evidence_id"] = serde_json::Value::String("ev9".to_owned());
    assert_eq!(
        validate_stored_r15_semantic(&to_json(&value), &versions(), &flow_profile()),
        Err(R15ContractError::ReferenceMismatch { family: "entities", id: "ev9".to_owned() })
    );
}

#[test]
fn stored_r15_local_flow_limit_is_reported() {
    let mut tight = flow_profile();
    tight.max_relationships = 0;
    assert_eq!(
        validate_stored_r15_semantic(&to_json(&semantic()), &versions(), &tight),
        Err(R15ContractError::LimitExceeded { limit: "local_flow_derivations", maximum: 0, observed: 1 })
    );
}
