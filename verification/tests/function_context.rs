use codenoesis_contracts::context::FunctionContextV1;
use codenoesis_contracts::json::Json;
use codenoesis_contracts::s4_r17::FunctionContextError;
use codenoesis_contracts::s4_r18::{LocalSnapshotHead, SnapshotVersions};

fn to_json(value: &serde_json::Value) -> Json {
    match value {
        serde_json::Value::Null => Json::Null,
        serde_json::Value::Bool(b) => Json::Bool(*b),
        serde_json::Value::Number(n) => match n.as_u64() {
            Some(v) => Json::UInt(v),
            None => Json::NegInt(n.as_i64().expect("integer")),
        },
        serde_json::Value::String(s) => Json::Str(s.clone()),
        serde_json::Value::Array(items) => Json::Array(items.iter().map(to_json).collect()),
        serde_json::Value::Object(fields) => Json::Object(
            fields
                .iter()
                .map(|(k, v)| (k.clone(), to_json(v)))
                .collect(),
        ),
    }
}

fn head() -> LocalSnapshotHead {
    LocalSnapshotHead {
        snapshot_schema_version: "codenoesis.repository-snapshot/v18".to_owned(),
        repository_identity: "urn:codenoesis:repo".to_owned(),
        commit_oid: "c0ffee".to_owned(),
        snapshot_id: "snap-1".to_owned(),
        semantic_hash_algorithm: "blake3-256".to_owned(),
        semantic_hash: "aa".repeat(32),
        graph_semantic_hash: "bb".repeat(32),
    }
}

fn versions() -> SnapshotVersions {
    SnapshotVersions {
        snapshot: "codenoesis.repository-snapshot/v18".to_owned(),
        graph: "codenoesis.knowledge-graph/v15".to_owned(),
        ontology: "codenoesis.ontology/v16".to_owned(),
    }
}

fn semantic() -> serde_json::Value {
    serde_json::from_str(
        r#"{
        "repository": {"identity": "urn:codenoesis:repo", "commit_oid": "c0ffee", "tree_oid": "7ree"},
        "knowledge_graph": {
            "entities": [
                {"id": "fn:clamp", "kind": "rust.function", "name": "clamp", "owner_id": "mod:m",
                 "evidence_id": "ev:1", "properties": {}},
                {"id": "mod:m", "kind": "rust.module", "name": "m"},
                {"id": "sig:clamp", "kind": "rust.callable_signature", "name": "clamp", "subject_id": "fn:clamp",
                 "properties": {"visibility": "public", "const": false, "async": false, "unsafe": false,
                                "abi": null, "generic_parameters": null, "where_clause": null,
                                "return_state": "declared", "return_type": "i32"}},
                {"id": "p:1", "kind": "rust.parameter", "subject_id": "fn:clamp", "ordinal": 1, "name": "limit",
                 "properties": {"pattern": "limit", "declared_type": "i32"}},
                {"id": "p:0", "kind": "rust.parameter", "subject_id": "fn:clamp", "ordinal": 0, "name": "input",
                 "properties": {"pattern": "input", "declared_type": "i32"}},
                {"id": "b:1", "kind": "rust.local_binding", "subject_id": "fn:clamp", "ordinal": 0, "name": "x"},
                {"id": "fn:main", "kind": "rust.function", "name": "main"},
                {"id": "fn:other", "kind": "rust.function", "name": "other"}
            ],
            "relationships": [
                {"id": "r:sig", "kind": "HAS_SIGNATURE", "source": "fn:clamp", "target": "sig:clamp"},
                {"id": "r:p1", "kind": "HAS_PARAMETER", "source": "sig:clamp", "target": "p:1"},
                {"id": "r:p0", "kind": "HAS_PARAMETER", "source": "sig:clamp", "target": "p:0"},
                {"id": "r:b1", "kind": "HAS_BODY_FACT", "source": "fn:clamp", "target": "b:1"},
                {"id": "r:call", "kind": "CALLS", "source": "fn:main", "target": "fn:clamp", "evidence_ids": ["ev:2"]},
                {"id": "r:unrelated", "kind": "CALLS", "source": "fn:main", "target": "fn:other"}
            ],
            "claims": [
                {"id": "c:1", "subject_kind": "entity", "subject_id": "fn:clamp", "evidence_ids": ["ev:1"]},
                {"id": "c:2", "subject_kind": "entity", "subject_id": "fn:other"}
            ],
            "evidence": [
                {"id": "ev:1", "path": "src/lib.rs"},
                {"id": "ev:2", "path": "src/main.rs", "related_evidence_id": "ev:3"},
                {"id": "ev:3", "path": "src/extra.rs"}
            ],
            "diagnostics": [{"id": "d:1", "subject_id": "p:0"}, {"id": "d:2", "subject_id": "fn:other"}],
            "coverage": [],
            "local_flow_index": {"derivations": []},
            "constant_evaluation_index": {"derivations": [{"relationship_id": "r:b1", "input_claim_ids": ["c:1"]}]}
        }
    }"#,
    )
    .expect("fixture parses")
}

fn context(value: &serde_json::Value, requested: &str) -> Result<FunctionContextV1, FunctionContextError> {
    FunctionContextV1::from_validated_v18(&to_json(value), &head(), requested, true, &versions())
}

fn ids(value: &serde_json::Value) -> Vec<String> {
    value
        .as_array()
        .unwrap()
        .iter()
        .map(|record| record["id"].as_str().unwrap().to_owned())
        .collect()
}

#[test]
fn function_context_projects_the_callable() {
    let built = context(&semantic(), "fn:clamp").expect("context builds");
    let bytes = built.canonical_stdout().expect("output fits");
    assert_eq!(bytes.last(), Some(&b'\n'));
    let doc: serde_json::Value = serde_json::from_slice(&bytes[..bytes.len() - 1]).unwrap();
    assert_eq!(doc["schema_version"], "codenoesis.function-context/v1");
    assert_eq!(doc["authority"], "declared_source_only");
    assert_eq!(doc["callable"]["id"], "fn:clamp");
    assert_eq!(doc["owner"]["id"], "mod:m");
    assert_eq!(doc["signature"]["id"], "sig:clamp");
    assert_eq!(ids(&doc["parameters"]), vec!["p:0", "p:1"]);
    assert_eq!(ids(&doc["body_facts"]), vec!["b:1"]);
    assert_eq!(doc["calls"]["outgoing"], serde_json::Value::Array(Vec::new()));
    assert_eq!(doc["calls"]["incoming"][0]["relationship_id"], "r:call");
    assert_eq!(doc["calls"]["incoming"][0]["source_name"], "main");
    assert_eq!(ids(&doc["relationships"]), vec!["r:b1", "r:call", "r:p0", "r:p1", "r:sig"]);
    assert_eq!(ids(&doc["claims"]), vec!["c:1"]);
    assert_eq!(ids(&doc["evidence"]), vec!["ev:1", "ev:2", "ev:3"]);
    assert_eq!(ids(&doc["diagnostics"]), vec!["d:1"]);
    assert_eq!(doc["derivations"].as_array().unwrap().len(), 1);
    assert_eq!(doc["display_signature"], "pub fn clamp(input: i32, limit: i32) -> i32");
    assert_eq!(doc["limitations"].as_array().unwrap().len(), 8);
    assert_eq!(doc["source"]["tree_oid"], "7ree");
    assert_eq!(doc["source"]["snapshot_id"], "snap-1");
    assert_eq!(doc["source"]["graph_schema_version"], "codenoesis.knowledge-graph/v15");
    let navigation = doc["navigation"].as_array().unwrap();
    let nav_ids: Vec<&str> = navigation.iter().map(|entry| entry["id"].as_str().unwrap()).collect();
    assert_eq!(nav_ids, vec!["b:1", "fn:clamp", "fn:main", "mod:m", "p:0", "p:1", "sig:clamp"]);
    assert_eq!(navigation[1]["roles"], serde_json::from_str::<serde_json::Value>(r#"["callable"]"#).unwrap());
    assert_eq!(
        navigation[1]["relationship_ids"],
        serde_json::from_str::<serde_json::Value>(r#"["r:b1", "r:call", "r:sig"]"#).unwrap()
    );
    assert_eq!(navigation[2]["roles"], serde_json::from_str::<serde_json::Value>(r#"["incoming_caller"]"#).unwrap());
    assert_eq!(navigation[3]["roles"], serde_json::from_str::<serde_json::Value>(r#"["owner"]"#).unwrap());
}

#[test]
fn function_context_reports_the_first_refusal() {
    let value = semantic();
    assert!(matches!(
        FunctionContextV1::from_validated_v18(&to_json(&value), &head(), "fn:clamp", false, &versions()),
        Err(FunctionContextError::InvalidSnapshot)
    ));
    assert!(matches!(context(&value, "fn:missing"), Err(FunctionContextError::NotFound)));
    assert!(matches!(context(&value, "mod:m"), Err(FunctionContextError::InvalidRootKind)));
    assert!(matches!(context(&value, "fn:main"), Err(FunctionContextError::MissingSignature)));
    let mut doubled = semantic();
    doubled["knowledge_graph"]["relationships"]
        .as_array_mut()
        .unwrap()
        .push(serde_json::from_str(r#"{"id": "r:sig2", "kind": "HAS_SIGNATURE", "source": "fn:clamp", "target": "sig:clamp"}"#).unwrap());
    assert!(matches!(context(&doubled, "fn:clamp"), Err(FunctionContextError::DuplicateSignature)));
    let mut gap = semantic();
    gap["knowledge_graph"]["entities"][3]["ordinal"] = serde_json::Value::from(2u64);
    assert!(matches!(context(&gap, "fn:clamp"), Err(FunctionContextError::InvalidParameterOrdinal)));
    let mut repeated = semantic();
    repeated["knowledge_graph"]["entities"][1]["id"] = serde_json::Value::String("fn:clamp".to_owned());
    assert!(matches!(context(&repeated, "fn:clamp"), Err(FunctionContextError::InvalidSnapshot)));
    let mut dangling = semantic();
    dangling["knowledge_graph"]["relationships"][4]["evidence_ids"] =
        serde_json::from_str(r#"["ev:9"]"#).unwrap();
    match context(&dangling, "fn:clamp") {
        Err(FunctionContextError::DanglingReference(id)) => assert_eq!(id, "ev:9"),
        other => panic!("expected a dangling reference, got {other:?}"),
    }
    let mut private = semantic();
    private["knowledge_graph"]["entities"][0]["properties"]["body_text"] = serde_json::Value::String("x".to_owned());
    match context(&private, "fn:clamp") {
        Err(FunctionContextError::UnsafePayload(field)) => assert_eq!(field, "body_text"),
        other => panic!("expected an unsafe payload, got {other:?}"),
    }
}
