use codenoesis_contracts::explorer::{
    LocalExplorerManifestV5, LocalExplorerManifestV7, LocalExplorerManifestV8,
};
use codenoesis_contracts::json::Json;
use codenoesis_contracts::s4_r12::{
    validate_portable_v5_structure, PortableGraphV5, PortableVersionsV5, R12ContractError,
};
use codenoesis_contracts::s4_r14::{
    validate_portable_v7_structure, PortableGraphV7, PortableVersionsV7, R14ContractError,
};
use codenoesis_contracts::s4_r15::{
    validate_portable_v8_structure, LocalFlowProfile, PortableGraphV8, PortableVersionsV8,
    R15ContractError,
};

fn to_json(value: &serde_json::Value) -> Json {
    match value {
        serde_json::Value::Null => Json::Null,
        serde_json::Value::Bool(b) => Json::Bool(*b),
        serde_json::Value::Number(n) => match n.as_u64() {
            Some(v) => Json::UInt(v),
            None => Json::NegInt(n.as_i64().expect("integer")),
        },
        serde_json::Value::String(s) => Json::Str(s.clone()),
        serde_json::Value::Array(items) => Json::Array(items.iter().map(to_json).collect()),
        serde_json::Value::Object(fields) => Json::Object(
            fields
                .iter()
                .map(|(k, v)| (k.clone(), to_json(v)))
                .collect(),
        ),
    }
}

fn fake_sha256(bytes: &[u8]) -> String {
    let sum: u64 = bytes.iter().map(|b| u64::from(*b)).sum();
    format!("{:032x}{:032x}", bytes.len(), sum)
}

fn seal(mut value: serde_json::Value, families: &[&str]) -> serde_json::Value {
    let mut digests = serde_json::Map::new();
    for family in families {
        let bytes = serde_json::to_vec(&value[*family]).expect("serialises");
        digests.insert((*family).to_owned(), serde_json::Value::String(fake_sha256(&bytes)));
    }
    value["projection"]["family_sha256"] = serde_json::Value::Object(digests);
    value
}

fn canonical(value: &serde_json::Value) -> Vec<u8> {
    let mut bytes = serde_json::to_vec(value).expect("serialises");
    bytes.push(b'\n');
    bytes
}

const EIGHT: [&str; 8] = [
    "entities",
    "relationships",
    "claims",
    "evidence",
    "diagnostics",
    "coverage_gaps",
    "documents",
    "document_statements",
];

fn v7_versions() -> PortableVersionsV7 {
    PortableVersionsV7 {
        portable_graph: "portable/v7".to_owned(),
        ontology: "ontology/v14".to_owned(),
        query: "query/v11".to_owned(),
        snapshot: "snapshot/v16".to_owned(),
    }
}

fn v7_graph() -> serde_json::Value {
    serde_json::from_str(
        r#"{
        "schema_version": "portable/v7",
        "ontology_version": "ontology/v14",
        "query_contract_version": "query/v11",
        "repository": {"identity": "urn:codenoesis:repository:demo"},
        "source_snapshot": {"schema_version": "snapshot/v16"},
        "projection": {"profile": "codenoesis.lossless-portable-projection/v7", "family_sha256": {}},
        "entities": [{"id": "e:1", "kind": "rust.function", "evidence_id": "ev:1"}],
        "relationships": [{"id": "r:1", "kind": "CALLS", "source": "e:1", "target": "e:1", "evidence_ids": ["ev:1"]}],
        "claims": [{"id": "c:1", "subject_kind": "entity", "subject_id": "e:1", "evidence_ids": ["ev:1"]}],
        "evidence": [{"id": "ev:1", "path": "src/lib.rs"}],
        "diagnostics": [],
        "coverage_gaps": [{"id": "g:1", "evidence_ids": ["ev:1"]}],
        "documents": [{"document_id": "d:1", "subject_id": "e:1"}],
        "document_statements": [
            {"statement_id": "s:1", "document_id": "d:1", "subject_ids": ["e:1", "b:1"],
             "evidence_ids": ["ev:1", "bev:1"], "coverage_gap_ids": ["g:1"]}
        ],
        "repository_boundaries": {
            "schema_version": "codenoesis.repository-boundaries/v1", "profile": "local-gitlinks-v1",
            "boundaries": [{"boundary_id": "b:1", "path": "vendor/lib"}],
            "declarations": [], "evidence": [{"evidence_id": "bev:1"}], "coverage_gaps": []
        }
    }"#,
    )
    .expect("fixture parses")
}

#[test]
fn v7_graph_with_boundaries_validates_and_reimports() {
    let value = seal(v7_graph(), &EIGHT);
    assert_eq!(validate_portable_v7_structure(&to_json(&value), &v7_versions()), Ok(()));
    let bytes = canonical(&value);
    let graph = PortableGraphV7::from_canonical_file(&bytes, Some(to_json(&value)), &v7_versions(), fake_sha256)
        .expect("canonical graph imports");
    assert_eq!(graph.canonical_file(), bytes);
}

#[test]
fn v7_statement_needs_boundary_identifiers() {
    let mut value = v7_graph();
    value.as_object_mut().unwrap().remove("repository_boundaries");
    assert_eq!(
        validate_portable_v7_structure(&to_json(&seal(value, &EIGHT)), &v7_versions()),
        Err(R14ContractError::ReferenceMismatch { family: "document_statements", id: "b:1".to_owned() })
    );
}

#[test]
fn v7_unknown_single_evidence_is_a_reference_mismatch() {
    let mut value = v7_graph();
    value["entities"][0]["evidence_id"] = serde_json::Value::String("ev:9".to_owned());
    assert_eq!(
        validate_portable_v7_structure(&to_json(&seal(value, &EIGHT)), &v7_versions()),
        Err(R14ContractError::ReferenceMismatch { family: "entities", id: "ev:9".to_owned() })
    );
}

#[test]
fn v7_unsafe_boundary_is_invalid() {
    let mut value = v7_graph();
    value["repository_boundaries"]["boundaries"][0]["path"] = serde_json::Value::String("/etc".to_owned());
    assert_eq!(
        validate_portable_v7_structure(&to_json(&seal(value, &EIGHT)), &v7_versions()),
        Err(R14ContractError::InvalidProjection)
    );
}

fn v8_versions() -> PortableVersionsV8 {
    PortableVersionsV8 {
        portable_graph: "portable/v8".to_owned(),
        ontology: "ontology/v15".to_owned(),
        query: "query/v12".to_owned(),
        snapshot: "snapshot/v17".to_owned(),
    }
}

fn flow_profile() -> LocalFlowProfile {
    LocalFlowProfile {
        index_version: "index/v1".to_owned(),
        rule_version: "rule/v1".to_owned(),
        max_relationships: 10,
        max_derivation_inputs: 7,
    }
}

const NINE: [&str; 9] = [
    "entities",
    "relationships",
    "claims",
    "evidence",
    "diagnostics",
    "coverage_gaps",
    "documents",
    "document_statements",
    "local_flow_index",
];

fn v8_graph() -> serde_json::Value {
    serde_json::from_str(
        r#"{
        "schema_version": "portable/v8",
        "ontology_version": "ontology/v15",
        "query_contract_version": "query/v12",
        "repository": {"identity": "urn:codenoesis:repository:demo"},
        "source_snapshot": {"schema_version": "snapshot/v17"},
        "projection": {"profile": "codenoesis.lossless-portable-projection/v8", "family_sha256": {}},
        "entities": [
            {"id": "b", "kind": "rust.pattern_binding", "callable_id": "f", "locator": {"start_byte": 0}, "evidence_id": "ev3"},
            {"id": "rd", "kind": "rust.expression", "callable_id": "f", "locator": {"start_byte": 9}, "evidence_ids": ["ev2", "ev1"]},
            {"id": "w", "kind": "rust.expression", "callable_id": "f", "locator": {"start_byte": 1}, "evidence_id": "ev1"}
        ],
        "relationships": [
            {"id": "l1", "kind": "LEXICAL_MUST_REACHES_READ", "source": "w", "target": "rd"},
            {"id": "rr", "kind": "READS", "source": "rd", "target": "b"},
            {"id": "sn", "kind": "SYNTAX_NEXT", "source": "w", "target": "rd"},
            {"id": "ww", "kind": "WRITES", "source": "w", "target": "b"}
        ],
        "claims": [],
        "evidence": [
            {"id": "ev1", "path": "src/a.rs"}, {"id": "ev2", "path": "src/b.rs"}, {"id": "ev3", "path": "src/c.rs"}
        ],
        "diagnostics": [],
        "coverage_gaps": [],
        "documents": [],
        "document_statements": [],
        "local_flow_index": {
            "schema_version": "index/v1",
            "rule_version": "rule/v1",
            "block_entity_ids": [],
            "flow_node_relationship_ids": [],
            "condition_relationship_ids": [],
            "direct_syntax_relationship_ids": ["sn"],
            "reachability_relationship_ids": [],
            "must_reach_relationship_ids": ["l1"],
            "may_reach_relationship_ids": [],
            "completed_callable_ids": ["b", "w"],
            "derivations": [
                {"rule_version": "rule/v1", "relationship_id": "l1", "input_entity_ids": ["rd", "w"],
                 "input_relationship_ids": ["rr", "sn", "ww"], "input_evidence_ids": ["ev1", "ev2"]}
            ]
        }
    }"#,
    )
    .expect("fixture parses")
}

#[test]
fn v8_graph_with_local_flow_validates_and_reimports() {
    let value = seal(v8_graph(), &NINE);
    assert_eq!(validate_portable_v8_structure(&to_json(&value), &v8_versions(), &flow_profile()), Ok(()));
    let bytes = canonical(&value);
    let graph = PortableGraphV8::from_canonical_file(
        &bytes,
        Some(to_json(&value)),
        &v8_versions(),
        &flow_profile(),
        fake_sha256,
    )
    .expect("canonical graph imports");
    assert_eq!(graph.canonical_file(), bytes);
}

#[test]
fn v8_local_flow_limit_is_reported() {
    let value = seal(v8_graph(), &NINE);
    let mut tight = flow_profile();
    tight.max_relationships = 0;
    assert_eq!(
        validate_portable_v8_structure(&to_json(&value), &v8_versions(), &tight),
        Err(R15ContractError::LimitExceeded { limit: "local_flow_derivations", maximum: 0, observed: 1 })
    );
}

#[test]
fn v8_graph_with_boundaries_member_is_invalid() {
    let mut value = v8_graph();
    value["repository_boundaries"] = serde_json::Value::Null;
    assert_eq!(
        validate_portable_v8_structure(&to_json(&seal(value, &NINE)), &v8_versions(), &flow_profile()),
        Err(R15ContractError::InvalidProjection)
    );
}

fn v5_versions() -> PortableVersionsV5 {
    PortableVersionsV5 {
        portable_graph: "portable/v5".to_owned(),
        ontology: "ontology/v12".to_owned(),
        query: "query/v9".to_owned(),
        snapshot: "snapshot/v14".to_owned(),
    }
}

fn v5_graph() -> serde_json::Value {
    serde_json::from_str(
        r#"{
        "schema_version": "portable/v5",
        "ontology_version": "ontology/v12",
        "query_contract_version": "query/v9",
        "repository": {"identity": "urn:codenoesis:repository:demo"},
        "repository_boundaries": null,
        "source_snapshot": {"schema_version": "snapshot/v14"},
        "projection": {"profile": "codenoesis.lossless-portable-projection/v5", "family_sha256": {}},
        "entities": [
            {"id": "e:1", "kind": "rust.function", "owner_id": "e:2",
             "properties": {"evidence_id": "ev:1", "declaration_alternative_ids": ["e:1", "e:2"],
                            "attributes": [{"evidence_id": "ev:1"}]}},
            {"id": "e:2", "kind": "rust.module", "properties": {}}
        ],
        "relationships": [{"id": "r:1", "source": "e:2", "target": "e:1"}],
        "claims": [{"id": "c:1", "subject_kind": "relationship", "subject_id": "r:1"}],
        "evidence": [{"id": "ev:1", "blob_oid": "0123456789abcdef0123456789abcdef01234567",
                      "start_byte": 0, "end_byte": 4, "path": "src/lib.rs"}],
        "diagnostics": [{"id": "x:1", "subject_id": "e:1"}],
        "coverage_gaps": [{"id": "g:1", "declaration_id": "e:2"}],
        "documents": [{"document_id": "d:1", "subject_id": "urn:codenoesis:repository:demo", "path": "docs/a.md"}],
        "document_statements": [{"statement_id": "s:1", "document_id": "d:1", "subject_ids": ["d:1"]}]
    }"#,
    )
    .expect("fixture parses")
}

#[test]
fn v5_graph_validates_and_reimports() {
    let value = seal(v5_graph(), &EIGHT);
    assert_eq!(validate_portable_v5_structure(&to_json(&value), &v5_versions()), Ok(()));
    let bytes = canonical(&value);
    let graph = PortableGraphV5::from_canonical_file(&bytes, Some(to_json(&value)), &v5_versions(), fake_sha256)
        .expect("canonical graph imports");
    assert_eq!(graph.canonical_file(), bytes);
}

#[test]
fn v5_claim_without_kind_is_invalid() {
    let mut value = v5_graph();
    value["claims"][0].as_object_mut().unwrap().remove("subject_kind");
    assert_eq!(
        validate_portable_v5_structure(&to_json(&seal(value, &EIGHT)), &v5_versions()),
        Err(R12ContractError::InvalidProjection)
    );
}

#[test]
fn v5_unordered_alternatives_are_a_reference_mismatch() {
    let mut value = v5_graph();
    value["entities"][0]["properties"]["declaration_alternative_ids"] =
        serde_json::from_str(r#"["e:2", "e:1"]"#).unwrap();
    assert_eq!(
        validate_portable_v5_structure(&to_json(&seal(value, &EIGHT)), &v5_versions()),
        Err(R12ContractError::ReferenceMismatch { family: "entities", id: "e:1".to_owned() })
    );
}

#[test]
fn v5_repeated_identifier_conflicts_and_disorder_is_invalid() {
    let mut value = v5_graph();
    value["diagnostics"] = serde_json::from_str(r#"[{"id": "x:1"}, {"id": "x:1"}]"#).unwrap();
    assert_eq!(
        validate_portable_v5_structure(&to_json(&seal(value, &EIGHT)), &v5_versions()),
        Err(R12ContractError::IdentityConflict { family: "diagnostics", id: "x:1".to_owned() })
    );
    let mut value = v5_graph();
    value["diagnostics"] = serde_json::from_str(r#"[{"id": "x:2"}, {"id": "x:1"}]"#).unwrap();
    assert_eq!(
        validate_portable_v5_structure(&to_json(&seal(value, &EIGHT)), &v5_versions()),
        Err(R12ContractError::InvalidProjection)
    );
}

#[test]
fn v5_short_blob_is_invalid() {
    let mut value = v5_graph();
    value["evidence"][0]["blob_oid"] = serde_json::Value::String("abc".to_owned());
    assert_eq!(
        validate_portable_v5_structure(&to_json(&seal(value, &EIGHT)), &v5_versions()),
        Err(R12ContractError::InvalidProjection)
    );
}

#[test]
fn v5_unsafe_document_path_is_reported() {
    let mut value = v5_graph();
    value["documents"][0]["path"] = serde_json::Value::String("../outside".to_owned());
    assert_eq!(
        validate_portable_v5_structure(&to_json(&seal(value, &EIGHT)), &v5_versions()),
        Err(R12ContractError::UnsafePayload { reason: "unsafe_document_path" })
    );
}

const VIEWER: &[u8] = b"<html><body><script>render()</script></body></html>";
const CSP: &str = "default-src 'none'; script-src 'self'";

fn manifest_json(bytes: Vec<u8>) -> serde_json::Value {
    assert_eq!(bytes.last(), Some(&b'\n'));
    serde_json::from_slice(&bytes[..bytes.len() - 1]).expect("manifest parses")
}

#[test]
fn v5_explorer_manifest_binds_graph_and_viewer() {
    let value = seal(v5_graph(), &EIGHT);
    let bytes = canonical(&value);
    let graph = PortableGraphV5::from_canonical_file(&bytes, Some(to_json(&value)), &v5_versions(), fake_sha256)
        .expect("canonical graph imports");
    let manifest = LocalExplorerManifestV5::new(
        &graph,
        VIEWER,
        &fake_sha256(VIEWER),
        CSP,
        "codenoesis.local-explorer/v5",
        fake_sha256,
    )
    .expect("manifest builds");
    let expected = format!(
        r#"{{
        "schema_version": "codenoesis.local-explorer/v5",
        "portable_graph": {{"path": "portable-graph.json", "sha256": "{}", "byte_length": {}}},
        "entrypoint": {{"path": "index.html", "sha256": "{}", "byte_length": {}}},
        "security": {{"profile": "codenoesis.local-explorer-security/v5", "content_security_policy": "{CSP}",
                      "network": false, "dynamic_code": false, "storage": false, "telemetry": false,
                      "browser_launch": false}},
        "capabilities": {{"exact_id_search": true, "text_search": true, "typed_filters": true,
                          "evidence_inspection": true, "repository_boundaries": true,
                          "cfg_declaration_alternatives": true, "callable_occurrences": true,
                          "bounded_traversal": [1, 2]}},
        "limits": {{"text_search_results": 100, "traversal_depth_default": 1, "traversal_depth_maximum": 2}}
    }}"#,
        fake_sha256(&bytes),
        bytes.len(),
        fake_sha256(VIEWER),
        VIEWER.len()
    );
    let expected: serde_json::Value = serde_json::from_str(&expected).expect("expected parses");
    assert_eq!(manifest_json(manifest.canonical_file()), expected);
    assert_eq!(manifest.canonical_file(), canonical(&expected));
}

#[test]
fn v5_explorer_rejects_wrong_digest_and_remote_policy() {
    let value = seal(v5_graph(), &EIGHT);
    let bytes = canonical(&value);
    let graph = PortableGraphV5::from_canonical_file(&bytes, Some(to_json(&value)), &v5_versions(), fake_sha256)
        .expect("canonical graph imports");
    let wrong = LocalExplorerManifestV5::new(&graph, VIEWER, "00", CSP, "v5", fake_sha256);
    assert!(matches!(wrong, Err(R12ContractError::AssetIntegrityMismatch)));
    let remote = LocalExplorerManifestV5::new(
        &graph,
        VIEWER,
        &fake_sha256(VIEWER),
        "default-src https://cdn.example",
        "v5",
        fake_sha256,
    );
    assert!(matches!(remote, Err(R12ContractError::AssetIntegrityMismatch)));
}

#[test]
fn v7_explorer_needs_balanced_scripts() {
    let value = seal(v7_graph(), &EIGHT);
    let bytes = canonical(&value);
    let graph = PortableGraphV7::from_canonical_file(&bytes, Some(to_json(&value)), &v7_versions(), fake_sha256)
        .expect("canonical graph imports");
    let unbalanced: &[u8] = b"<script>a()</script><script>b()";
    let refused = LocalExplorerManifestV7::new(&graph, unbalanced, &fake_sha256(unbalanced), CSP, "v7", fake_sha256);
    assert!(matches!(refused, Err(R14ContractError::AssetIntegrityMismatch)));
    let manifest = LocalExplorerManifestV7::new(&graph, VIEWER, &fake_sha256(VIEWER), CSP, "v7", fake_sha256)
        .expect("manifest builds");
    let document = manifest_json(manifest.canonical_file());
    assert_eq!(document["schema_version"], "v7");
    assert_eq!(document["portable_graph"]["byte_length"], bytes.len() as u64);
    assert_eq!(document["security"]["profile"], "codenoesis.local-explorer-security/v7");
    assert!(document["security"].get("browser_launch").is_none());
    assert_eq!(document["capabilities"].as_object().unwrap().len(), 5);
}

#[test]
fn v8_explorer_lists_local_flow_derivations() {
    let value = seal(v8_graph(), &NINE);
    let bytes = canonical(&value);
    let graph = PortableGraphV8::from_canonical_file(
        &bytes,
        Some(to_json(&value)),
        &v8_versions(),
        &flow_profile(),
        fake_sha256,
    )
    .expect("canonical graph imports");
    let manifest = LocalExplorerManifestV8::new(&graph, VIEWER, &fake_sha256(VIEWER), CSP, "v8", fake_sha256)
        .expect("manifest builds");
    let document = manifest_json(manifest.canonical_file());
    assert_eq!(document["capabilities"]["local_flow_derivations"], true);
    assert_eq!(document["portable_graph"]["sha256"], fake_sha256(&bytes));
    assert_eq!(document["entrypoint"]["byte_length"], VIEWER.len() as u64);
    let inline = LocalExplorerManifestV8::new(
        &graph,
        VIEWER,
        &fake_sha256(VIEWER),
        "script-src 'unsafe-inline'",
        "v8",
        fake_sha256,
    );
    assert!(matches!(inline, Err(R15ContractError::AssetIntegrityMismatch)));
}

fn export_head(snapshot_id: &str) -> codenoesis_contracts::s4_r18::LocalSnapshotHead {
    codenoesis_contracts::s4_r18::LocalSnapshotHead {
        snapshot_schema_version: "snapshot".to_owned(),
        repository_identity: "urn:codenoesis:repository:demo".to_owned(),
        commit_oid: "a".repeat(40),
        snapshot_id: snapshot_id.to_owned(),
        semantic_hash_algorithm: "blake3-256".to_owned(),
        semantic_hash: "cc".repeat(32),
        graph_semantic_hash: "dd".repeat(32),
    }
}

/// The snapshot and documentation manifest that a portable fixture was
/// projected from: its families back in a knowledge graph, its statements
/// back under their documents.
fn export_sources(portable: &serde_json::Value, graph_members: &[&str]) -> (serde_json::Value, serde_json::Value) {
    let mut graph = serde_json::Map::new();
    for family in graph_members {
        let source = if *family == "coverage" { "coverage_gaps" } else { family };
        graph.insert((*family).to_owned(), portable[source].clone());
    }
    let mut semantic = serde_json::Map::new();
    semantic.insert("ontology_version".to_owned(), portable["ontology_version"].clone());
    semantic.insert("repository".to_owned(), portable["repository"].clone());
    semantic.insert("knowledge_graph".to_owned(), serde_json::Value::Object(graph));
    if let Some(boundaries) = portable.get("repository_boundaries") {
        semantic.insert("repository_boundaries".to_owned(), boundaries.clone());
    }
    let mut documents = Vec::new();
    for document in portable["documents"].as_array().unwrap() {
        let id = document["document_id"].clone();
        let mut record = document.as_object().unwrap().clone();
        let statements: Vec<serde_json::Value> = portable["document_statements"]
            .as_array()
            .unwrap()
            .iter()
            .filter(|s| s["document_id"] == id)
            .map(|s| {
                let mut s = s.as_object().unwrap().clone();
                s.remove("document_id");
                serde_json::Value::Object(s)
            })
            .collect();
        record.insert("statements".to_owned(), serde_json::Value::Array(statements));
        documents.push(serde_json::Value::Object(record));
    }
    let mut manifest: serde_json::Value = serde_json::from_str(&format!(
        r#"{{"schema_version": "codenoesis.documentation-manifest/v1",
            "repository_identity": "urn:codenoesis:repository:demo",
            "snapshot_id": "urn:codenoesis:snapshot:1",
            "snapshot_semantic_hash": {{"algorithm": "blake3-256", "value": "{}"}}}}"#,
        "cc".repeat(32)
    ))
    .unwrap();
    manifest["documents"] = serde_json::Value::Array(documents);
    (serde_json::Value::Object(semantic), manifest)
}

fn reparsed(bytes: &[u8]) -> Json {
    to_json(&serde_json::from_slice::<serde_json::Value>(bytes).unwrap())
}

#[test]
fn v5_export_reimports_to_the_same_graph() {
    let (semantic, manifest) = export_sources(
        &v5_graph(),
        &["entities", "relationships", "claims", "evidence", "diagnostics", "coverage"],
    );
    let head = export_head("urn:codenoesis:snapshot:1");
    let graph = PortableGraphV5::from_validated_v14(
        &to_json(&semantic), &head, &to_json(&manifest), true, &v5_versions(), fake_sha256,
    )
    .expect("export succeeds");
    let bytes = graph.canonical_file();
    let again = PortableGraphV5::from_canonical_file(&bytes, Some(reparsed(&bytes)), &v5_versions(), fake_sha256)
        .expect("export reimports");
    assert_eq!(again.canonical_file(), bytes);
    assert_eq!(
        PortableGraphV5::from_validated_v14(
            &to_json(&semantic), &head, &to_json(&manifest), false, &v5_versions(), fake_sha256,
        )
        .err(),
        Some(R12ContractError::InvalidSnapshot)
    );
}

#[test]
fn v7_export_reimports_to_the_same_graph() {
    let (semantic, manifest) = export_sources(
        &v7_graph(),
        &["entities", "relationships", "claims", "evidence", "diagnostics", "coverage"],
    );
    let graph = PortableGraphV7::from_validated_v16(
        &to_json(&semantic),
        &export_head("urn:codenoesis:snapshot:1"),
        &to_json(&manifest),
        true,
        &v7_versions(),
        fake_sha256,
    )
    .expect("export succeeds");
    let bytes = graph.canonical_file();
    let again = PortableGraphV7::from_canonical_file(&bytes, Some(reparsed(&bytes)), &v7_versions(), fake_sha256)
        .expect("export reimports");
    assert_eq!(again.canonical_file(), bytes);
    let statements = &serde_json::from_slice::<serde_json::Value>(&bytes).unwrap()["document_statements"];
    assert_eq!(statements, &v7_graph()["document_statements"]);
}

#[test]
fn v8_export_reimports_and_refuses_an_unbound_manifest() {
    let (semantic, manifest) = export_sources(
        &v8_graph(),
        &["entities", "relationships", "claims", "evidence", "diagnostics", "coverage", "local_flow_index"],
    );
    let graph = PortableGraphV8::from_validated_v17(
        &to_json(&semantic),
        &export_head("urn:codenoesis:snapshot:1"),
        &to_json(&manifest),
        true,
        &v8_versions(),
        &flow_profile(),
        fake_sha256,
    )
    .expect("export succeeds");
    let bytes = graph.canonical_file();
    let again = PortableGraphV8::from_canonical_file(
        &bytes,
        Some(reparsed(&bytes)),
        &v8_versions(),
        &flow_profile(),
        fake_sha256,
    )
    .expect("export reimports");
    assert_eq!(again.canonical_file(), bytes);
    assert_eq!(
        PortableGraphV8::from_validated_v17(
            &to_json(&semantic),
            &export_head("urn:codenoesis:snapshot:2"),
            &to_json(&manifest),
            true,
            &v8_versions(),
            &flow_profile(),
            fake_sha256,
        )
        .err(),
        Some(R15ContractError::InvalidSnapshot)
    );
}
