use codenoesis_contracts::constants::{validate_constant_projection, ConstantRules};
use codenoesis_contracts::dependency::validate_constant_acyclic;
use codenoesis_contracts::explorer::{LocalExplorerManifestV10, LocalExplorerManifestV9};
use codenoesis_contracts::json::Json;
use codenoesis_contracts::projection_v9::{
    validate_graph_v15, validate_portable_v9_structure, validate_portable_value,
    validate_stored_r16_semantic, PortableGraphV9, R16Versions, SemanticVersionsV16,
};
use codenoesis_contracts::s4_r16::R16ContractError;

fn to_json(value: &serde_json::Value) -> Json {
    match value {
        serde_json::Value::Null => Json::Null,
        serde_json::Value::Bool(b) => Json::Bool(*b),
        serde_json::Value::Number(n) => match n.as_u64() {
            Some(v) => Json::UInt(v),
            None => Json::NegInt(n.as_i64().expect("integer")),
        },
        serde_json::Value::String(s) => Json::Str(s.clone()),
        serde_json::Value::Array(items) => Json::Array(items.iter().map(to_json).collect()),
        serde_json::Value::Object(fields) => Json::Object(
            fields
                .iter()
                .map(|(k, v)| (k.clone(), to_json(v)))
                .collect(),
        ),
    }
}

type Derive = fn(&str, &str) -> String;

fn evaluated_value_id(repository: &str, declared: &str) -> String {
    format!("v:{repository}:{declared}")
}

fn evaluation_relationship_id(source: &str, target: &str) -> String {
    format!("r:{source}>{target}")
}

fn derived_claim_id(kind: &str, subject: &str) -> String {
    format!("c:{kind}:{subject}")
}

fn rules(max_levels: u64) -> ConstantRules<Derive, Derive, Derive> {
    ConstantRules {
        rule_version: "rule/v1".to_owned(),
        index_version: "index/v1".to_owned(),
        max_evaluated_entities: 8,
        max_evaluation_relationships: 8,
        max_direct_dependencies: 4,
        max_dependency_references: 16,
        max_derivation_input_references: 64,
        max_dependency_levels: max_levels,
        evaluated_value_id,
        evaluation_relationship_id,
        derived_claim_id,
    }
}

fn versions() -> R16Versions {
    R16Versions {
        graph: "graph/v15".to_owned(),
        portable_graph: "portable/v9".to_owned(),
        ontology: "ontology/v16".to_owned(),
        query: "query/v13".to_owned(),
        snapshot: "snapshot/v18".to_owned(),
    }
}

const REPOSITORY: &str = "urn:codenoesis:repo";

/// One evaluated `u8` constant `e:a` (declared by `e:da`) and one evaluated
/// constant `e:b` (declared by `e:db`) that depends on it.
fn graph() -> serde_json::Value {
    let va = evaluated_value_id(REPOSITORY, "e:da");
    let vb = evaluated_value_id(REPOSITORY, "e:db");
    let ra = evaluation_relationship_id("e:da", &va);
    let rb = evaluation_relationship_id("e:db", &vb);
    let text = format!(
        r#"{{
        "schema_version": "graph/v15",
        "ontology_version": "ontology/v16",
        "repository": {{"identity": "{REPOSITORY}"}},
        "entities": [
            {{"id": "e:a", "kind": "rust.constant"}},
            {{"id": "e:b", "kind": "rust.constant"}},
            {{"id": "e:da", "kind": "rust.declared_value", "subject_id": "e:a"}},
            {{"id": "e:db", "kind": "rust.declared_value", "subject_id": "e:b"}},
            {{"id": "{va}", "kind": "rust.evaluated_value", "declared_value_id": "e:da",
              "properties": {{"canonical_value": "42", "rule_version": "rule/v1", "rust_type": "u8",
                              "type_authority": "explicit_primitive_annotation", "value_kind": "integer"}}}},
            {{"id": "{vb}", "kind": "rust.evaluated_value", "declared_value_id": "e:db",
              "properties": {{"canonical_value": "true", "rule_version": "rule/v1", "rust_type": "bool",
                              "type_authority": "explicit_primitive_annotation", "value_kind": "boolean"}}}}
        ],
        "relationships": [
            {{"id": "{ra}", "kind": "EVALUATES_TO", "source": "e:da", "target": "{va}", "evidence_ids": ["ev:1"]}},
            {{"id": "{rb}", "kind": "EVALUATES_TO", "source": "e:db", "target": "{vb}", "evidence_ids": ["ev:1"]}}
        ],
        "claims": [
            {{"id": "c:entity:{va}", "subject_kind": "entity", "subject_id": "{va}", "state": "derived_fact",
              "evidence_ids": ["ev:1"]}},
            {{"id": "c:entity:{vb}", "subject_kind": "entity", "subject_id": "{vb}", "state": "derived_fact",
              "evidence_ids": ["ev:1"]}},
            {{"id": "c:relationship:{ra}", "subject_kind": "relationship", "subject_id": "{ra}",
              "state": "derived_fact", "evidence_ids": ["ev:1"]}},
            {{"id": "c:relationship:{rb}", "subject_kind": "relationship", "subject_id": "{rb}",
              "state": "derived_fact", "evidence_ids": ["ev:1"]}},
            {{"id": "d:da", "subject_kind": "entity", "subject_id": "e:da", "state": "deterministic_fact"}},
            {{"id": "d:db", "subject_kind": "entity", "subject_id": "e:db", "state": "deterministic_fact"}}
        ],
        "evidence": [{{"id": "ev:1", "path": "src/lib.rs"}}],
        "diagnostics": [],
        "coverage": [],
        "constant_evaluation_index": {{
            "schema_version": "index/v1",
            "rule_version": "rule/v1",
            "evaluated_entity_ids": ["{va}", "{vb}"],
            "evaluation_relationship_ids": ["{ra}", "{rb}"],
            "derivations": [
                {{"entity_id": "{va}", "relationship_id": "{ra}", "dependency_entity_ids": [],
                  "input_claim_ids": ["d:da"], "input_evidence_ids": ["ev:1"], "rule_version": "rule/v1"}},
                {{"entity_id": "{vb}", "relationship_id": "{rb}", "dependency_entity_ids": ["{va}"],
                  "input_claim_ids": ["c:entity:{va}", "d:db"], "input_evidence_ids": ["ev:1"],
                  "rule_version": "rule/v1"}}
            ]
        }}
    }}"#
    );
    serde_json::from_str(&text).expect("fixture parses")
}

fn ids(value: &serde_json::Value, family: &str) -> Vec<String> {
    value[family]
        .as_array()
        .unwrap()
        .iter()
        .map(|record| record["id"].as_str().unwrap().to_owned())
        .collect()
}

fn check_projection(value: &serde_json::Value) -> Result<(), R16ContractError> {
    validate_constant_projection(
        &to_json(value),
        &ids(value, "entities"),
        &ids(value, "relationships"),
        &ids(value, "claims"),
        &ids(value, "evidence"),
        &rules(8),
    )
}

#[test]
fn evaluated_constants_with_a_dependency_validate() {
    let value = graph();
    assert_eq!(check_projection(&value), Ok(()));
    assert_eq!(validate_graph_v15(&to_json(&value), &versions(), &rules(8)), Ok(()));
}

#[test]
fn wrong_evaluated_identifier_is_invalid() {
    let mut value = graph();
    value["entities"][4]["declared_value_id"] = serde_json::Value::String("e:db".to_owned());
    assert_eq!(check_projection(&value), Err(R16ContractError::InvalidProjection));
}

#[test]
fn missing_declared_value_is_a_reference_mismatch() {
    let mut value = graph();
    value["entities"][4]["declared_value_id"] = serde_json::Value::String("e:zz".to_owned());
    assert_eq!(check_projection(&value), Err(R16ContractError::ReferenceMismatch("e:zz".to_owned())));
}

#[test]
fn out_of_range_integer_is_invalid() {
    let mut value = graph();
    value["entities"][4]["properties"]["canonical_value"] = serde_json::Value::String("256".to_owned());
    assert_eq!(check_projection(&value), Err(R16ContractError::InvalidProjection));
}

#[test]
fn too_many_evaluated_entities_exceed_the_limit() {
    let value = graph();
    let mut tight = rules(8);
    tight.max_evaluated_entities = 1;
    let result = validate_constant_projection(
        &to_json(&value),
        &ids(&value, "entities"),
        &ids(&value, "relationships"),
        &ids(&value, "claims"),
        &ids(&value, "evidence"),
        &tight,
    );
    assert_eq!(
        result,
        Err(R16ContractError::LimitExceeded { limit: "evaluated_entities_total", maximum: 1, observed: 2 })
    );
}

#[test]
fn unknown_dependency_is_a_reference_mismatch() {
    let mut value = graph();
    value["constant_evaluation_index"]["derivations"][1]["dependency_entity_ids"] =
        serde_json::from_str(r#"["v:nowhere"]"#).unwrap();
    assert_eq!(check_projection(&value), Err(R16ContractError::ReferenceMismatch("v:nowhere".to_owned())));
}

#[test]
fn wrong_input_claims_are_invalid() {
    let mut value = graph();
    value["constant_evaluation_index"]["derivations"][1]["input_claim_ids"] =
        serde_json::from_str(r#"["d:db"]"#).unwrap();
    assert_eq!(check_projection(&value), Err(R16ContractError::InvalidProjection));
}

#[test]
fn dependency_levels_are_bounded() {
    let value = graph();
    let result = validate_constant_projection(
        &to_json(&value),
        &ids(&value, "entities"),
        &ids(&value, "relationships"),
        &ids(&value, "claims"),
        &ids(&value, "evidence"),
        &rules(0),
    );
    assert_eq!(
        result,
        Err(R16ContractError::LimitExceeded { limit: "dependency_levels", maximum: 0, observed: 1 })
    );
}

fn adjacency(entries: &[(&str, &[&str])]) -> Vec<(String, Vec<String>)> {
    entries
        .iter()
        .map(|(k, deps)| ((*k).to_owned(), deps.iter().map(|d| (*d).to_owned()).collect()))
        .collect()
}

#[test]
fn dependency_cycle_is_invalid() {
    let graph = adjacency(&[("a", &["b"]), ("b", &["c"]), ("c", &["a"])]);
    assert_eq!(validate_constant_acyclic(&graph, 8), Err(R16ContractError::InvalidProjection));
}

#[test]
fn acyclic_dependencies_within_the_levels_pass() {
    let graph = adjacency(&[("a", &["b", "c"]), ("b", &["c"]), ("c", &[])]);
    assert_eq!(validate_constant_acyclic(&graph, 2), Ok(()));
    assert_eq!(
        validate_constant_acyclic(&graph, 1),
        Err(R16ContractError::LimitExceeded { limit: "dependency_levels", maximum: 1, observed: 2 })
    );
}

#[test]
fn graph_with_wrong_schema_is_an_invalid_snapshot() {
    let mut value = graph();
    value["schema_version"] = serde_json::Value::String("graph/v14".to_owned());
    assert_eq!(
        validate_graph_v15(&to_json(&value), &versions(), &rules(8)),
        Err(R16ContractError::InvalidSnapshot)
    );
}

#[test]
fn graph_claim_without_subject_is_an_invalid_snapshot() {
    let mut value = graph();
    value["claims"][4].as_object_mut().unwrap().remove("subject_id");
    assert_eq!(
        validate_graph_v15(&to_json(&value), &versions(), &rules(8)),
        Err(R16ContractError::InvalidSnapshot)
    );
}

fn fake_sha256(bytes: &[u8]) -> String {
    let sum: u64 = bytes.iter().map(|b| u64::from(*b)).sum();
    format!("{:032x}{:032x}", bytes.len(), sum)
}

const V9_FAMILIES: [&str; 10] = [
    "entities",
    "relationships",
    "claims",
    "evidence",
    "diagnostics",
    "coverage_gaps",
    "documents",
    "document_statements",
    "local_flow_index",
    "constant_evaluation_index",
];

fn portable() -> serde_json::Value {
    let g = graph();
    let mut value = serde_json::Map::new();
    for family in ["entities", "relationships", "claims", "evidence", "diagnostics", "constant_evaluation_index"] {
        value.insert(family.to_owned(), g[family].clone());
    }
    value.insert("coverage_gaps".to_owned(), serde_json::Value::Array(Vec::new()));
    value.insert("documents".to_owned(), serde_json::Value::Array(Vec::new()));
    value.insert("document_statements".to_owned(), serde_json::Value::Array(Vec::new()));
    value.insert("local_flow_index".to_owned(), serde_json::from_str(r#"{"entries": []}"#).unwrap());
    value.insert("schema_version".to_owned(), serde_json::Value::String("portable/v9".to_owned()));
    value.insert("ontology_version".to_owned(), serde_json::Value::String("ontology/v16".to_owned()));
    value.insert("query_contract_version".to_owned(), serde_json::Value::String("query/v13".to_owned()));
    value.insert("repository".to_owned(), g["repository"].clone());
    value.insert(
        "source_snapshot".to_owned(),
        serde_json::from_str(r#"{"schema_version": "snapshot/v18"}"#).unwrap(),
    );
    let mut digests = serde_json::Map::new();
    for family in V9_FAMILIES {
        let bytes = serde_json::to_vec(&value[family]).unwrap();
        digests.insert(family.to_owned(), serde_json::Value::String(fake_sha256(&bytes)));
    }
    let mut projection = serde_json::Map::new();
    projection.insert(
        "profile".to_owned(),
        serde_json::Value::String("codenoesis.lossless-portable-projection/v9".to_owned()),
    );
    projection.insert("family_sha256".to_owned(), serde_json::Value::Object(digests));
    value.insert("projection".to_owned(), serde_json::Value::Object(projection));
    serde_json::Value::Object(value)
}

#[test]
fn portable_v9_graph_validates_and_reimports() {
    let value = portable();
    let doc = to_json(&value);
    assert_eq!(validate_portable_value(&doc, &versions(), &rules(8), &fake_sha256), Ok(()));
    let mut bytes = serde_json::to_vec(&value).unwrap();
    bytes.push(b'\n');
    let graph = PortableGraphV9::from_canonical_file(&bytes, Some(to_json(&value)), &versions(), &rules(8), fake_sha256)
        .expect("canonical graph imports");
    assert_eq!(graph.canonical_file(), bytes);
    assert_eq!(graph.canonical_sha256(), fake_sha256(&bytes));
}

#[test]
fn portable_v9_with_unsafe_boundary_is_invalid() {
    let mut value = portable();
    value["repository_boundaries"] = serde_json::from_str(
        r#"{"schema_version": "codenoesis.repository-boundaries/v1", "profile": "local-gitlinks-v1",
            "boundaries": [{"path": "../escape"}], "declarations": [], "coverage_gaps": [], "evidence": []}"#,
    )
    .unwrap();
    assert_eq!(
        validate_portable_v9_structure(&to_json(&value), &versions(), &rules(8)),
        Err(R16ContractError::InvalidProjection)
    );
    value["repository_boundaries"] = serde_json::Value::Null;
    assert_eq!(validate_portable_v9_structure(&to_json(&value), &versions(), &rules(8)), Ok(()));
}

#[test]
fn portable_v9_with_tampered_digest_is_invalid() {
    let mut value = portable();
    value["projection"]["family_sha256"]["local_flow_index"] = serde_json::Value::String("0".repeat(64));
    assert_eq!(
        validate_portable_value(&to_json(&value), &versions(), &rules(8), &fake_sha256),
        Err(R16ContractError::InvalidProjection)
    );
}

fn semantic_versions() -> SemanticVersionsV16 {
    SemanticVersionsV16 {
        pipeline: "pipeline/v16".to_owned(),
        configuration: "configuration/v16".to_owned(),
        constant_profile: "rust-constant/v1".to_owned(),
        extractor: "extractor/v16".to_owned(),
    }
}

fn stored_semantic() -> serde_json::Value {
    let mut semantic: serde_json::Value = serde_json::from_str(
        r#"{
        "pipeline_version": "pipeline/v16",
        "ontology_version": "ontology/v16",
        "configuration": {"schema_version": "configuration/v16", "rust_constant_profile": "rust-constant/v1"},
        "extractor_versions": ["extractor/v16"]
    }"#,
    )
    .expect("fixture parses");
    semantic["knowledge_graph"] = graph();
    semantic
}

#[test]
fn stored_r16_semantic_validates() {
    assert_eq!(
        validate_stored_r16_semantic(&to_json(&stored_semantic()), &semantic_versions(), &versions(), &rules(8)),
        Ok(())
    );
}

#[test]
fn stored_r16_semantic_with_wrong_profile_is_invalid() {
    let mut value = stored_semantic();
    value["configuration"]["rust_constant_profile"] = serde_json::Value::String("rust-flow/v1".to_owned());
    assert_eq!(
        validate_stored_r16_semantic(&to_json(&value), &semantic_versions(), &versions(), &rules(8)),
        Err(R16ContractError::InvalidSnapshot)
    );
}

#[test]
fn stored_r16_semantic_without_graph_is_invalid() {
    let mut value = stored_semantic();
    value["knowledge_graph"] = serde_json::Value::Array(Vec::new());
    assert_eq!(
        validate_stored_r16_semantic(&to_json(&value), &semantic_versions(), &versions(), &rules(8)),
        Err(R16ContractError::InvalidSnapshot)
    );
}

#[test]
fn stored_r16_semantic_reports_graph_limits() {
    assert_eq!(
        validate_stored_r16_semantic(&to_json(&stored_semantic()), &semantic_versions(), &versions(), &rules(0)),
        Err(R16ContractError::LimitExceeded { limit: "dependency_levels", maximum: 0, observed: 1 })
    );
}

fn imported_v9() -> (PortableGraphV9<Sha>, Vec<u8>) {
    let value = portable();
    let mut bytes = serde_json::to_vec(&value).unwrap();
    bytes.push(b'\n');
    let graph = PortableGraphV9::from_canonical_file(
        &bytes,
        Some(to_json(&value)),
        &versions(),
        &rules(8),
        fake_sha256 as Sha,
    )
    .expect("canonical graph imports");
    (graph, bytes)
}

type Sha = fn(&[u8]) -> String;

const CONTEXT_VIEWER: &[u8] = b"<html><script>const graph = load();</script></html>";
const CONTEXT_CSP: &str = "default-src 'none'; connect-src 'none'; worker-src 'none'; object-src 'none'; \
frame-src 'none'; form-action 'none'; script-src 'self'";

fn document_of(bytes: Vec<u8>) -> serde_json::Value {
    assert_eq!(bytes.last(), Some(&b'\n'));
    serde_json::from_slice(&bytes[..bytes.len() - 1]).unwrap()
}

#[test]
fn v9_explorer_refuses_remote_viewer_content() {
    let (graph, bytes) = imported_v9();
    let remote: &[u8] = b"<script>fetch('https://example.org')</script>";
    let refused = LocalExplorerManifestV9::new(&graph, remote, &fake_sha256(remote), "default-src 'none'", "v9", fake_sha256);
    assert!(matches!(refused, Err(R16ContractError::AssetIntegrityMismatch)));
    let manifest =
        LocalExplorerManifestV9::new(&graph, CONTEXT_VIEWER, &fake_sha256(CONTEXT_VIEWER), "default-src 'none'", "v9", fake_sha256)
            .expect("manifest builds");
    let document = document_of(manifest.canonical_file());
    assert_eq!(document["capabilities"]["constant_evaluation_derivations"], true);
    assert_eq!(document["portable_graph"]["byte_length"], bytes.len() as u64);
    assert_eq!(document["portable_graph"]["sha256"], fake_sha256(&bytes));
}

#[test]
fn v10_explorer_manifest_binds_function_context_viewer() {
    let (graph, bytes) = imported_v9();
    let manifest = LocalExplorerManifestV10::new(
        &graph,
        CONTEXT_VIEWER,
        &fake_sha256(CONTEXT_VIEWER),
        CONTEXT_CSP,
        "portable/v9",
        fake_sha256,
    )
    .expect("manifest builds");
    let expected = format!(
        r#"{{
        "schema_version": "codenoesis.local-explorer/v10",
        "profile": "rust-function-context-v1",
        "portable_graph": {{"path": "portable-graph.json", "schema_version": "portable/v9", "sha256": "{}", "byte_length": {}}},
        "entrypoint": {{"path": "index.html", "sha256": "{}", "byte_length": {}}},
        "security": {{"profile": "codenoesis.local-explorer-security/v10", "content_security_policy": "{CONTEXT_CSP}",
                      "network": false, "dynamic_code": false, "storage": false, "telemetry": false, "clipboard": false,
                      "source_access": false, "process_execution": false, "mutation": false, "repair": false,
                      "inference": false}},
        "capabilities": ["bounded_svg_neighborhood", "call_navigation", "claim_inspection", "declared_signature_cards",
                         "derivation_inspection", "diagnostic_inspection", "evidence_inspection", "exact_id_search",
                         "function_search", "history_navigation", "parameter_navigation", "uncertainty_inspection"],
        "limits": {{"portable_graph_bytes": 268435456, "function_search_results": 100, "navigation_history": 128,
                    "neighborhood_subjects": 256, "neighborhood_relationships": 512}}
    }}"#,
        fake_sha256(&bytes),
        bytes.len(),
        fake_sha256(CONTEXT_VIEWER),
        CONTEXT_VIEWER.len()
    );
    let expected: serde_json::Value = serde_json::from_str(&expected).unwrap();
    assert_eq!(document_of(manifest.canonical_file()), expected);
}

#[test]
fn v10_explorer_refuses_other_graph_versions_and_weak_policies() {
    let (graph, _) = imported_v9();
    let other = LocalExplorerManifestV10::new(
        &graph,
        CONTEXT_VIEWER,
        &fake_sha256(CONTEXT_VIEWER),
        CONTEXT_CSP,
        "portable/v8",
        fake_sha256,
    );
    assert!(matches!(other, Err(R16ContractError::AssetIntegrityMismatch)));
    let weak = LocalExplorerManifestV10::new(
        &graph,
        CONTEXT_VIEWER,
        &fake_sha256(CONTEXT_VIEWER),
        "default-src 'none'",
        "portable/v9",
        fake_sha256,
    );
    assert!(matches!(weak, Err(R16ContractError::AssetIntegrityMismatch)));
    let two_scripts: &[u8] = b"<script>a()</script><script>b()</script>";
    let doubled = LocalExplorerManifestV10::new(
        &graph,
        two_scripts,
        &fake_sha256(two_scripts),
        CONTEXT_CSP,
        "portable/v9",
        fake_sha256,
    );
    assert!(matches!(doubled, Err(R16ContractError::AssetIntegrityMismatch)));
}

fn export_head() -> codenoesis_contracts::s4_r18::LocalSnapshotHead {
    codenoesis_contracts::s4_r18::LocalSnapshotHead {
        snapshot_schema_version: "snapshot/v18".to_owned(),
        repository_identity: REPOSITORY.to_owned(),
        commit_oid: "a".repeat(40),
        snapshot_id: "urn:codenoesis:snapshot:1".to_owned(),
        semantic_hash_algorithm: "blake3-256".to_owned(),
        semantic_hash: "cc".repeat(32),
        graph_semantic_hash: "dd".repeat(32),
    }
}

fn export_semantic() -> serde_json::Value {
    let mut g = graph();
    g["local_flow_index"] = serde_json::from_str(r#"{"entries": []}"#).unwrap();
    let mut semantic = serde_json::Map::new();
    semantic.insert("repository".to_owned(), g["repository"].clone());
    semantic.insert("knowledge_graph".to_owned(), g);
    serde_json::Value::Object(semantic)
}

fn export_manifest() -> serde_json::Value {
    serde_json::from_str(&format!(
        r#"{{"schema_version": "codenoesis.documentation-manifest/v1",
            "repository_identity": "{REPOSITORY}",
            "snapshot_id": "urn:codenoesis:snapshot:1",
            "snapshot_semantic_hash": {{"algorithm": "blake3-256", "value": "{}"}},
            "documents": []}}"#,
        "cc".repeat(32)
    ))
    .unwrap()
}

#[test]
fn portable_v9_export_reimports_to_the_same_graph() {
    let exported = PortableGraphV9::from_validated_v18(
        &to_json(&export_semantic()),
        &export_head(),
        &to_json(&export_manifest()),
        true,
        &versions(),
        &rules(8),
        fake_sha256,
    )
    .expect("export succeeds");
    let bytes = exported.canonical_file();
    let parsed: serde_json::Value = serde_json::from_slice(&bytes).unwrap();
    assert_eq!(parsed["source_snapshot"]["snapshot_id"], "urn:codenoesis:snapshot:1");
    assert_eq!(parsed["projection"]["profile"], "codenoesis.lossless-portable-projection/v9");
    let again = PortableGraphV9::from_canonical_file(&bytes, Some(to_json(&parsed)), &versions(), &rules(8), fake_sha256)
        .expect("export reimports");
    assert_eq!(again.value(), exported.value());
    assert_eq!(again.canonical_file(), bytes);
}

#[test]
fn portable_v9_export_refuses_unvalidated_or_unbound_inputs() {
    let export = |valid: bool, manifest: serde_json::Value| {
        PortableGraphV9::from_validated_v18(
            &to_json(&export_semantic()),
            &export_head(),
            &to_json(&manifest),
            valid,
            &versions(),
            &rules(8),
            fake_sha256,
        )
        .err()
    };
    assert_eq!(export(false, export_manifest()), Some(R16ContractError::InvalidSnapshot));
    let mut other = export_manifest();
    other["snapshot_id"] = serde_json::Value::String("urn:codenoesis:snapshot:2".to_owned());
    assert_eq!(export(true, other), Some(R16ContractError::InvalidSnapshot));
    let mut malformed = export_manifest();
    malformed["documents"] = serde_json::from_str(r#"[{"document_id": "d:1"}]"#).unwrap();
    assert_eq!(export(true, malformed), Some(R16ContractError::InvalidSnapshot));
}
