use codenoesis_contracts::explorer::LocalExplorerManifestV6;
use codenoesis_contracts::json::Json;
use codenoesis_contracts::s4_r13::{
    check_family_digests, validate_portable_structure, validate_portable_value, PortableGraphV6,
    PortableVersions, R13ContractError,
};

fn to_json(value: &serde_json::Value) -> Json {
    match value {
        serde_json::Value::Null => Json::Null,
        serde_json::Value::Bool(b) => Json::Bool(*b),
        serde_json::Value::Number(n) => match n.as_u64() {
            Some(v) => Json::UInt(v),
            None => Json::NegInt(n.as_i64().expect("integer")),
        },
        serde_json::Value::String(s) => Json::Str(s.clone()),
        serde_json::Value::Array(items) => Json::Array(items.iter().map(to_json).collect()),
        serde_json::Value::Object(fields) => Json::Object(
            fields
                .iter()
                .map(|(k, v)| (k.clone(), to_json(v)))
                .collect(),
        ),
    }
}

/// A stand-in digest: the byte length and the byte sum, as 64 hex digits.
fn fake_sha256(bytes: &[u8]) -> String {
    let sum: u64 = bytes.iter().map(|b| u64::from(*b)).sum();
    format!("{:032x}{:032x}", bytes.len(), sum)
}

fn versions() -> PortableVersions {
    PortableVersions {
        portable_graph: "codenoesis.portable-graph/v6".to_owned(),
        ontology: "codenoesis.ontology/v13".to_owned(),
        query: "codenoesis.query/v10".to_owned(),
        snapshot: "codenoesis.snapshot/v15".to_owned(),
        relationship_kind: "RESOLVES_TO_COMPILER_SYMBOL".to_owned(),
    }
}

const FAMILIES: [&str; 8] = [
    "entities",
    "relationships",
    "claims",
    "evidence",
    "diagnostics",
    "coverage_gaps",
    "documents",
    "document_statements",
];

fn base() -> serde_json::Value {
    serde_json::from_str(
        r#"{
        "schema_version": "codenoesis.portable-graph/v6",
        "ontology_version": "codenoesis.ontology/v13",
        "query_contract_version": "codenoesis.query/v10",
        "repository": {"identity": "urn:codenoesis:repository:demo"},
        "source_snapshot": {"schema_version": "codenoesis.snapshot/v15"},
        "projection": {"profile": "codenoesis.lossless-portable-projection/v6", "family_sha256": {}},
        "entities": [
            {"id": "e:fn", "kind": "rust.function", "evidence_ids": ["ev:1"]},
            {"id": "e:sig", "kind": "rust.callable_signature"},
            {"id": "e:sym", "kind": "compiler.symbol"}
        ],
        "relationships": [
            {"id": "r:link", "kind": "RESOLVES_TO_COMPILER_SYMBOL", "source": "e:fn", "target": "e:sym",
             "evidence_ids": ["ev:1", "ev:2"]},
            {"id": "r:sig", "kind": "HAS_SIGNATURE", "source": "e:fn", "target": "e:sig"}
        ],
        "claims": [
            {"id": "c:1", "subject_kind": "relationship", "subject_id": "r:link",
             "state": "deterministic_fact", "evidence_ids": ["ev:1", "ev:2"]}
        ],
        "evidence": [
            {"id": "ev:1", "path": "src/lib.rs"},
            {"id": "ev:2", "artifact_sha256": "aaaaaaaaaaaaaaaaaaaaaaaaaaaaaaaaaaaaaaaaaaaaaaaaaaaaaaaaaaaaaaaa",
             "document_path": "index.scip"}
        ],
        "diagnostics": [],
        "coverage_gaps": [{"id": "g:1"}],
        "documents": [{"document_id": "d:1", "subject_id": "urn:codenoesis:repository:demo", "path": "docs/a.md"}],
        "document_statements": [
            {"statement_id": "s:1", "document_id": "d:1", "subject_ids": ["r:link", "d:1"],
             "truth_state": "deterministic_fact", "evidence_ids": ["ev:1", "ev:2"], "coverage_gap_ids": ["g:1"]}
        ]
    }"#,
    )
    .expect("fixture parses")
}

fn seal(mut value: serde_json::Value) -> serde_json::Value {
    let mut digests = serde_json::Map::new();
    for family in FAMILIES {
        let bytes = serde_json::to_vec(&value[family]).expect("serialises");
        digests.insert(family.to_owned(), serde_json::Value::String(fake_sha256(&bytes)));
    }
    value["projection"]["family_sha256"] = serde_json::Value::Object(digests);
    value
}

fn canonical(value: &serde_json::Value) -> Vec<u8> {
    let mut bytes = serde_json::to_vec(value).expect("serialises");
    bytes.push(b'\n');
    bytes
}

#[test]
fn sealed_graph_validates_and_reimports_exactly() {
    let value = seal(base());
    let doc = to_json(&value);
    assert_eq!(validate_portable_value(&doc, &versions(), &fake_sha256), Ok(()));
    let bytes = canonical(&value);
    let graph = PortableGraphV6::from_canonical_file(&bytes, Some(to_json(&value)), &versions(), fake_sha256)
        .expect("canonical graph imports");
    assert_eq!(graph.canonical_file(), bytes);
    assert_eq!(graph.value(), &doc);
    assert_eq!(graph.canonical_sha256(), fake_sha256(&bytes));
}

#[test]
fn unsupported_schema_is_reported_with_its_name() {
    let mut value = base();
    value["schema_version"] = serde_json::Value::String("other/v1".to_owned());
    let doc = to_json(&seal(value));
    assert_eq!(
        validate_portable_structure(&doc, &versions()),
        Err(R13ContractError::UnsupportedPortableGraphSchema("other/v1".to_owned()))
    );
}

#[test]
fn missing_member_is_invalid() {
    let mut value = seal(base());
    value.as_object_mut().expect("object").remove("diagnostics");
    let doc = to_json(&value);
    assert_eq!(
        validate_portable_value(&doc, &versions(), &fake_sha256),
        Err(R13ContractError::InvalidProjection)
    );
}

#[test]
fn out_of_order_identifiers_conflict() {
    let mut value = base();
    value["coverage_gaps"] = serde_json::from_str(r#"[{"id": "g:2"}, {"id": "g:1"}]"#).unwrap();
    let doc = to_json(&seal(value));
    assert_eq!(
        validate_portable_structure(&doc, &versions()),
        Err(R13ContractError::IdentityConflict { family: "coverage_gaps", id: "g:1".to_owned() })
    );
}

#[test]
fn dangling_relationship_target_is_a_reference_mismatch() {
    let mut value = base();
    value["relationships"][1]["target"] = serde_json::Value::String("e:missing".to_owned());
    let doc = to_json(&seal(value));
    assert_eq!(
        validate_portable_structure(&doc, &versions()),
        Err(R13ContractError::ReferenceMismatch { family: "relationships", id: "e:missing".to_owned() })
    );
}

#[test]
fn statement_subject_may_be_any_family_identifier() {
    let mut value = base();
    value["document_statements"][0]["subject_ids"] =
        serde_json::from_str(r#"["r:link", "unknown"]"#).unwrap();
    let doc = to_json(&seal(value));
    assert_eq!(
        validate_portable_structure(&doc, &versions()),
        Err(R13ContractError::ReferenceMismatch { family: "document_statements", id: "unknown".to_owned() })
    );
}

#[test]
fn link_without_signature_is_invalid() {
    let mut value = base();
    value["relationships"] = serde_json::from_str(
        r#"[{"id": "r:link", "kind": "RESOLVES_TO_COMPILER_SYMBOL", "source": "e:fn", "target": "e:sym",
             "evidence_ids": ["ev:1", "ev:2"]}]"#,
    )
    .unwrap();
    let doc = to_json(&seal(value));
    assert_eq!(validate_portable_structure(&doc, &versions()), Err(R13ContractError::InvalidProjection));
}

#[test]
fn tampered_family_digest_is_invalid() {
    let mut value = seal(base());
    value["projection"]["family_sha256"]["claims"] = serde_json::Value::String("0".repeat(64));
    let doc = to_json(&value);
    assert_eq!(validate_portable_structure(&doc, &versions()), Ok(()));
    assert_eq!(
        validate_portable_value(&doc, &versions(), &fake_sha256),
        Err(R13ContractError::InvalidProjection)
    );
}

#[test]
fn declared_digests_compare_by_family() {
    let value = seal(base());
    let doc = to_json(&value);
    let mut digests: Vec<String> = FAMILIES
        .iter()
        .map(|f| fake_sha256(&serde_json::to_vec(&value[*f]).unwrap()))
        .collect();
    assert_eq!(check_family_digests(&doc, &digests), Ok(()));
    digests.swap(0, 1);
    assert_eq!(check_family_digests(&doc, &digests), Err(R13ContractError::InvalidProjection));
    assert_eq!(check_family_digests(&doc, &digests[..7]), Err(R13ContractError::InvalidProjection));
}

#[test]
fn pretty_printed_graph_is_noncanonical() {
    let value = seal(base());
    let doc = to_json(&value);
    let mut bytes = serde_json::to_vec_pretty(&value).unwrap();
    bytes.push(b'\n');
    let expected = canonical(&value);
    match PortableGraphV6::from_canonical_file(&bytes, Some(doc), &versions(), fake_sha256) {
        Err(error) => assert_eq!(
            error,
            R13ContractError::Noncanonical {
                expected_sha256: fake_sha256(&expected),
                observed_sha256: fake_sha256(&bytes),
            }
        ),
        Ok(_) => panic!("pretty output must be refused"),
    }
}

#[test]
fn unparsed_or_oversized_input_is_refused_first() {
    match PortableGraphV6::from_canonical_file(b"not json\n", None, &versions(), fake_sha256) {
        Err(error) => assert_eq!(error, R13ContractError::InvalidProjection),
        Ok(_) => panic!("unparsed input must be refused"),
    }
}

#[test]
fn v6_explorer_manifest_binds_graph_and_viewer() {
    let value = seal(base());
    let bytes = canonical(&value);
    let graph = PortableGraphV6::from_canonical_file(&bytes, Some(to_json(&value)), &versions(), fake_sha256)
        .expect("canonical graph imports");
    let viewer: &[u8] = b"<html><script>go()</script></html>";
    let csp = "default-src 'none'";
    let manifest = LocalExplorerManifestV6::new(
        &graph,
        viewer,
        &fake_sha256(viewer),
        csp,
        "codenoesis.local-explorer/v6",
        fake_sha256,
    )
    .expect("manifest builds");
    let expected = format!(
        r#"{{"capabilities":{{"bounded_traversal":[1,2],"evidence_inspection":true,"exact_id_search":true,"text_search":true,"typed_filters":true}},"entrypoint":{{"byte_length":{},"path":"index.html","sha256":"{}"}},"limits":{{"text_search_results":100,"traversal_depth_default":1,"traversal_depth_maximum":2}},"portable_graph":{{"byte_length":{},"path":"portable-graph.json","sha256":"{}"}},"schema_version":"codenoesis.local-explorer/v6","security":{{"content_security_policy":"default-src 'none'","dynamic_code":false,"network":false,"profile":"codenoesis.local-explorer-security/v6","storage":false,"telemetry":false}}}}
"#,
        viewer.len(),
        fake_sha256(viewer),
        bytes.len(),
        fake_sha256(&bytes)
    );
    assert_eq!(String::from_utf8(manifest.canonical_file()).unwrap(), expected);
    let unsafe_eval = LocalExplorerManifestV6::new(
        &graph,
        viewer,
        &fake_sha256(viewer),
        "script-src 'unsafe-eval'",
        "codenoesis.local-explorer/v6",
        fake_sha256,
    );
    assert!(matches!(unsafe_eval, Err(R13ContractError::AssetIntegrityMismatch)));
}

#[test]
fn portable_v6_export_reimports_to_the_same_graph() {
    let portable = base();
    let mut graph = serde_json::Map::new();
    for family in ["entities", "relationships", "claims", "evidence", "diagnostics"] {
        graph.insert(family.to_owned(), portable[family].clone());
    }
    graph.insert("coverage".to_owned(), portable["coverage_gaps"].clone());
    let mut semantic = serde_json::Map::new();
    semantic.insert("ontology_version".to_owned(), portable["ontology_version"].clone());
    semantic.insert("repository".to_owned(), portable["repository"].clone());
    semantic.insert("knowledge_graph".to_owned(), serde_json::Value::Object(graph));
    let manifest: serde_json::Value = serde_json::from_str(&format!(
        r#"{{"schema_version": "codenoesis.documentation-manifest/v1",
            "repository_identity": "urn:codenoesis:repository:demo",
            "snapshot_id": "urn:codenoesis:snapshot:1",
            "snapshot_semantic_hash": {{"algorithm": "blake3-256", "value": "{}"}},
            "documents": [{{"document_id": "d:1", "subject_id": "urn:codenoesis:repository:demo",
                "path": "docs/a.md",
                "statements": [{{"statement_id": "s:1", "subject_ids": ["r:link", "d:1"],
                    "truth_state": "deterministic_fact", "evidence_ids": ["ev:1", "ev:2"],
                    "coverage_gap_ids": ["g:1"]}}]}}]}}"#,
        "cc".repeat(32)
    ))
    .unwrap();
    let head = codenoesis_contracts::s4_r18::LocalSnapshotHead {
        snapshot_schema_version: "codenoesis.snapshot/v15".to_owned(),
        repository_identity: "urn:codenoesis:repository:demo".to_owned(),
        commit_oid: "a".repeat(40),
        snapshot_id: "urn:codenoesis:snapshot:1".to_owned(),
        semantic_hash_algorithm: "blake3-256".to_owned(),
        semantic_hash: "cc".repeat(32),
        graph_semantic_hash: "dd".repeat(32),
    };
    let exported = PortableGraphV6::from_validated_v15(
        &to_json(&serde_json::Value::Object(semantic)),
        &head,
        &to_json(&manifest),
        true,
        &versions(),
        fake_sha256,
    )
    .expect("export succeeds");
    let bytes = exported.canonical_file();
    let parsed: serde_json::Value = serde_json::from_slice(&bytes).unwrap();
    assert_eq!(parsed["document_statements"], portable["document_statements"]);
    assert_eq!(parsed["documents"], portable["documents"]);
    let again = PortableGraphV6::from_canonical_file(&bytes, Some(to_json(&parsed)), &versions(), fake_sha256)
        .expect("export reimports");
    assert_eq!(again.canonical_file(), bytes);
}
