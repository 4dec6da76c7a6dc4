use codenoesis_contracts::errors::{
    CodeNoesisErrorV10, CodeNoesisErrorV11, CodeNoesisErrorV12, CodeNoesisErrorV19,
    CodeNoesisErrorV20, CodeNoesisErrorV21, CodeNoesisErrorV22, CodeNoesisErrorV24,
    ErrorProfileV19, ErrorProfileV20, ErrorProfileV21, ErrorProfileV22, ErrorProfileV24,
};
use codenoesis_contracts::s4_r12::R12ContractError;
use codenoesis_contracts::s4_r13::R13ContractError;
use codenoesis_contracts::s4_r14::R14ContractError;
use codenoesis_contracts::s4_r16::R16ContractError;

fn parsed(bytes: Vec<u8>) -> serde_json::Value {
    assert_eq!(bytes.last(), Some(&b'\n'));
    serde_json::from_slice(&bytes[..bytes.len() - 1]).expect("error document parses")
}

fn expected(text: &str) -> serde_json::Value {
    serde_json::from_str(text).expect("expected document parses")
}

fn v19() -> ErrorProfileV19 {
    ErrorProfileV19 {
        error_version: "codenoesis.error/v19".to_owned(),
        semantic_profile: "rust-cfg-alternatives-v1".to_owned(),
        framework_profile: "rust-framework-v1".to_owned(),
        callable_profile: "rust-callable-semantics-v1".to_owned(),
    }
}

fn v20() -> ErrorProfileV20 {
    ErrorProfileV20 {
        error_version: "codenoesis.error/v20".to_owned(),
        compiler_index_profile: "scip-compiler-index-v1".to_owned(),
        callable_profile: "rust-callable-semantics-v1".to_owned(),
    }
}

#[test]
fn workspace_and_manifest_errors_are_exact() {
    let error = CodeNoesisErrorV10::invalid_workspace_profile();
    assert_eq!(
        String::from_utf8(error.canonical_stderr()).unwrap(),
        "{\"code\":\"input.invalid_workspace_profile\",\"context\":{},\"message\":\"invalid workspace profile\",\"retryable\":false,\"schema_version\":\"codenoesis.error/v10\",\"stage\":\"input\"}\n"
    );
    let error = CodeNoesisErrorV11::internal();
    assert_eq!(
        parsed(error.canonical_stderr()),
        expected(r#"{"schema_version": "codenoesis.error/v11", "code": "internal.unexpected", "stage": "internal",
                     "message": "internal error", "retryable": false, "context": {}}"#)
    );
    let error = CodeNoesisErrorV11::invalid_manifest_profile();
    assert_eq!(parsed(error.canonical_stderr())["code"], "input.invalid_manifest_profile");
}

#[test]
fn semantic_profile_errors_bound_the_provided_profile() {
    let long = "p".repeat(300);
    let error = CodeNoesisErrorV12::invalid_rust_semantic_profile(&long);
    let document = parsed(error.canonical_stderr());
    assert_eq!(document["context"]["provided_profile"], "p".repeat(256));
    assert_eq!(document["schema_version"], "codenoesis.error/v12");
    let error = CodeNoesisErrorV12::unsupported_composition("rust-semantics-v1", "framework missing");
    assert_eq!(
        parsed(error.canonical_stderr())["context"],
        expected(r#"{"profile": "rust-semantics-v1", "reason": "framework missing",
                     "required_profile": "standard-local-s4+cargo-root-package-v1+cargo-manifest-facts-v1"}"#)
    );
    assert_eq!(parsed(CodeNoesisErrorV12::internal().canonical_stderr())["message"], "unexpected internal error");
}

#[test]
fn r12_contract_errors_map_to_export_documents() {
    let limit = R12ContractError::LimitExceeded { limit: "portable_graph_bytes", maximum: 10, observed: 11 };
    let document = parsed(CodeNoesisErrorV19::from_contract(&v19(), &limit, true).canonical_stderr());
    assert_eq!(
        document,
        expected(r#"{"schema_version": "codenoesis.error/v19", "code": "explorer.limit_exceeded", "stage": "explorer",
                     "message": "R12 portable graph limit exceeded", "retryable": false,
                     "context": {"limit": "portable_graph_bytes", "maximum": 10, "observed": 11}}"#)
    );
    let document = parsed(CodeNoesisErrorV19::from_contract(&v19(), &limit, false).canonical_stderr());
    assert_eq!(document["code"], "export.limit_exceeded");
    let projection = parsed(
        CodeNoesisErrorV19::from_contract(&v19(), &R12ContractError::InvalidProjection, false).canonical_stderr(),
    );
    assert_eq!(projection["code"], "export.invalid_portable_graph_v5");
    assert_eq!(projection["message"], "invalid portable graph V5");
    assert_eq!(projection["context"]["reason"], "invalid portable graph projection");
    let internal = parsed(CodeNoesisErrorV19::from_contract(&v19(), &R12ContractError::Internal, false).canonical_stderr());
    assert_eq!(internal["context"]["stage"], "contract");
    let schema = parsed(
        CodeNoesisErrorV19::from_contract(&v19(), &R12ContractError::UnsupportedSnapshotSchema("x/v1".to_owned()), false)
            .canonical_stderr(),
    );
    assert_eq!(schema["context"]["observed"], "x/v1");
}

#[test]
fn r12_unknown_optional_profile_is_an_unsupported_composition() {
    let document = parsed(CodeNoesisErrorV19::invalid_profile(&v19(), "other_profile", "x").canonical_stderr());
    assert_eq!(
        document["context"],
        expected(r#"{"callable_profile": "rust-callable-semantics-v1", "framework_profile": "rust-framework-v1",
                     "reason": "invalid_optional_profile", "semantic_profile": "rust-cfg-alternatives-v1"}"#)
    );
    let document = parsed(
        CodeNoesisErrorV19::invalid_profile(&v19(), "repository_boundary_profile", "boundaries-v0").canonical_stderr(),
    );
    assert_eq!(document["code"], "input.invalid_repository_boundary_profile");
    assert_eq!(document["context"]["provided_profile"], "boundaries-v0");
}

#[test]
fn r13_profile_errors_fall_back_to_missing() {
    let document = parsed(CodeNoesisErrorV20::invalid_profile(&v20(), "compiler_index_profile", "").canonical_stderr());
    assert_eq!(document["code"], "input.invalid_compiler_index_profile");
    assert_eq!(document["context"]["profile"], "missing");
    let document = parsed(CodeNoesisErrorV20::unsupported_composition(&v20(), "").canonical_stderr());
    assert_eq!(document["context"]["reason"], "unsupported_composition");
    let asset = parsed(
        CodeNoesisErrorV20::from_contract(&v20(), &R13ContractError::AssetIntegrityMismatch, true).canonical_stderr(),
    );
    assert_eq!(asset["message"], "R13 explorer asset integrity mismatch");
    let query = parsed(CodeNoesisErrorV20::invalid_query(&v20(), "missing_root").canonical_stderr());
    assert_eq!(query["code"], "query.invalid_v15");
    assert_eq!(query["context"]["reason"], "missing_root");
}

#[test]
fn later_profiles_map_contract_and_explorer_errors() {
    let v21 = ErrorProfileV21 {
        error_version: "codenoesis.error/v21".to_owned(),
        expression_profile: "rust-expression-bindings-v1".to_owned(),
    };
    let snapshot = parsed(
        CodeNoesisErrorV21::from_contract(&v21, &R14ContractError::UnsupportedSnapshotSchema("s".to_owned()))
            .canonical_stderr(),
    );
    assert_eq!(snapshot["code"], "export.invalid_snapshot");
    assert_eq!(snapshot["message"], "invalid R14 source snapshot");
    let other = parsed(CodeNoesisErrorV21::from_explorer_contract(&v21, &R14ContractError::InvalidSnapshot).canonical_stderr());
    assert_eq!(other["code"], "export.invalid_portable_graph_v7");
    let path = parsed(CodeNoesisErrorV21::unsafe_output_path(&v21, "", "").canonical_stderr());
    assert_eq!(path["context"], expected(r#"{"path_sha256": "invalid", "reason": "unsafe"}"#));
    let v22 = ErrorProfileV22 {
        error_version: "codenoesis.error/v22".to_owned(),
        flow_profile: "rust-local-flow-v1".to_owned(),
    };
    let composition = parsed(CodeNoesisErrorV22::unsupported_composition(&v22, "no flow").canonical_stderr());
    assert_eq!(
        composition["context"],
        expected(r#"{"reason": "no flow", "rust_expression_profile": "rust-expression-bindings-v1",
                     "rust_flow_profile": "rust-local-flow-v1"}"#)
    );
    let v24 = ErrorProfileV24 {
        error_version: "codenoesis.error/v24".to_owned(),
        flow_profile: "rust-local-flow-v1".to_owned(),
        constant_profile: "rust-constant-evaluation-v1".to_owned(),
    };
    let internal = parsed(CodeNoesisErrorV24::from_contract(&v24, &R16ContractError::Internal).canonical_stderr());
    assert_eq!(
        internal,
        expected(r#"{"schema_version": "codenoesis.error/v24", "code": "internal.failure", "stage": "contract",
                     "message": "internal failure", "retryable": false, "context": {}}"#)
    );
    let snapshot = parsed(CodeNoesisErrorV24::invalid_snapshot(&v24).canonical_stderr());
    assert_eq!(snapshot["code"], "store.invalid_snapshot_v18");
    assert_eq!(snapshot["stage"], "store");
}
