use codenoesis_contracts::json::Json;
use codenoesis_contracts::s4_r18::{
    valid_repository_path, RepositoryInventory, SnapshotVersions, SourceEnvironment, SourceFile,
    TrustedSourceError, TrustedSourceExcerptV1, TrustedSourceSelectionV1, MAX_R18_EXCERPT_BYTES,
    MAX_R18_PATH_BYTES, MAX_R18_STDOUT_BYTES,
};

type TestEnv = SourceEnvironment<fn(&[u8]) -> String, fn(&str) -> bool>;

fn test_sha256(bytes: &[u8]) -> String {
    format!("{:064x}", bytes.len())
}

fn identity_ok(value: &str) -> bool {
    value.starts_with("urn:codenoesis:")
}

fn env() -> TestEnv {
    SourceEnvironment {
        versions: SnapshotVersions {
            snapshot: "codenoesis.repository-snapshot/v18".to_owned(),
            graph: "codenoesis.knowledge-graph/v15".to_owned(),
            ontology: "codenoesis.ontology/v15".to_owned(),
        },
        sha256: test_sha256 as fn(&[u8]) -> String,
        identity_ok: identity_ok as fn(&str) -> bool,
    }
}

fn object_id(value: char) -> String {
    value.to_string().repeat(40)
}

fn identity() -> String {
    "urn:codenoesis:fixture:r18-contract".to_owned()
}

struct Parts {
    repository_identity: String,
    commit_oid: String,
    tree_oid: String,
    path: String,
    blob_oid: String,
    start_byte: u64,
    end_byte: u64,
}

fn parts(start_byte: u64, end_byte: u64) -> Parts {
    Parts {
        repository_identity: identity(),
        commit_oid: object_id('a'),
        tree_oid: object_id('b'),
        path: "src/lib.rs".to_owned(),
        blob_oid: object_id('1'),
        start_byte,
        end_byte,
    }
}

fn build(p: &Parts) -> TrustedSourceSelectionV1 {
    TrustedSourceSelectionV1::from_parts(
        &p.repository_identity,
        &p.commit_oid,
        &p.tree_oid,
        &format!("urn:codenoesis:snapshot:blake3:{}", "c".repeat(64)),
        &"d".repeat(64),
        &"e".repeat(64),
        &format!("urn:codenoesis:evidence:blake3:{}", "f".repeat(64)),
        &p.path,
        &p.blob_oid,
        p.start_byte,
        p.end_byte,
    )
}

fn selection(start_byte: u64, end_byte: u64) -> TrustedSourceSelectionV1 {
    build(&parts(start_byte, end_byte))
}

fn inventory(bytes: &[u8]) -> RepositoryInventory {
    RepositoryInventory {
        repository_identity: identity(),
        commit_oid: object_id('a'),
        tree_oid: object_id('b'),
        files: vec![SourceFile {
            path: "src/lib.rs".to_owned(),
            blob_oid: object_id('1'),
            bytes: bytes.to_vec(),
        }],
    }
}

fn at<'a>(value: &'a Json, path: &[&str]) -> &'a Json {
    let mut current = value;
    for key in path {
        current = current.get(key).expect("member present");
    }
    current
}

fn to_json(value: &serde_json::Value) -> Json {
    match value {
        serde_json::Value::Null => Json::Null,
        serde_json::Value::Bool(b) => Json::Bool(*b),
        serde_json::Value::Number(n) => match n.as_u64() {
            Some(v) => Json::UInt(v),
            None => Json::NegInt(n.as_i64().expect("integer")),
        },
        serde_json::Value::String(s) => Json::Str(s.clone()),
        serde_json::Value::Array(items) => Json::Array(items.iter().map(to_json).collect()),
        serde_json::Value::Object(fields) => Json::Object(
            fields
                .iter()
                .map(|(k, v)| (k.clone(), to_json(v)))
                .collect(),
        ),
    }
}

fn parse(bytes: &[u8]) -> Option<Json> {
    let canonical = bytes.strip_suffix(b"\n")?;
    serde_json::from_slice::<serde_json::Value>(canonical)
        .ok()
        .map(|v| to_json(&v))
}

fn reimport(bytes: &[u8]) -> Result<TrustedSourceExcerptV1, TrustedSourceError> {
    TrustedSourceExcerptV1::from_canonical_stdout(bytes, parse(bytes), &env())
}

#[test]
fn conf_fr_ctx_002_positions_are_unicode_scalar_and_crlf_aware() {
    let source = "α\r\nbeta\n";
    let selection = selection(0, u64::try_from(source.len()).expect("source length"));
    let inventory = inventory(source.as_bytes());
    let excerpt = TrustedSourceExcerptV1::from_inventory(&selection, &inventory, &env())
        .expect("valid source excerpt");
    let value = excerpt.value();
    assert_eq!(
        at(value, &["evidence", "span", "start_position", "line"]),
        &Json::UInt(1)
    );
    assert_eq!(
        at(value, &["evidence", "span", "start_position", "column"]),
        &Json::UInt(1)
    );
    assert_eq!(
        at(value, &["evidence", "span", "end_position", "line"]),
        &Json::UInt(3)
    );
    assert_eq!(
        at(value, &["evidence", "span", "end_position", "column"]),
        &Json::UInt(1)
    );
    reimport(&excerpt.canonical_stdout()).expect("canonical reimport");
}

#[test]
fn sec_fr_ctx_002_rejects_non_utf8_and_non_scalar_boundaries() {
    let invalid_utf8 = inventory(&[0xff]);
    assert_eq!(
        TrustedSourceExcerptV1::from_inventory(&selection(0, 1), &invalid_utf8, &env())
            .unwrap_err(),
        TrustedSourceError::ContentRejected
    );
    let multibyte = inventory("α".as_bytes());
    assert_eq!(
        TrustedSourceExcerptV1::from_inventory(&selection(1, 2), &multibyte, &env()).unwrap_err(),
        TrustedSourceError::ContentRejected
    );
}

#[test]
fn inv_bnd_001_excerpt_maximum_plus_one_is_rejected() {
    let bytes = vec![b'a'; usize::try_from(MAX_R18_EXCERPT_BYTES + 1).expect("limit")];
    let inventory = inventory(&bytes);
    assert_eq!(
        TrustedSourceExcerptV1::from_inventory(
            &selection(0, MAX_R18_EXCERPT_BYTES + 1),
            &inventory,
            &env(),
        )
        .unwrap_err(),
        TrustedSourceError::LimitExceeded
    );
}

#[test]
fn inv_bnd_001_exact_excerpt_and_stdout_limits_are_enforced() {
    let bytes = vec![b'a'; usize::try_from(MAX_R18_EXCERPT_BYTES).expect("limit")];
    let excerpt = TrustedSourceExcerptV1::from_inventory(
        &selection(0, MAX_R18_EXCERPT_BYTES),
        &inventory(&bytes),
        &env(),
    )
    .expect("exact excerpt maximum");
    assert!(
        u64::try_from(excerpt.canonical_stdout().len()).expect("stdout length")
            <= MAX_R18_STDOUT_BYTES
    );

    let exact_stdout = vec![b' '; usize::try_from(MAX_R18_STDOUT_BYTES).expect("limit")];
    assert_eq!(
        reimport(&exact_stdout).unwrap_err(),
        TrustedSourceError::InvalidEvidence
    );
    let oversized_stdout = vec![b' '; usize::try_from(MAX_R18_STDOUT_BYTES + 1).expect("limit")];
    assert_eq!(
        reimport(&oversized_stdout).unwrap_err(),
        TrustedSourceError::LimitExceeded
    );
}

#[test]
fn sec_fr_ctx_002_repository_blob_path_and_span_mismatches_fail_closed() {
    let source = inventory(b"a");

    let mut repository = parts(0, 1);
    repository.repository_identity = "urn:codenoesis:fixture:r18-other".to_owned();
    assert_eq!(
        TrustedSourceExcerptV1::from_inventory(&build(&repository), &source, &env()).unwrap_err(),
        TrustedSourceError::RepositoryMismatch
    );

    let mut commit = parts(0, 1);
    commit.commit_oid = object_id('2');
    assert_eq!(
        TrustedSourceExcerptV1::from_inventory(&build(&commit), &source, &env()).unwrap_err(),
        TrustedSourceError::RepositoryMismatch
    );

    let mut tree = parts(0, 1);
    tree.tree_oid = object_id('3');
    assert_eq!(
        TrustedSourceExcerptV1::from_inventory(&build(&tree), &source, &env()).unwrap_err(),
        TrustedSourceError::RepositoryMismatch
    );

    let mut blob = parts(0, 1);
    blob.blob_oid = object_id('4');
    assert_eq!(
        TrustedSourceExcerptV1::from_inventory(&build(&blob), &source, &env()).unwrap_err(),
        TrustedSourceError::RepositoryMismatch
    );

    let mut path = parts(0, 1);
    path.path = "src/missing.rs".to_owned();
    assert_eq!(
        TrustedSourceExcerptV1::from_inventory(&build(&path), &source, &env()).unwrap_err(),
        TrustedSourceError::PathRejected
    );

    for span in [selection(0, 2), selection(1, 1)] {
        assert_eq!(
            TrustedSourceExcerptV1::from_inventory(&span, &source, &env()).unwrap_err(),
            TrustedSourceError::InvalidEvidence
        );
    }
}

#[test]
fn sec_fr_ctx_002_repository_paths_are_bounded_and_relative() {
    assert!(valid_repository_path("a"));
    assert!(valid_repository_path(&"a".repeat(MAX_R18_PATH_BYTES)));
    for path in [
        "",
        "/src/lib.rs",
        "../src/lib.rs",
        "src/../lib.rs",
        "src/./lib.rs",
        "src//lib.rs",
        "src\\lib.rs",
        "src/\u{0}lib.rs",
        &"a".repeat(MAX_R18_PATH_BYTES + 1),
    ] {
        assert!(
            !valid_repository_path(path),
            "unsafe path accepted: {path:?}"
        );
    }
}

#[test]
fn sec_fr_ctx_002_lfs_pointer_is_never_resolved_as_remote_content() {
    let pointer = "version https://git-lfs.github.com/spec/v1\n\
oid sha256:aaaaaaaaaaaaaaaaaaaaaaaaaaaaaaaaaaaaaaaaaaaaaaaaaaaaaaaaaaaaaaaa\n\
size 123456\n";
    let excerpt = TrustedSourceExcerptV1::from_inventory(
        &selection(0, u64::try_from(pointer.len()).expect("pointer length")),
        &inventory(pointer.as_bytes()),
        &env(),
    )
    .expect("immutable LFS pointer bytes");
    assert_eq!(
        at(excerpt.value(), &["excerpt", "text"]),
        &Json::Str(pointer.to_owned())
    );
    assert_eq!(
        at(excerpt.value(), &["authority"]),
        &Json::Str("explicit_local_git_object_only".to_owned())
    );
}

#[test]
fn excerpt_stdout_reimport_gives_back_the_same_document() {
    let source = "fn main() {}\n";
    let selection = selection(0, u64::try_from(source.len()).expect("source length"));
    let inventory = inventory(source.as_bytes());
    let excerpt = TrustedSourceExcerptV1::from_inventory(&selection, &inventory, &env())
        .expect("valid source excerpt");
    let stdout = excerpt.canonical_stdout();
    let again = reimport(&stdout).expect("canonical reimport");
    assert_eq!(again.value(), excerpt.value());
    assert_eq!(again.canonical_stdout(), stdout);
    assert_eq!(
        at(excerpt.value(), &["excerpt", "byte_length"]),
        &Json::UInt(13)
    );
    assert_eq!(
        at(excerpt.value(), &["evidence", "path"]),
        &Json::Str("src/lib.rs".to_owned())
    );
}

#[test]
fn excerpt_blob_mismatch_is_a_repository_mismatch() {
    let selection = selection(0, 1);
    let mut inventory = inventory(b"a\n");
    inventory.files[0].blob_oid = object_id('2');
    assert_eq!(
        TrustedSourceExcerptV1::from_inventory(&selection, &inventory, &env()).unwrap_err(),
        TrustedSourceError::RepositoryMismatch
    );
}
