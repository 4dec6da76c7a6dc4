//! R14 portable-graph contract rules: size and nesting limits, privacy of
//! payloads, relative paths, expression kinds and explorer scripts.
use vstd::prelude::*;
use crate::portable::{
    evidence_location, family_ids, family_outcome, locate_evidence, reference_fault,
    reference_list_fault, reference_list_outcome, reference_outcome, texts, EvidenceLocation, Fault,
    FaultView,
};
use crate::json::{first_finding, find_unsafe, height, member_text, names_view, FindingView, Json};
use crate::text::{
    balanced_scripts, balanced_scripts_rule, one_of, patterns_view, text_one_of,
    
    all_lower_hex, bounded_text, chars_all_lower_hex, chars_of, repeat_char, repeated,
    safe_relative_path_rule, safe_relative_path_text, take_scalars, utf8_len_at_most, utf8_len,
};

use crate::s4_r18::LocalSnapshotHead;
use crate::json::{entry, json_copy, member, member_count};

verus! {

pub const R14_PORTABLE_MARKER: &'static str = ".codenoesis-portable-graph-v7";
pub const R14_EXPLORER_MARKER: &'static str = ".codenoesis-local-explorer-v7";
pub const R14_EXPLORER_SECURITY_PROFILE: &'static str = "codenoesis.local-explorer-security/v7";
pub const MAX_R14_PORTABLE_GRAPH_BYTES: u64 = 268_435_456;
pub const MAX_R14_JSON_NESTING: u64 = 64;
pub const MAX_R14_TEXT_SEARCH_RESULTS: u64 = 100;
pub const R14_TRAVERSAL_DEPTH_DEFAULT: u64 = 1;
pub const MAX_R14_TRAVERSAL_DEPTH: u64 = 2;

/// Why an R14 portable graph or projection is refused.
#[derive(Clone, Debug, PartialEq, Eq)]
pub enum R14ContractError {
    InvalidSnapshot,
    UnsupportedSnapshotSchema(String),
    UnsupportedPortableGraphSchema(String),
    Noncanonical { expected_sha256: String, observed_sha256: String },
    IdentityConflict { family: &'static str, id: String },
    ReferenceMismatch { family: &'static str, id: String },
    LimitExceeded { limit: &'static str, maximum: u64, observed: u64 },
    UnsafePayload { reason: &'static str },
    AssetIntegrityMismatch,
    InvalidProjection,
    Internal,
}

impl R14ContractError {
    /// The human-readable message of the error.
    pub fn message(&self) -> (r: &'static str)
        ensures
            r@ == match self {
                R14ContractError::InvalidSnapshot => "invalid R14 snapshot"@,
                R14ContractError::UnsupportedSnapshotSchema(_) => "unsupported R14 snapshot schema"@,
                R14ContractError::UnsupportedPortableGraphSchema(_) => "unsupported portable graph schema"@,
                R14ContractError::Noncanonical { .. } => "noncanonical portable graph"@,
                R14ContractError::IdentityConflict { .. } => "portable graph identity conflict"@,
                R14ContractError::ReferenceMismatch { .. } => "portable graph reference mismatch"@,
                R14ContractError::LimitExceeded { .. } => "portable graph limit exceeded"@,
                R14ContractError::UnsafePayload { .. } => "unsafe portable payload"@,
                R14ContractError::AssetIntegrityMismatch => "explorer asset integrity mismatch"@,
                R14ContractError::InvalidProjection => "invalid portable graph projection"@,
                R14ContractError::Internal => "internal R14 contract failure"@,
            },
    {
        match self {
            R14ContractError::InvalidSnapshot => "invalid R14 snapshot",
            R14ContractError::UnsupportedSnapshotSchema(_) => "unsupported R14 snapshot schema",
            R14ContractError::UnsupportedPortableGraphSchema(_) => "unsupported portable graph schema",
            R14ContractError::Noncanonical { .. } => "noncanonical portable graph",
            R14ContractError::IdentityConflict { .. } => "portable graph identity conflict",
            R14ContractError::ReferenceMismatch { .. } => "portable graph reference mismatch",
            R14ContractError::LimitExceeded { .. } => "portable graph limit exceeded",
            R14ContractError::UnsafePayload { .. } => "unsafe portable payload",
            R14ContractError::AssetIntegrityMismatch => "explorer asset integrity mismatch",
            R14ContractError::InvalidProjection => "invalid portable graph projection",
            R14ContractError::Internal => "internal R14 contract failure",
        }
    }
}

/// A portable graph of `length` bytes is accepted exactly when it is at most
/// [`MAX_R14_PORTABLE_GRAPH_BYTES`] long.
pub fn enforce_portable_size(length: usize) -> (r: Result<(), R14ContractError>)
    ensures
        r is Ok <==> length <= MAX_R14_PORTABLE_GRAPH_BYTES,
        r is Err ==> (r matches Err(R14ContractError::LimitExceeded { limit, maximum, observed })
            && limit@ == "portable_graph_bytes"@ && maximum == MAX_R14_PORTABLE_GRAPH_BYTES
            && observed == length),
{
    let observed = length as u64;
    if observed > MAX_R14_PORTABLE_GRAPH_BYTES {
        return Err(
            R14ContractError::LimitExceeded {
                limit: "portable_graph_bytes",
                maximum: MAX_R14_PORTABLE_GRAPH_BYTES,
                observed,
            },
        );
    }
    Ok(())
}

/// A value entered at `depth` is accepted exactly when no member lies deeper
/// than [`MAX_R14_JSON_NESTING`]; the error reports the first depth observed
/// above the maximum.
pub fn ensure_nesting(value: &Json, depth: u64) -> (r: Result<(), R14ContractError>)
    ensures
        r is Ok <==> depth + height(*value) <= MAX_R14_JSON_NESTING,
        r is Err ==> (r matches Err(R14ContractError::LimitExceeded { limit, maximum, observed })
            && limit@ == "json_nesting"@ && maximum == MAX_R14_JSON_NESTING && observed == if depth
            > MAX_R14_JSON_NESTING {
            depth
        } else {
            (MAX_R14_JSON_NESTING + 1) as u64
        }),
{
    match crate::json::nesting_within(value, depth, MAX_R14_JSON_NESTING) {
        Ok(()) => Ok(()),
        Err(observed) => Err(
            R14ContractError::LimitExceeded {
                limit: "json_nesting",
                maximum: MAX_R14_JSON_NESTING,
                observed,
            },
        ),
    }
}

/// Member names that an R14 portable payload never holds.
pub open spec fn r14_private_fields() -> Seq<Seq<char>> {
    seq![
        "body_text"@,
        "expression_text"@,
        "initializer_text"@,
        "literal_lexeme"@,
        "source_contents"@,
        "source_snippet"@,
        "repository_root"@,
        "absolute_path"@,
        "raw_url"@,
        "credentials"@,
        "environment"@,
        "arguments"@,
        "telemetry"@,
    ]
}

/// A payload is accepted exactly when it holds no private member name and
/// no string with `://`; the first finding of an in-order walk decides the
/// reason.
pub fn validate_private_fields(value: &Json) -> (r: Result<(), R14ContractError>)
    ensures
        r is Ok <==> first_finding(*value, r14_private_fields(), true) is None,
        first_finding(*value, r14_private_fields(), true) matches Some(FindingView::DeniedField(_))
            ==> (r matches Err(R14ContractError::UnsafePayload { reason }) && reason@ == "private_field"@),
        first_finding(*value, r14_private_fields(), true) matches Some(FindingView::Url)
            ==> (r matches Err(R14ContractError::UnsafePayload { reason }) && reason@ == "raw_url"@),
{
    let denied = [
        "body_text",
        "expression_text",
        "initializer_text",
        "literal_lexeme",
        "source_contents",
        "source_snippet",
        "repository_root",
        "absolute_path",
        "raw_url",
        "credentials",
        "environment",
        "arguments",
        "telemetry",
    ];
    assert(names_view(denied@) =~= r14_private_fields());
    match find_unsafe(value, &denied, true) {
        None => Ok(()),
        Some(crate::json::Finding::DeniedField(_)) => Err(
            R14ContractError::UnsafePayload { reason: "private_field" },
        ),
        Some(crate::json::Finding::Url) => Err(R14ContractError::UnsafePayload { reason: "raw_url" }),
    }
}

/// Repository-relative output paths of the portable graph
/// ([`safe_relative_path_rule`]).
pub fn safe_relative_path(value: &str) -> (r: bool)
    ensures
        r == safe_relative_path_rule(value@),
{
    safe_relative_path_text(value)
}

/// The `id` of a record (`value.get("id").and_then(Value::as_str)`).
pub fn record_id(value: &Json) -> (r: Option<&str>)
    ensures
        match r {
            Some(t) => member_text(*value, "id"@) == Some(t@),
            None => member_text(*value, "id"@) is None,
        },
{
    value.get_str("id")
}

/// A lowercase hexadecimal SHA-256 digest: 64 lowercase hex digits.
pub open spec fn sha256_text(s: Seq<char>) -> bool {
    s.len() == 64 && all_lower_hex(s)
}

/// Whether `value` is a lowercase hexadecimal SHA-256 digest.
pub fn valid_sha256(value: &str) -> (r: bool)
    ensures
        r == sha256_text(value@),
{
    let cs = chars_of(value);
    cs.len() == 64 && chars_all_lower_hex(cs.as_slice())
}

/// The first `maximum` scalars of `value`.
pub fn bounded(value: &str, maximum: usize) -> (r: String)
    ensures
        r@ == take_scalars(value@, maximum as nat),
{
    bounded_text(value, maximum)
}

/// The first `maximum` scalars of `value`, or `fallback` when they are none.
pub fn bounded_nonempty(value: &str, maximum: usize, fallback: &str) -> (r: String)
    ensures
        r@ == if take_scalars(value@, maximum as nat).len() == 0 {
            fallback@
        } else {
            take_scalars(value@, maximum as nat)
        },
{
    let value = bounded(value, maximum);
    if value.as_str().is_empty() {
        fallback.to_owned()
    } else {
        value
    }
}

/// The identifiers of the records of `family` (each record's `id_field`),
/// which must be present, non-empty and strictly increasing.
pub fn validate_family(object: &Json, family: &'static str, id_field: &'static str) -> (r: Result<
    Vec<String>,
    R14ContractError,
>)
    ensures
        match family_outcome(*object, family@, id_field@) {
            Ok(ids) => r matches Ok(v) && texts(v@) == ids,
            Err(FaultView::Malformed) => r matches Err(R14ContractError::InvalidProjection),
            Err(FaultView::Offending(id)) => r matches Err(
                R14ContractError::IdentityConflict { family: f, id: i },
            ) && f == family && i@ == id,
        },
        r matches Ok(v) ==> crate::textset::sorted_texts(texts(v@)),
{
    match family_ids(object, family, id_field) {
        Ok(ids) => Ok(ids),
        Err(Fault::Malformed) => Err(R14ContractError::InvalidProjection),
        Err(Fault::Offending(id)) => Err(R14ContractError::IdentityConflict { family, id }),
    }
}

/// The reference under `field` of `record` names one of `identifiers`.
pub fn validate_reference(
    record: &Json,
    field: &'static str,
    identifiers: &[String],
    family: &'static str,
) -> (r: Result<(), R14ContractError>)
    ensures
        match reference_outcome(*record, field@, texts(identifiers@)) {
            None => r is Ok,
            Some(FaultView::Malformed) => r matches Err(R14ContractError::InvalidProjection),
            Some(FaultView::Offending(id)) => r matches Err(
                R14ContractError::ReferenceMismatch { family: f, id: i },
            ) && f == family && i@ == id,
        },
{
    match reference_fault(record, field, identifiers) {
        None => Ok(()),
        Some(Fault::Malformed) => Err(R14ContractError::InvalidProjection),
        Some(Fault::Offending(id)) => Err(R14ContractError::ReferenceMismatch { family, id }),
    }
}

/// Each reference listed under `field`, when the field is present, names one
/// of `identifiers`.
pub fn validate_reference_array_if_present(
    record: &Json,
    field: &'static str,
    identifiers: &[String],
    family: &'static str,
) -> (r: Result<(), R14ContractError>)
    ensures
        match reference_list_outcome(*record, field@, texts(identifiers@)) {
            None => r is Ok,
            Some(FaultView::Malformed) => r matches Err(R14ContractError::InvalidProjection),
            Some(FaultView::Offending(id)) => r matches Err(
                R14ContractError::ReferenceMismatch { family: f, id: i },
            ) && f == family && i@ == id,
        },
{
    match reference_list_fault(record, field, identifiers) {
        None => Ok(()),
        Some(Fault::Malformed) => Err(R14ContractError::InvalidProjection),
        Some(Fault::Offending(id)) => Err(R14ContractError::ReferenceMismatch { family, id }),
    }
}

/// An evidence record points at a safe repository path or at an artifact
/// ([`evidence_location`]).
pub fn validate_evidence_path(evidence: &Json) -> (r: Result<(), R14ContractError>)
    ensures
        match evidence_location(*evidence) {
            EvidenceLocation::Accepted => r is Ok,
            EvidenceLocation::UnsafeEvidencePath => r matches Err(
                R14ContractError::UnsafePayload { reason },
            ) && reason@ == "unsafe_evidence_path"@,
            EvidenceLocation::UnsafeDocumentPath => r matches Err(
                R14ContractError::UnsafePayload { reason },
            ) && reason@ == "unsafe_document_path"@,
            EvidenceLocation::Unanchored => r matches Err(R14ContractError::InvalidProjection),
        },
{
    match locate_evidence(evidence) {
        EvidenceLocation::Accepted => Ok(()),
        EvidenceLocation::UnsafeEvidencePath => Err(
            R14ContractError::UnsafePayload { reason: "unsafe_evidence_path" },
        ),
        EvidenceLocation::UnsafeDocumentPath => Err(
            R14ContractError::UnsafePayload { reason: "unsafe_document_path" },
        ),
        EvidenceLocation::Unanchored => Err(R14ContractError::InvalidProjection),
    }
}

/// Entity kinds of the expression-binding layer.
pub open spec fn expression_entity_kinds() -> Seq<Seq<char>> {
    seq!["rust.expression"@, "rust.call_argument"@, "rust.pattern_binding"@]
}

/// Relationship kinds of the expression-binding layer.
pub open spec fn expression_relationship_kinds() -> Seq<Seq<char>> {
    seq![
        "HAS_EXPRESSION"@,
        "CONTAINS_EXPRESSION"@,
        "HAS_ARGUMENT"@,
        "ARGUMENT_VALUE"@,
        "HAS_RECEIVER"@,
        "REPRESENTS_CALL_SITE"@,
        "DECLARES_BINDING"@,
        "BINDS_FROM"@,
        "READS"@,
        "WRITES"@,
    ]
}

/// Whether `kind` is an expression-binding entity kind.
pub fn is_expression_entity_kind(kind: &str) -> (r: bool)
    ensures
        r == one_of(kind@, expression_entity_kinds()),
{
    let kinds = ["rust.expression", "rust.call_argument", "rust.pattern_binding"];
    assert(patterns_view(kinds@) =~= expression_entity_kinds());
    text_one_of(kind, &kinds)
}

/// Whether `kind` is an expression-binding relationship kind.
pub fn is_expression_relationship_kind(kind: &str) -> (r: bool)
    ensures
        r == one_of(kind@, expression_relationship_kinds()),
{
    let kinds = [
        "HAS_EXPRESSION",
        "CONTAINS_EXPRESSION",
        "HAS_ARGUMENT",
        "ARGUMENT_VALUE",
        "HAS_RECEIVER",
        "REPRESENTS_CALL_SITE",
        "DECLARES_BINDING",
        "BINDS_FROM",
        "READS",
        "WRITES",
    ];
    assert(patterns_view(kinds@) =~= expression_relationship_kinds());
    text_one_of(kind, &kinds)
}

/// The explorer page is UTF-8 and, ASCII-lowercased, holds as many
/// `</script>` closings as `<script` openings, and at least one
/// ([`balanced_scripts_rule`]).
pub fn balanced_script_elements(bytes: &[u8]) -> (r: bool)
    ensures
        r == balanced_scripts_rule(bytes@),
{
    balanced_scripts(bytes)
}


impl R14ContractError {
    /// The error as the contracts see it.
    pub open spec fn fault(self) -> crate::s4_r13::PortableFault {
        match self {
            R14ContractError::InvalidSnapshot => crate::s4_r13::PortableFault::InvalidSnapshot,
            R14ContractError::LimitExceeded { limit, maximum, observed } => crate::s4_r13::PortableFault::LimitExceeded {
                limit: limit@,
                maximum,
                observed,
            },
            R14ContractError::UnsafePayload { reason } => crate::s4_r13::PortableFault::UnsafePayload(reason@),
            R14ContractError::InvalidProjection => crate::s4_r13::PortableFault::InvalidProjection,
            R14ContractError::UnsupportedPortableGraphSchema(s) => crate::s4_r13::PortableFault::UnsupportedPortableGraphSchema(
                s@,
            ),
            R14ContractError::IdentityConflict { family, id } => crate::s4_r13::PortableFault::IdentityConflict(
                family@,
                id@,
            ),
            R14ContractError::ReferenceMismatch { family, id } => crate::s4_r13::PortableFault::ReferenceMismatch(
                family@,
                id@,
            ),
            _ => crate::s4_r13::PortableFault::Other,
        }
    }
}

/// An R13 reference or path error, raised by the shared portable checks, as
/// an R15 error.
fn from_r13(e: crate::s4_r13::R13ContractError) -> (r: R14ContractError)
    ensures
        r.fault() == e.fault(),
{
    match e {
        crate::s4_r13::R13ContractError::InvalidSnapshot => R14ContractError::InvalidSnapshot,
        crate::s4_r13::R13ContractError::UnsupportedSnapshotSchema(s) => R14ContractError::UnsupportedSnapshotSchema(s),
        crate::s4_r13::R13ContractError::UnsupportedPortableGraphSchema(s) => R14ContractError::UnsupportedPortableGraphSchema(
            s,
        ),
        crate::s4_r13::R13ContractError::Noncanonical { expected_sha256, observed_sha256 } => R14ContractError::Noncanonical {
            expected_sha256,
            observed_sha256,
        },
        crate::s4_r13::R13ContractError::IdentityConflict { family, id } => R14ContractError::IdentityConflict {
            family,
            id,
        },
        crate::s4_r13::R13ContractError::ReferenceMismatch { family, id } => R14ContractError::ReferenceMismatch {
            family,
            id,
        },
        crate::s4_r13::R13ContractError::LimitExceeded { limit, maximum, observed } => R14ContractError::LimitExceeded {
            limit,
            maximum,
            observed,
        },
        crate::s4_r13::R13ContractError::UnsafePayload { reason } => R14ContractError::UnsafePayload { reason },
        crate::s4_r13::R13ContractError::AssetIntegrityMismatch => R14ContractError::AssetIntegrityMismatch,
        crate::s4_r13::R13ContractError::InvalidProjection => R14ContractError::InvalidProjection,
        crate::s4_r13::R13ContractError::Internal => R14ContractError::Internal,
    }
}

/// An R13 reference or path error, raised by the shared portable checks, as
/// an R15 error.
fn from_r15(e: crate::s4_r15::R15ContractError) -> (r: R14ContractError)
    ensures
        r.fault() == e.fault(),
{
    match e {
        crate::s4_r15::R15ContractError::InvalidSnapshot => R14ContractError::InvalidSnapshot,
        crate::s4_r15::R15ContractError::UnsupportedSnapshotSchema(s) => R14ContractError::UnsupportedSnapshotSchema(s),
        crate::s4_r15::R15ContractError::UnsupportedPortableGraphSchema(s) => R14ContractError::UnsupportedPortableGraphSchema(
            s,
        ),
        crate::s4_r15::R15ContractError::Noncanonical { expected_sha256, observed_sha256 } => R14ContractError::Noncanonical {
            expected_sha256,
            observed_sha256,
        },
        crate::s4_r15::R15ContractError::IdentityConflict { family, id } => R14ContractError::IdentityConflict {
            family,
            id,
        },
        crate::s4_r15::R15ContractError::ReferenceMismatch { family, id } => R14ContractError::ReferenceMismatch {
            family,
            id,
        },
        crate::s4_r15::R15ContractError::LimitExceeded { limit, maximum, observed } => R14ContractError::LimitExceeded {
            limit,
            maximum,
            observed,
        },
        crate::s4_r15::R15ContractError::UnsafePayload { reason } => R14ContractError::UnsafePayload { reason },
        crate::s4_r15::R15ContractError::AssetIntegrityMismatch => R14ContractError::AssetIntegrityMismatch,
        crate::s4_r15::R15ContractError::InvalidProjection => R14ContractError::InvalidProjection,
        crate::s4_r15::R15ContractError::Internal => R14ContractError::Internal,
    }
}


fn checked_r13(r: Result<(), crate::s4_r13::R13ContractError>) -> (res: Result<(), R14ContractError>)
    ensures
        r is Ok ==> res is Ok,
        r is Err ==> res is Err && res->Err_0.fault() == r->Err_0.fault(),
{
    match r {
        Ok(()) => Ok(()),
        Err(e) => Err(from_r13(e)),
    }
}

fn checked_r15(r: Result<(), crate::s4_r15::R15ContractError>) -> (res: Result<(), R14ContractError>)
    ensures
        r is Ok ==> res is Ok,
        r is Err ==> res is Err && res->Err_0.fault() == r->Err_0.fault(),
{
    match r {
        Ok(()) => Ok(()),
        Err(e) => Err(from_r15(e)),
    }
}


/// The schema names of the R14 portable-graph profile, as the caller's
/// domain model declares them.
#[derive(Clone, Debug, PartialEq, Eq)]
pub struct PortableVersionsV7 {
    pub portable_graph: String,
    pub ontology: String,
    pub query: String,
    pub snapshot: String,
}

/// The member names of a V7 portable graph without repository boundaries.
pub open spec fn portable_v7_keys() -> Seq<Seq<char>> {
    seq![
        "claims"@,
        "coverage_gaps"@,
        "diagnostics"@,
        "document_statements"@,
        "documents"@,
        "entities"@,
        "evidence"@,
        "ontology_version"@,
        "projection"@,
        "query_contract_version"@,
        "relationships"@,
        "repository"@,
        "schema_version"@,
        "source_snapshot"@,
    ]
}

/// What is wrong with the envelope of a V7 portable graph, in the order the
/// checks run: nesting, private payloads, the member set (repository
/// boundaries optional), the schema, the declared versions and profile, and
/// the repository identity.
pub open spec fn portable_v7_header_fault(value: Json, v: PortableVersionsV7) -> Option<crate::s4_r13::PortableFault> {
    if height(value) > MAX_R14_JSON_NESTING {
        Some(
            crate::s4_r13::PortableFault::LimitExceeded {
                limit: "json_nesting"@,
                maximum: MAX_R14_JSON_NESTING,
                observed: (MAX_R14_JSON_NESTING + 1) as u64,
            },
        )
    } else if first_finding(value, r14_private_fields(), true) is Some {
        match first_finding(value, r14_private_fields(), true) {
            Some(FindingView::DeniedField(_)) => Some(crate::s4_r13::PortableFault::UnsafePayload("private_field"@)),
            _ => Some(crate::s4_r13::PortableFault::UnsafePayload("raw_url"@)),
        }
    } else if !(crate::portable::same_key_set(value, portable_v7_keys()) || crate::portable::same_key_set(
        value,
        portable_v7_keys().push("repository_boundaries"@),
    )) {
        Some(crate::s4_r13::PortableFault::InvalidProjection)
    } else {
        match member_text(value, "schema_version"@) {
            None => Some(crate::s4_r13::PortableFault::InvalidProjection),
            Some(schema) => if schema != v.portable_graph@ {
                Some(crate::s4_r13::PortableFault::UnsupportedPortableGraphSchema(take_scalars(schema, 256)))
            } else if member_text(value, "ontology_version"@) != Some(v.ontology@) || member_text(
                value,
                "query_contract_version"@,
            ) != Some(v.query@) || crate::s4_r13::pointer_text(value, "source_snapshot"@, "schema_version"@)
                != Some(v.snapshot@) || crate::s4_r13::pointer_text(value, "projection"@, "profile"@) != Some(
                "codenoesis.lossless-portable-projection/v7"@,
            ) {
                Some(crate::s4_r13::PortableFault::InvalidProjection)
            } else if !(crate::s4_r13::pointer_text(value, "repository"@, "identity"@) matches Some(id)
                && crate::text::starts_with(id, "urn:codenoesis:"@)) {
                Some(crate::s4_r13::PortableFault::InvalidProjection)
            } else {
                None
            },
        }
    }
}

fn check_portable_v7_header<'a>(value: &'a Json, versions: &PortableVersionsV7) -> (r: Result<
    &'a str,
    R14ContractError,
>)
    ensures
        r is Err ==> !(r->Err_0.fault() is Other),
        match portable_v7_header_fault(*value, *versions) {
            Some(f) => r is Err && r->Err_0.fault() == f,
            None => r matches Ok(id) && crate::s4_r13::pointer_text(*value, "repository"@, "identity"@) == Some(id@),
        },
{
    ensure_nesting(value, 0)?;
    validate_private_fields(value)?;
    let keys = [
        "claims",
        "coverage_gaps",
        "diagnostics",
        "document_statements",
        "documents",
        "entities",
        "evidence",
        "ontology_version",
        "projection",
        "query_contract_version",
        "relationships",
        "repository",
        "schema_version",
        "source_snapshot",
    ];
    let keys_with_boundaries = [
        "claims",
        "coverage_gaps",
        "diagnostics",
        "document_statements",
        "documents",
        "entities",
        "evidence",
        "ontology_version",
        "projection",
        "query_contract_version",
        "relationships",
        "repository",
        "schema_version",
        "source_snapshot",
        "repository_boundaries",
    ];
    assert(names_view(keys@) =~= portable_v7_keys());
    assert(names_view(keys_with_boundaries@) =~= portable_v7_keys().push("repository_boundaries"@));
    if !crate::portable::has_key_set(value, &keys) && !crate::portable::has_key_set(value, &keys_with_boundaries) {
        return Err(R14ContractError::InvalidProjection);
    }
    let schema = match value.get_str("schema_version") {
        Some(t) => t,
        None => return Err(R14ContractError::InvalidProjection),
    };
    if !crate::text::text_eq(schema, versions.portable_graph.as_str()) {
        return Err(R14ContractError::UnsupportedPortableGraphSchema(bounded(schema, 256)));
    }
    let ontology_ok = match value.get_str("ontology_version") {
        Some(t) => crate::text::text_eq(t, versions.ontology.as_str()),
        None => false,
    };
    let query_ok = match value.get_str("query_contract_version") {
        Some(t) => crate::text::text_eq(t, versions.query.as_str()),
        None => false,
    };
    let snapshot_ok = match crate::s4_r13::pointer_str(value, "source_snapshot", "schema_version") {
        Some(t) => crate::text::text_eq(t, versions.snapshot.as_str()),
        None => false,
    };
    let profile_ok = match crate::s4_r13::pointer_str(value, "projection", "profile") {
        Some(t) => crate::text::text_eq(t, "codenoesis.lossless-portable-projection/v7"),
        None => false,
    };
    if !ontology_ok || !query_ok || !snapshot_ok || !profile_ok {
        return Err(R14ContractError::InvalidProjection);
    }
    match crate::s4_r13::pointer_str(value, "repository", "identity") {
        Some(id) => if crate::text::text_starts_with(id, "urn:codenoesis:") {
            Ok(id)
        } else {
            Err(R14ContractError::InvalidProjection)
        },
        None => Err(R14ContractError::InvalidProjection),
    }
}


/// What the repository boundaries of a V7 portable graph contribute to its
/// document statements (subjects, evidence, coverage gaps), or `None` when
/// they are malformed or unsafe; a graph without boundaries contributes
/// nothing.
pub open spec fn v7_boundary_ids(value: Json) -> Option<(Seq<Seq<char>>, Seq<Seq<char>>, Seq<Seq<char>>)> {
    match crate::json::member(value, "repository_boundaries"@) {
        None => Some((Seq::empty(), Seq::empty(), Seq::empty())),
        Some(b) => if crate::s4_r12::boundary_projection_fault(b) is Some {
            None
        } else {
            crate::s4_r12::boundary_reference_ids(b)
        },
    }
}

/// What is wrong with the references of a V7 portable graph whose families
/// hold `f` and whose boundaries contribute `b`, in the order the checks
/// run.
pub open spec fn portable_v7_references_fault(
    value: Json,
    identity: Seq<char>,
    f: Seq<Seq<Seq<char>>>,
    b: (Seq<Seq<char>>, Seq<Seq<char>>, Seq<Seq<char>>),
) -> Option<crate::s4_r13::PortableFault> {
    let subjects = crate::s4_r13::subject_ids(identity, f) + b.0;
    let items = |family: Seq<char>| crate::s4_r13::items_of(value, family);
    crate::s4_r13::first_of(
        crate::s4_r13::relationships_fault(items("relationships"@), f[0], f[3]),
        crate::s4_r13::first_of(
            crate::s4_r13::claims_fault(items("claims"@), f[0], f[1], f[3]),
            crate::s4_r13::first_of(
                crate::s4_r15::evidence_links_fault(items("entities"@), f[3], "entities"@),
                crate::s4_r13::first_of(
                    crate::s4_r15::evidence_links_fault(items("diagnostics"@), f[3], "diagnostics"@),
                    crate::s4_r13::first_of(
                        crate::s4_r15::evidence_links_fault(items("coverage_gaps"@), f[3], "coverage_gaps"@),
                        crate::s4_r13::first_of(
                            crate::s4_r15::locations_fault_v8(items("evidence"@)),
                            crate::s4_r13::first_of(
                                crate::s4_r13::documents_fault(items("documents"@), subjects),
                                crate::s4_r13::statements_fault(
                                    items("document_statements"@),
                                    f[6],
                                    subjects,
                                    f[3] + b.1,
                                    f[5] + b.2,
                                ),
                            ),
                        ),
                    ),
                ),
            ),
        ),
    )
}

/// What is wrong with a V7 portable graph before its family digests are
/// compared, in the order the checks run: the envelope, the eight
/// identifier families, the repository boundaries, then the references.
pub open spec fn portable_v7_fault(value: Json, v: PortableVersionsV7) -> Option<crate::s4_r13::PortableFault> {
    match portable_v7_header_fault(value, v) {
        Some(f) => Some(f),
        None => {
            let identity = crate::s4_r13::pointer_text(value, "repository"@, "identity"@)->Some_0;
            match crate::s4_r13::family_step(value, "entities"@, "id"@) {
                Err(f) => Some(f),
                Ok(e) => match crate::s4_r13::family_step(value, "relationships"@, "id"@) {
                    Err(f) => Some(f),
                    Ok(r) => match crate::s4_r13::family_step(value, "claims"@, "id"@) {
                        Err(f) => Some(f),
                        Ok(c) => match crate::s4_r13::family_step(value, "evidence"@, "id"@) {
                            Err(f) => Some(f),
                            Ok(ev) => match crate::s4_r13::family_step(value, "diagnostics"@, "id"@) {
                                Err(f) => Some(f),
                                Ok(d) => match crate::s4_r13::family_step(value, "coverage_gaps"@, "id"@) {
                                    Err(f) => Some(f),
                                    Ok(cg) => match crate::s4_r13::family_step(
                                        value,
                                        "documents"@,
                                        "document_id"@,
                                    ) {
                                        Err(f) => Some(f),
                                        Ok(docs) => match crate::s4_r13::family_step(
                                            value,
                                            "document_statements"@,
                                            "statement_id"@,
                                        ) {
                                            Err(f) => Some(f),
                                            Ok(sts) => match v7_boundary_ids(value) {
                                                None => Some(crate::s4_r13::PortableFault::InvalidProjection),
                                                Some(b) => portable_v7_references_fault(
                                                    value,
                                                    identity,
                                                    seq![e, r, c, ev, d, cg, docs, sts],
                                                    b,
                                                ),
                                            },
                                        },
                                    },
                                },
                            },
                        },
                    },
                },
            }
        },
    }
}

fn family_checked_v7(object: &Json, family: &'static str, id_field: &'static str) -> (r: Result<
    Vec<String>,
    R14ContractError,
>)
    ensures
        r is Err ==> !(r->Err_0.fault() is Other),
        match crate::s4_r13::family_step(*object, family@, id_field@) {
            Ok(ids) => r matches Ok(v) && texts(v@) == ids,
            Err(f) => r is Err && r->Err_0.fault() == f,
        },
        r is Ok ==> crate::json::member_items(*object, family@) is Some,
{
    validate_family(object, family, id_field)
}

fn boundary_ids_v7(value: &Json) -> (r: Result<(Vec<String>, Vec<String>, Vec<String>), R14ContractError>)
    ensures
        match v7_boundary_ids(*value) {
            Some((sb, eb, gb)) => r matches Ok((s, e, g)) && texts(s@) == sb && texts(e@) == eb && texts(g@) == gb,
            None => r matches Err(R14ContractError::InvalidProjection),
        },
{
    match value.get("repository_boundaries") {
        None => {
            let s: Vec<String> = Vec::new();
            let e: Vec<String> = Vec::new();
            let g: Vec<String> = Vec::new();
            assert(texts(s@) =~= Seq::<Seq<char>>::empty());
            Ok((s, e, g))
        },
        Some(b) => {
            if crate::s4_r12::validate_boundary_projection(b).is_err() {
                return Err(R14ContractError::InvalidProjection);
            }
            match crate::s4_r12::boundary_document_reference_ids(b) {
                Ok(t) => Ok(t),
                Err(_) => Err(R14ContractError::InvalidProjection),
            }
        },
    }
}


fn validate_portable_v7_references(
    value: &Json,
    identity: &str,
    ids: &[Vec<String>; 8],
    boundary: &(Vec<String>, Vec<String>, Vec<String>),
) -> (res: Result<(), R14ContractError>)
    requires
        crate::json::member_items(*value, "entities"@) is Some,
        crate::json::member_items(*value, "relationships"@) is Some,
        crate::json::member_items(*value, "claims"@) is Some,
        crate::json::member_items(*value, "evidence"@) is Some,
        crate::json::member_items(*value, "diagnostics"@) is Some,
        crate::json::member_items(*value, "coverage_gaps"@) is Some,
        crate::json::member_items(*value, "documents"@) is Some,
        crate::json::member_items(*value, "document_statements"@) is Some,
    ensures
        res is Err ==> !(res->Err_0.fault() is Other),
        match portable_v7_references_fault(
            *value,
            identity@,
            seq![
                texts(ids[0]@),
                texts(ids[1]@),
                texts(ids[2]@),
                texts(ids[3]@),
                texts(ids[4]@),
                texts(ids[5]@),
                texts(ids[6]@),
                texts(ids[7]@),
            ],
            (texts(boundary.0@), texts(boundary.1@), texts(boundary.2@)),
        ) {
            None => res is Ok,
            Some(f) => res is Err && res->Err_0.fault() == f,
        },
{
    let ghost f = seq![
        texts(ids[0]@),
        texts(ids[1]@),
        texts(ids[2]@),
        texts(ids[3]@),
        texts(ids[4]@),
        texts(ids[5]@),
        texts(ids[6]@),
        texts(ids[7]@),
    ];
    let entities = match value.get_array("entities") {
        Some(v) => v,
        None => return Err(R14ContractError::InvalidProjection),
    };
    let relationships = match value.get_array("relationships") {
        Some(v) => v,
        None => return Err(R14ContractError::InvalidProjection),
    };
    let claims = match value.get_array("claims") {
        Some(v) => v,
        None => return Err(R14ContractError::InvalidProjection),
    };
    let evidence = match value.get_array("evidence") {
        Some(v) => v,
        None => return Err(R14ContractError::InvalidProjection),
    };
    let diagnostics = match value.get_array("diagnostics") {
        Some(v) => v,
        None => return Err(R14ContractError::InvalidProjection),
    };
    let gaps = match value.get_array("coverage_gaps") {
        Some(v) => v,
        None => return Err(R14ContractError::InvalidProjection),
    };
    let documents = match value.get_array("documents") {
        Some(v) => v,
        None => return Err(R14ContractError::InvalidProjection),
    };
    let statements = match value.get_array("document_statements") {
        Some(v) => v,
        None => return Err(R14ContractError::InvalidProjection),
    };
    let evidence_ids = ids[3].as_slice();
    checked_r13(
        crate::s4_r13::validate_relationship_references(relationships.as_slice(), ids[0].as_slice(), evidence_ids),
    )?;
    checked_r13(
        crate::s4_r13::validate_claim_references(
            claims.as_slice(),
            ids[0].as_slice(),
            ids[1].as_slice(),
            evidence_ids,
        ),
    )?;
    checked_r15(crate::s4_r15::validate_evidence_links(entities.as_slice(), evidence_ids, "entities"))?;
    checked_r15(crate::s4_r15::validate_evidence_links(diagnostics.as_slice(), evidence_ids, "diagnostics"))?;
    checked_r15(crate::s4_r15::validate_evidence_links(gaps.as_slice(), evidence_ids, "coverage_gaps"))?;
    checked_r15(crate::s4_r15::validate_locations_v8(evidence.as_slice()))?;
    let mut subjects: Vec<String> = Vec::new();
    subjects.push(identity.to_owned());
    let mut k: usize = 0;
    while k < 8
        invariant
            k <= 8,
            f == seq![
                texts(ids[0]@),
                texts(ids[1]@),
                texts(ids[2]@),
                texts(ids[3]@),
                texts(ids[4]@),
                texts(ids[5]@),
                texts(ids[6]@),
                texts(ids[7]@),
            ],
            texts(subjects@) == f.take(k as int).fold_left(seq![identity@], |acc: Seq<Seq<char>>, x: Seq<Seq<char>>| acc + x),
        decreases 8 - k,
    {
        crate::s4_r13::append_texts(&mut subjects, ids[k].as_slice());
        proof {
            assert(f.take(k + 1).drop_last() =~= f.take(k as int));
            assert(f[k as int] == texts(ids[k as int]@));
        }
        k += 1;
    }
    proof {
        assert(f.take(8) =~= f);
        reveal_with_fuel(vstd::seq::Seq::fold_left, 9);
        assert(texts(subjects@) =~= crate::s4_r13::subject_ids(identity@, f));
    }
    crate::s4_r13::append_texts(&mut subjects, boundary.0.as_slice());
    let mut statement_evidence: Vec<String> = Vec::new();
    assert(texts(statement_evidence@) =~= Seq::<Seq<char>>::empty());
    crate::s4_r13::append_texts(&mut statement_evidence, evidence_ids);
    crate::s4_r13::append_texts(&mut statement_evidence, boundary.1.as_slice());
    let mut statement_coverage: Vec<String> = Vec::new();
    assert(texts(statement_coverage@) =~= Seq::<Seq<char>>::empty());
    crate::s4_r13::append_texts(&mut statement_coverage, ids[5].as_slice());
    crate::s4_r13::append_texts(&mut statement_coverage, boundary.2.as_slice());
    proof {
        assert(Seq::<Seq<char>>::empty() + texts(ids[3]@) =~= texts(ids[3]@));
        assert(Seq::<Seq<char>>::empty() + texts(ids[5]@) =~= texts(ids[5]@));
    }
    checked_r13(crate::s4_r13::validate_documents(documents.as_slice(), subjects.as_slice()))?;
    checked_r13(
        crate::s4_r13::validate_statements(
            statements.as_slice(),
            ids[6].as_slice(),
            subjects.as_slice(),
            statement_evidence.as_slice(),
            statement_coverage.as_slice(),
        ),
    )
}

/// Checks everything of a V7 portable graph but its family digests: the
/// envelope, the eight identifier families, the repository boundaries and
/// every reference; the first failing check decides the error
/// ([`portable_v7_fault`]).
pub fn validate_portable_v7_structure(value: &Json, versions: &PortableVersionsV7) -> (r: Result<
    (),
    R14ContractError,
>)
    ensures
        r is Err ==> !(r->Err_0.fault() is Other),
        match portable_v7_fault(*value, *versions) {
            None => r is Ok,
            Some(f) => r is Err && r->Err_0.fault() == f,
        },
{
    let identity = check_portable_v7_header(value, versions)?;
    let e = family_checked_v7(value, "entities", "id")?;
    let r = family_checked_v7(value, "relationships", "id")?;
    let c = family_checked_v7(value, "claims", "id")?;
    let ev = family_checked_v7(value, "evidence", "id")?;
    let d = family_checked_v7(value, "diagnostics", "id")?;
    let cg = family_checked_v7(value, "coverage_gaps", "id")?;
    let docs = family_checked_v7(value, "documents", "document_id")?;
    let sts = family_checked_v7(value, "document_statements", "statement_id")?;
    let boundary = boundary_ids_v7(value)?;
    let ids = [e, r, c, ev, d, cg, docs, sts];
    validate_portable_v7_references(value, identity, &ids, &boundary)
}


/// The families of a V7 portable graph, in the order their digests are
/// declared.
pub open spec fn portable_v7_families() -> Seq<Seq<char>> {
    seq![
        "entities"@,
        "relationships"@,
        "claims"@,
        "evidence"@,
        "diagnostics"@,
        "coverage_gaps"@,
        "documents"@,
        "document_statements"@,
    ]
}

/// A V7 portable graph whose envelope is valid holds all eight families.
proof fn lemma_v7_families_present(value: Json, versions: PortableVersionsV7)
    requires
        portable_v7_header_fault(value, versions) is None,
    ensures
        forall|k: int| 0 <= k < 8 ==> crate::json::member(value, #[trigger] portable_v7_families()[k]) is Some,
{
    assert forall|k: int| 0 <= k < 8 implies crate::json::member(value, #[trigger] portable_v7_families()[k]) is Some by {
        let keys = if crate::portable::same_key_set(value, portable_v7_keys()) {
            portable_v7_keys()
        } else {
            portable_v7_keys().push("repository_boundaries"@)
        };
        let name = portable_v7_families()[k];
        if k == 0 {
            assert(keys[5] == name);
        } else if k == 1 {
            assert(keys[10] == name);
        } else if k == 2 {
            assert(keys[0] == name);
        } else if k == 3 {
            assert(keys[6] == name);
        } else if k == 4 {
            assert(keys[2] == name);
        } else if k == 5 {
            assert(keys[1] == name);
        } else if k == 6 {
            assert(keys[4] == name);
        } else {
            assert(keys[3] == name);
        }
        crate::portable::lemma_key_set_member(value, keys, name);
    }
}

/// Validates one V7 portable graph: its structure ([`portable_v8_fault`])
/// decides every error but the last check, which compares the declared
/// family digests with those `sha256` gives; a mismatch there is
/// `InvalidProjection`.
#[verifier::spinoff_prover]
pub fn validate_portable_value<F: Fn(&[u8]) -> String>(
    value: &Json,
    versions: &PortableVersionsV7,
    sha256: &F,
) -> (r: Result<(), R14ContractError>)
    requires
        crate::s4_r18::total_digest(*sha256),
    ensures
        r is Err ==> !(r->Err_0.fault() is Other),
        match portable_v7_fault(*value, *versions) {
            Some(f) => r is Err && r->Err_0.fault() == f,
            None => {
                &&& r is Ok ==> exists|ds: Seq<Seq<char>>|
                    crate::portable::family_digests_for(*sha256, *value, portable_v7_families(), ds)
                        && crate::portable::digests_declared_for(*value, portable_v7_families(), ds)
                &&& r is Err ==> (r matches Err(R14ContractError::InvalidProjection))
                &&& (forall|ds: Seq<Seq<char>>|
                    #[trigger] crate::portable::family_digests_for(*sha256, *value, portable_v7_families(), ds)
                        ==> crate::portable::digests_declared_for(*value, portable_v7_families(), ds)) ==> r is Ok
            },
        },
{
    validate_portable_v7_structure(value, versions)?;
    let names = [
        "entities",
        "relationships",
        "claims",
        "evidence",
        "diagnostics",
        "coverage_gaps",
        "documents",
        "document_statements",
    ];
    assert(names_view(names@) =~= portable_v7_families());
    proof {
        lemma_v7_families_present(*value, *versions);
    }
    let digests = match crate::portable::digests_of_families(value, &names, sha256) {
        Some(ds) => ds,
        None => {
            assert(false);
            return Err(R14ContractError::InvalidProjection);
        },
    };
    if !crate::portable::declared_digests_match(value, &names, digests.as_slice()) {
        return Err(R14ContractError::InvalidProjection);
    }
    Ok(())
}


/// What a V7 export needs of its inputs: the snapshot's ontology, the
/// manifest bound to the head, a knowledge graph object with all the record
/// families, documents the export can take, the repository, and
/// repository boundaries that are either absent or a valid projection.
pub open spec fn v7_export_inputs(semantic: Json, head: LocalSnapshotHead, manifest: Json, versions: PortableVersionsV7) -> bool {
    &&& member_text(semantic, "ontology_version"@) == Some(versions.ontology@)
    &&& crate::export::documentation_bound(manifest, head)
    &&& member(semantic, "knowledge_graph"@) matches Some(g) && g is Object && {
        &&& member(g, "claims"@) is Some
        &&& member(g, "coverage"@) is Some
        &&& member(g, "diagnostics"@) is Some
        &&& member(g, "entities"@) is Some
        &&& member(g, "evidence"@) is Some
        &&& member(g, "relationships"@) is Some
    }
    &&& crate::export::manifest_documents(manifest) is Some
    &&& member(semantic, "repository"@) is Some
    &&& (member(semantic, "repository_boundaries"@) matches Some(b) ==> crate::s4_r12::boundary_projection_fault(b) is None)
}

/// The V7 portable projection of a snapshot, its head and documentation
/// manifest, member by member in key order: copies of the graph's record
/// families (coverage gaps from `coverage`), the manifest's documents and
/// statements, the versions, the projection profile with the digest `ds[k]`
/// of each family (an answer of `f` for that family's canonical bytes),
/// copies of the repository and of the repository boundaries where the
/// snapshot has them, and the source snapshot.
pub open spec fn v7_projection<F: Fn(&[u8]) -> String>(
    v: Json,
    semantic: Json,
    head: LocalSnapshotHead,
    manifest: Json,
    versions: PortableVersionsV7,
    f: F,
    ds: Seq<Seq<char>>,
) -> bool {
    let g = member(semantic, "knowledge_graph"@).unwrap();
    let docs = crate::export::manifest_documents(manifest).unwrap();
    let b = member(semantic, "repository_boundaries"@);
    let off: int = if b is Some {
        1
    } else {
        0
    };
    &&& member_count(v) == 14 + off
    &&& crate::export::copy_member(v, 0, "claims"@, member(g, "claims"@))
    &&& crate::export::copy_member(v, 1, "coverage_gaps"@, member(g, "coverage"@))
    &&& crate::export::copy_member(v, 2, "diagnostics"@, member(g, "diagnostics"@))
    &&& crate::json::member_at(v, 3, "document_statements"@) matches Some(Json::Array(xs))
        && crate::export::portable_statements_of(xs@, docs)
    &&& crate::json::member_at(v, 4, "documents"@) matches Some(Json::Array(xs))
        && crate::export::portable_documents_of(xs@, docs)
    &&& crate::export::copy_member(v, 5, "entities"@, member(g, "entities"@))
    &&& crate::export::copy_member(v, 6, "evidence"@, member(g, "evidence"@))
    &&& crate::explorer::text_member(v, 7, "ontology_version"@, versions.ontology@)
    &&& crate::json::member_at(v, 8, "projection"@) matches Some(p) && {
        &&& member_count(p) == 2
        &&& crate::json::member_at(p, 0, "family_sha256"@) matches Some(fd) && {
            &&& member_count(fd) == 8
            &&& ds.len() == 8
            &&& crate::export::digest_member(fd, 0, "claims"@, ds[0], v, 0, f)
            &&& crate::export::digest_member(fd, 1, "coverage_gaps"@, ds[1], v, 1, f)
            &&& crate::export::digest_member(fd, 2, "diagnostics"@, ds[2], v, 2, f)
            &&& crate::export::digest_member(fd, 3, "document_statements"@, ds[3], v, 3, f)
            &&& crate::export::digest_member(fd, 4, "documents"@, ds[4], v, 4, f)
            &&& crate::export::digest_member(fd, 5, "entities"@, ds[5], v, 5, f)
            &&& crate::export::digest_member(fd, 6, "evidence"@, ds[6], v, 6, f)
            &&& crate::export::digest_member(fd, 7, "relationships"@, ds[7], v, 10, f)
        }
        &&& crate::explorer::text_member(p, 1, "profile"@, "codenoesis.lossless-portable-projection/v7"@)
    }
    &&& crate::explorer::text_member(v, 9, "query_contract_version"@, versions.query@)
    &&& crate::export::copy_member(v, 10, "relationships"@, member(g, "relationships"@))
    &&& crate::export::copy_member(v, 11, "repository"@, member(semantic, "repository"@))
    &&& (b is Some ==> crate::export::copy_member(v, 12, "repository_boundaries"@, b))
    &&& crate::explorer::text_member(v, 12 + off, "schema_version"@, versions.portable_graph@)
    &&& crate::json::member_at(v, 13 + off, "source_snapshot"@) matches Some(src) && {
        &&& member_count(src) == 3
        &&& crate::explorer::text_member(src, 0, "schema_version"@, versions.snapshot@)
        &&& crate::json::member_at(src, 1, "semantic_hash"@) matches Some(h) && member_count(h) == 2
            && crate::explorer::text_member(h, 0, "algorithm"@, head.semantic_hash_algorithm@)
            && crate::explorer::text_member(h, 1, "value"@, head.semantic_hash@)
        &&& crate::explorer::text_member(src, 2, "snapshot_id"@, head.snapshot_id@)
    }
}

/// A V7 document that validates whatever the digest function answers:
/// it has no structural fault and every digest the function can give is
/// the declared one.
pub open spec fn v7_value_accepted<F: Fn(&[u8]) -> String>(value: Json, versions: PortableVersionsV7, sha256: F) -> bool {
    &&& portable_v7_fault(value, versions) is None
    &&& forall|ds: Seq<Seq<char>>|
        #[trigger] crate::portable::family_digests_for(sha256, value, portable_v7_families(), ds)
            ==> crate::portable::digests_declared_for(value, portable_v7_families(), ds)
}

/// A validated V7 portable graph with its canonical compact JSON text and the
/// digest function it was checked with.
pub struct PortableGraphV7<F: Fn(&[u8]) -> String> {
    value: Json,
    canonical: Vec<u8>,
    sha256: F,
}

impl<F: Fn(&[u8]) -> String> PortableGraphV7<F> {
    /// The canonical bytes are the canonical text of the document.
    #[verifier::type_invariant]
    closed spec fn canonical_matches(&self) -> bool {
        self.canonical@ == crate::json::json_bytes(self.value)
    }

    /// The graph document.
    pub closed spec fn document(&self) -> Json {
        self.value
    }

    /// The canonical text of the document, without the final LF.
    pub closed spec fn canonical_bytes(&self) -> Seq<u8> {
        self.canonical@
    }

    /// The digest function the graph was checked with.
    pub closed spec fn digest_function(&self) -> F {
        self.sha256
    }

    /// Strictly re-imports one canonical LF-terminated V7 portable graph.
    /// `parsed` is the JSON parse of all of `bytes` (`None` when they do not
    /// parse).
    ///
    /// Above [`MAX_R14_PORTABLE_GRAPH_BYTES`] is `LimitExceeded`; a failed
    /// parse is `InvalidProjection`; the document must then validate
    /// ([`validate_portable_value`]); bytes that are not exactly its
    /// canonical text and one LF are `Noncanonical`, with the digests of the
    /// expected and the observed bytes.
    pub fn from_canonical_file(
        bytes: &[u8],
        parsed: Option<Json>,
        versions: &PortableVersionsV7,
        sha256: F,
    ) -> (r: Result<Self, R14ContractError>)
        requires
            crate::s4_r18::total_digest(sha256),
        ensures
            bytes@.len() > MAX_R14_PORTABLE_GRAPH_BYTES ==> (r matches Err(
                R14ContractError::LimitExceeded { limit, maximum, observed },
            ) && limit@ == "portable_graph_bytes"@ && maximum == MAX_R14_PORTABLE_GRAPH_BYTES
                && observed == bytes@.len()),
            bytes@.len() <= MAX_R14_PORTABLE_GRAPH_BYTES && parsed is None ==> (r matches Err(
                R14ContractError::InvalidProjection,
            )),
            bytes@.len() <= MAX_R14_PORTABLE_GRAPH_BYTES ==> (parsed matches Some(v) ==> (
            portable_v7_fault(v, *versions) matches Some(f) ==> r is Err && r->Err_0.fault() == f)),
            r matches Ok(g) ==> {
                &&& parsed == Some(g.document())
                &&& g.canonical_bytes() == crate::json::json_bytes(g.document())
                &&& bytes@ == g.canonical_bytes().push(10u8)
                &&& g.digest_function() == sha256
                &&& portable_v7_fault(g.document(), *versions) is None
                &&& exists|ds: Seq<Seq<char>>|
                    crate::portable::family_digests_for(sha256, g.document(), portable_v7_families(), ds)
                        && crate::portable::digests_declared_for(g.document(), portable_v7_families(), ds)
            },
            parsed matches Some(v) ==> (bytes@.len() <= MAX_R14_PORTABLE_GRAPH_BYTES && bytes@ == crate::json::json_bytes(v).push(10u8)
                && portable_v7_fault(v, *versions) is None && (forall|ds: Seq<Seq<char>>| #[trigger] crate::portable::family_digests_for(sha256, v, portable_v7_families(), ds) ==> crate::portable::digests_declared_for(v, portable_v7_families(), ds)) ==> (r matches Ok(g) && g.document() == v)),
            crate::s4_r18::deterministic_digest(sha256) ==> (r matches Ok(g) ==> v7_value_accepted(
                g.document(),
                *versions,
                sha256,
            )),
            r matches Err(R14ContractError::Noncanonical { expected_sha256, observed_sha256 }) ==> (
            parsed matches Some(v) && bytes@ != crate::json::json_bytes(v).push(10u8)
                && crate::s4_r18::digest_of(sha256, crate::json::json_bytes(v).push(10u8), expected_sha256@)
                && crate::s4_r18::digest_of(sha256, bytes@, observed_sha256@)),
    {
        enforce_portable_size(bytes.len())?;
        let value = match parsed {
            Some(v) => v,
            None => return Err(R14ContractError::InvalidProjection),
        };
        validate_portable_value(&value, versions, &sha256)?;
        let canonical = crate::json::to_bytes(&value);
        let mut expected = vstd::slice::slice_to_vec(canonical.as_slice());
        expected.push(10u8);
        if !crate::text::bytes_eq(expected.as_slice(), bytes) {
            let expected_slice = expected.as_slice();
            let expected_sha256 = sha256(expected_slice);
            let observed_sha256 = sha256(bytes);
            proof {
                assert(call_ensures(sha256, (expected_slice,), expected_sha256));
                assert(call_ensures(sha256, (bytes,), observed_sha256));
            }
            return Err(R14ContractError::Noncanonical { expected_sha256, observed_sha256 });
        }
        proof {
            if crate::s4_r18::deterministic_digest(sha256) {
                let ds = choose|ds: Seq<Seq<char>>|
                    crate::portable::family_digests_for(sha256, value, portable_v7_families(), ds)
                        && crate::portable::digests_declared_for(value, portable_v7_families(), ds);
                crate::portable::lemma_declared_for_every_answer(sha256, value, portable_v7_families(), ds);
            }
        }
        Ok(Self { value, canonical, sha256 })
    }

    /// Projects a snapshot whose stored payload and head the caller has
    /// validated (`stored_snapshot_valid`, else an invalid snapshot) and a
    /// documentation manifest into a V7 portable graph ([`v7_projection`]):
    /// the inputs must be usable ([`v7_export_inputs`], else an invalid
    /// snapshot), and the projection must then validate
    /// ([`validate_portable_value`]) and fit the size limit with its final LF.
    pub fn from_validated_v16(
        semantic: &Json,
        head: &LocalSnapshotHead,
        documentation_manifest: &Json,
        stored_snapshot_valid: bool,
        versions: &PortableVersionsV7,
        sha256: F,
    ) -> (r: Result<Self, R14ContractError>)
        requires
            crate::s4_r18::total_digest(sha256),
        ensures
            !(stored_snapshot_valid && v7_export_inputs(*semantic, *head, *documentation_manifest, *versions)) ==> (r matches Err(
                R14ContractError::InvalidSnapshot,
            )),
            r matches Ok(g) ==> {
                &&& stored_snapshot_valid && v7_export_inputs(*semantic, *head, *documentation_manifest, *versions)
                &&& exists|ds: Seq<Seq<char>>|
                    #[trigger] v7_projection(g.document(), *semantic, *head, *documentation_manifest, *versions, sha256, ds)
                &&& g.canonical_bytes() == crate::json::json_bytes(g.document())
                &&& g.canonical_bytes().len() + 1 <= MAX_R14_PORTABLE_GRAPH_BYTES
                &&& g.digest_function() == sha256
                &&& portable_v7_fault(g.document(), *versions) is None
                &&& exists|ds: Seq<Seq<char>>|
                    crate::portable::family_digests_for(sha256, g.document(), portable_v7_families(), ds)
                        && crate::portable::digests_declared_for(g.document(), portable_v7_families(), ds)
            },
            crate::s4_r18::deterministic_digest(sha256) ==> (r matches Ok(g) ==> v7_value_accepted(
                g.document(),
                *versions,
                sha256,
            )),
            stored_snapshot_valid && v7_export_inputs(*semantic, *head, *documentation_manifest, *versions) && (forall|v: Json, ds: Seq<Seq<char>>|
                #[trigger] v7_projection(v, *semantic, *head, *documentation_manifest, *versions, sha256, ds) ==> v7_value_accepted(
                    v,
                    *versions,
                    sha256,
                ) && crate::json::json_bytes(v).len() + 1 <= MAX_R14_PORTABLE_GRAPH_BYTES) ==> r is Ok,
    {
        if !stored_snapshot_valid {
            return Err(R14ContractError::InvalidSnapshot);
        }
        let ontology_ok = match semantic.get_str("ontology_version") {
            Some(t) => crate::text::text_eq(t, versions.ontology.as_str()),
            None => false,
        };
        if !ontology_ok {
            return Err(R14ContractError::InvalidSnapshot);
        }
        if !crate::export::documentation_binding(documentation_manifest, head) {
            return Err(R14ContractError::InvalidSnapshot);
        }
        let graph = match semantic.get("knowledge_graph") {
            Some(g) => g,
            None => return Err(R14ContractError::InvalidSnapshot),
        };
        if graph.as_object().is_none() {
            return Err(R14ContractError::InvalidSnapshot);
        }
        let (documents, statements) = match crate::export::portable_documents(documentation_manifest) {
            Some(p) => p,
            None => return Err(R14ContractError::InvalidSnapshot),
        };
        let repository = match crate::export::copied_member(semantic, "repository") {
            Some(x) => x,
            None => return Err(R14ContractError::InvalidSnapshot),
        };
        let entities = match crate::export::copied_member(graph, "entities") {
            Some(x) => x,
            None => return Err(R14ContractError::InvalidSnapshot),
        };
        let relationships = match crate::export::copied_member(graph, "relationships") {
            Some(x) => x,
            None => return Err(R14ContractError::InvalidSnapshot),
        };
        let claims = match crate::export::copied_member(graph, "claims") {
            Some(x) => x,
            None => return Err(R14ContractError::InvalidSnapshot),
        };
        let evidence = match crate::export::copied_member(graph, "evidence") {
            Some(x) => x,
            None => return Err(R14ContractError::InvalidSnapshot),
        };
        let diagnostics = match crate::export::copied_member(graph, "diagnostics") {
            Some(x) => x,
            None => return Err(R14ContractError::InvalidSnapshot),
        };
        let coverage = match crate::export::copied_member(graph, "coverage") {
            Some(x) => x,
            None => return Err(R14ContractError::InvalidSnapshot),
        };
        let boundaries = match semantic.get("repository_boundaries") {
            Some(b) => {
                if crate::s4_r12::validate_boundary_projection(b).is_err() {
                    return Err(R14ContractError::InvalidSnapshot);
                }
                Some(json_copy(b))
            },
            None => None,
        };
        let statements_value = Json::Array(statements);
        let documents_value = Json::Array(documents);
        let d0 = crate::export::digest_of_value(&claims, &sha256);
        let d1 = crate::export::digest_of_value(&coverage, &sha256);
        let d2 = crate::export::digest_of_value(&diagnostics, &sha256);
        let d3 = crate::export::digest_of_value(&statements_value, &sha256);
        let d4 = crate::export::digest_of_value(&documents_value, &sha256);
        let d5 = crate::export::digest_of_value(&entities, &sha256);
        let d6 = crate::export::digest_of_value(&evidence, &sha256);
        let d7 = crate::export::digest_of_value(&relationships, &sha256);
        let ghost ds = seq![d0@, d1@, d2@, d3@, d4@, d5@, d6@, d7@];
        let family_sha256 = Json::Object(
            vec![
                entry("claims", Json::Str(d0)),
                entry("coverage_gaps", Json::Str(d1)),
                entry("diagnostics", Json::Str(d2)),
                entry("document_statements", Json::Str(d3)),
                entry("documents", Json::Str(d4)),
                entry("entities", Json::Str(d5)),
                entry("evidence", Json::Str(d6)),
                entry("relationships", Json::Str(d7)),
            ],
        );
        let projection = Json::Object(
            vec![
                entry("family_sha256", family_sha256),
                entry("profile", Json::text("codenoesis.lossless-portable-projection/v7")),
            ],
        );
        let semantic_hash = Json::Object(
            vec![
                entry("algorithm", Json::text(head.semantic_hash_algorithm.as_str())),
                entry("value", Json::text(head.semantic_hash.as_str())),
            ],
        );
        let source_snapshot = Json::Object(
            vec![
                entry("schema_version", Json::text(versions.snapshot.as_str())),
                entry("semantic_hash", semantic_hash),
                entry("snapshot_id", Json::text(head.snapshot_id.as_str())),
            ],
        );
        let mut fields = vec![
            entry("claims", claims),
            entry("coverage_gaps", coverage),
            entry("diagnostics", diagnostics),
            entry("document_statements", statements_value),
            entry("documents", documents_value),
            entry("entities", entities),
            entry("evidence", evidence),
            entry("ontology_version", Json::text(versions.ontology.as_str())),
            entry("projection", projection),
            entry("query_contract_version", Json::text(versions.query.as_str())),
            entry("relationships", relationships),
            entry("repository", repository),
        ];
        match boundaries {
            Some(b) => fields.push(entry("repository_boundaries", b)),
            None => {},
        }
        fields.push(entry("schema_version", Json::text(versions.portable_graph.as_str())));
        fields.push(entry("source_snapshot", source_snapshot));
        let value = Json::Object(fields);
        proof {
            assert(v7_projection(value, *semantic, *head, *documentation_manifest, *versions, sha256, ds));
        }
        validate_portable_value(&value, versions, &sha256)?;
        let canonical = crate::json::to_bytes(&value);
        let size = if canonical.len() < usize::MAX {
            canonical.len() + 1
        } else {
            usize::MAX
        };
        enforce_portable_size(size)?;
        proof {
            if crate::s4_r18::deterministic_digest(sha256) {
                let ds = choose|ds: Seq<Seq<char>>|
                    crate::portable::family_digests_for(sha256, value, portable_v7_families(), ds)
                        && crate::portable::digests_declared_for(value, portable_v7_families(), ds);
                crate::portable::lemma_declared_for_every_answer(sha256, value, portable_v7_families(), ds);
            }
        }
        Ok(Self { value, canonical, sha256 })
    }

    /// The graph document.
    pub fn value(&self) -> (r: &Json)
        ensures
            *r == self.document(),
    {
        &self.value
    }

    /// The canonical text followed by one LF.
    pub fn canonical_file(&self) -> (r: Vec<u8>)
        ensures
            r@ == self.canonical_bytes().push(10u8),
            r@ == crate::json::json_bytes(self.document()).push(10u8),
    {
        proof {
            use_type_invariant(self);
        }
        let mut bytes = vstd::slice::slice_to_vec(self.canonical.as_slice());
        bytes.push(10u8);
        bytes
    }

    /// The digest of the canonical file.
    pub fn canonical_sha256(&self) -> (r: String)
        requires
            crate::s4_r18::total_digest(self.digest_function()),
        ensures
            crate::s4_r18::digest_of(self.digest_function(), self.canonical_bytes().push(10u8), r@),
    {
        let bytes = self.canonical_file();
        let slice = bytes.as_slice();
        let digest = (self.sha256)(slice);
        proof {
            assert(call_ensures(self.sha256, (slice,), digest));
        }
        digest
    }
}

} // verus!
