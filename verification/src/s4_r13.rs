//! R13 portable-graph contract rules: size and nesting limits, privacy of
//! payloads, relative paths and identifier shapes.
use vstd::prelude::*;
use crate::portable::{
    evidence_location, family_ids, family_outcome, locate_evidence, reference_fault,
    reference_list_fault, reference_list_outcome, reference_outcome, texts, EvidenceLocation, Fault,
    FaultView,
};
use crate::json::{as_items, as_text, json_equal, same_json, member, member_items, first_finding, find_unsafe, height, member_text, names_view, FindingView, Json};
use crate::text::{
    all_lower_hex, bounded_text, chars_all_lower_hex, chars_of, repeat_char, repeated,
    safe_relative_path_rule, safe_relative_path_text, take_scalars, utf8_len_at_most, utf8_len,
};

use crate::s4_r18::LocalSnapshotHead;
use crate::json::{entry, json_copy, member_count};

verus! {

pub const R13_PORTABLE_MARKER: &'static str = ".codenoesis-portable-graph-v6";
pub const R13_EXPLORER_MARKER: &'static str = ".codenoesis-local-explorer-v6";
pub const R13_EXPLORER_SECURITY_PROFILE: &'static str = "codenoesis.local-explorer-security/v6";
pub const MAX_R13_PORTABLE_GRAPH_BYTES: u64 = 268_435_456;
pub const MAX_R13_JSON_NESTING: u64 = 64;
pub const MAX_R13_TEXT_SEARCH_RESULTS: u64 = 100;
pub const R13_TRAVERSAL_DEPTH_DEFAULT: u64 = 1;
pub const MAX_R13_TRAVERSAL_DEPTH: u64 = 2;

/// Why an R13 portable graph or projection is refused.
#[derive(Clone, Debug, PartialEq, Eq)]
pub enum R13ContractError {
    InvalidSnapshot,
    UnsupportedSnapshotSchema(String),
    UnsupportedPortableGraphSchema(String),
    Noncanonical { expected_sha256: String, observed_sha256: String },
    IdentityConflict { family: &'static str, id: String },
    ReferenceMismatch { family: &'static str, id: String },
    LimitExceeded { limit: &'static str, maximum: u64, observed: u64 },
    UnsafePayload { reason: &'static str },
    AssetIntegrityMismatch,
    InvalidProjection,
    Internal,
}

impl R13ContractError {
    /// The human-readable message of the error.
    pub open spec fn message_text(&self) -> Seq<char> {
        match self {
            R13ContractError::InvalidSnapshot => "invalid R13 snapshot"@,
            R13ContractError::UnsupportedSnapshotSchema(_) => "unsupported R13 snapshot schema"@,
            R13ContractError::UnsupportedPortableGraphSchema(_) => "unsupported portable graph schema"@,
            R13ContractError::Noncanonical { .. } => "noncanonical portable graph"@,
            R13ContractError::IdentityConflict { .. } => "portable graph identity conflict"@,
            R13ContractError::ReferenceMismatch { .. } => "portable graph reference mismatch"@,
            R13ContractError::LimitExceeded { .. } => "portable graph limit exceeded"@,
            R13ContractError::UnsafePayload { .. } => "unsafe portable payload"@,
            R13ContractError::AssetIntegrityMismatch => "explorer asset integrity mismatch"@,
            R13ContractError::InvalidProjection => "invalid portable graph projection"@,
            R13ContractError::Internal => "internal R13 contract failure"@,
        }
    }

    /// The human-readable message of the error.
    pub fn message(&self) -> (r: &'static str)
        ensures
            r@ == self.message_text(),
    {
        match self {
            R13ContractError::InvalidSnapshot => "invalid R13 snapshot",
            R13ContractError::UnsupportedSnapshotSchema(_) => "unsupported R13 snapshot schema",
            R13ContractError::UnsupportedPortableGraphSchema(_) => "unsupported portable graph schema",
            R13ContractError::Noncanonical { .. } => "noncanonical portable graph",
            R13ContractError::IdentityConflict { .. } => "portable graph identity conflict",
            R13ContractError::ReferenceMismatch { .. } => "portable graph reference mismatch",
            R13ContractError::LimitExceeded { .. } => "portable graph limit exceeded",
            R13ContractError::UnsafePayload { .. } => "unsafe portable payload",
            R13ContractError::AssetIntegrityMismatch => "explorer asset integrity mismatch",
            R13ContractError::InvalidProjection => "invalid portable graph projection",
            R13ContractError::Internal => "internal R13 contract failure",
        }
    }
}

/// A portable graph of `length` bytes is accepted exactly when it is at most
/// [`MAX_R13_PORTABLE_GRAPH_BYTES`] long.
pub fn enforce_portable_size(length: usize) -> (r: Result<(), R13ContractError>)
    ensures
        r is Ok <==> length <= MAX_R13_PORTABLE_GRAPH_BYTES,
        r is Err ==> (r matches Err(R13ContractError::LimitExceeded { limit, maximum, observed })
            && limit@ == "portable_graph_bytes"@ && maximum == MAX_R13_PORTABLE_GRAPH_BYTES
            && observed == length),
{
    let observed = length as u64;
    if observed > MAX_R13_PORTABLE_GRAPH_BYTES {
        return Err(
            R13ContractError::LimitExceeded {
                limit: "portable_graph_bytes",
                maximum: MAX_R13_PORTABLE_GRAPH_BYTES,
                observed,
            },
        );
    }
    Ok(())
}

/// A value entered at `depth` is accepted exactly when no member lies deeper
/// than [`MAX_R13_JSON_NESTING`]; the error reports the first depth observed
/// above the maximum.
pub fn ensure_nesting(value: &Json, depth: u64) -> (r: Result<(), R13ContractError>)
    ensures
        r is Ok <==> depth + height(*value) <= MAX_R13_JSON_NESTING,
        r is Err ==> (r matches Err(R13ContractError::LimitExceeded { limit, maximum, observed })
            && limit@ == "json_nesting"@ && maximum == MAX_R13_JSON_NESTING && observed == if depth
            > MAX_R13_JSON_NESTING {
            depth
        } else {
            (MAX_R13_JSON_NESTING + 1) as u64
        }),
{
    match crate::json::nesting_within(value, depth, MAX_R13_JSON_NESTING) {
        Ok(()) => Ok(()),
        Err(observed) => Err(
            R13ContractError::LimitExceeded {
                limit: "json_nesting",
                maximum: MAX_R13_JSON_NESTING,
                observed,
            },
        ),
    }
}

/// Member names that an R13 portable payload never holds.
pub open spec fn r13_private_fields() -> Seq<Seq<char>> {
    seq![
        "body_text"@,
        "expression_text"@,
        "initializer_text"@,
        "source_contents"@,
        "source_snippet"@,
        "repository_root"@,
        "absolute_path"@,
        "raw_url"@,
        "credentials"@,
        "environment"@,
        "arguments"@,
        "telemetry"@,
    ]
}

/// A payload is accepted exactly when it holds no private member name and
/// no string with `://`; the first finding of an in-order walk decides the
/// reason.
pub fn validate_private_fields(value: &Json) -> (r: Result<(), R13ContractError>)
    ensures
        r is Ok <==> first_finding(*value, r13_private_fields(), true) is None,
        first_finding(*value, r13_private_fields(), true) matches Some(FindingView::DeniedField(_))
            ==> (r matches Err(R13ContractError::UnsafePayload { reason }) && reason@ == "private_field"@),
        first_finding(*value, r13_private_fields(), true) matches Some(FindingView::Url)
            ==> (r matches Err(R13ContractError::UnsafePayload { reason }) && reason@ == "raw_url"@),
{
    let denied = [
        "body_text",
        "expression_text",
        "initializer_text",
        "source_contents",
        "source_snippet",
        "repository_root",
        "absolute_path",
        "raw_url",
        "credentials",
        "environment",
        "arguments",
        "telemetry",
    ];
    assert(names_view(denied@) =~= r13_private_fields());
    match find_unsafe(value, &denied, true) {
        None => Ok(()),
        Some(crate::json::Finding::DeniedField(_)) => Err(
            R13ContractError::UnsafePayload { reason: "private_field" },
        ),
        Some(crate::json::Finding::Url) => Err(R13ContractError::UnsafePayload { reason: "raw_url" }),
    }
}

/// Repository-relative output paths of the portable graph
/// ([`safe_relative_path_rule`]).
pub fn safe_relative_path(value: &str) -> (r: bool)
    ensures
        r == safe_relative_path_rule(value@),
{
    safe_relative_path_text(value)
}

/// The `id` of a record (`value.get("id").and_then(Value::as_str)`).
pub fn record_id(value: &Json) -> (r: Option<&str>)
    ensures
        match r {
            Some(t) => member_text(*value, "id"@) == Some(t@),
            None => member_text(*value, "id"@) is None,
        },
{
    value.get_str("id")
}

/// A lowercase hexadecimal SHA-256 digest: 64 lowercase hex digits.
pub open spec fn sha256_text(s: Seq<char>) -> bool {
    s.len() == 64 && all_lower_hex(s)
}

/// Whether `value` is a lowercase hexadecimal SHA-256 digest.
pub fn valid_sha256(value: &str) -> (r: bool)
    ensures
        r == sha256_text(value@),
{
    let cs = chars_of(value);
    cs.len() == 64 && chars_all_lower_hex(cs.as_slice())
}

/// `value` itself when it is a valid digest, otherwise 64 zeros.
pub fn valid_sha256_or_zero(value: &str) -> (r: String)
    ensures
        r@ == if sha256_text(value@) {
            value@
        } else {
            repeat_char('0', 64)
        },
{
    if valid_sha256(value) {
        value.to_owned()
    } else {
        repeated('0', 64)
    }
}

/// The first `maximum` scalars of `value`.
pub fn bounded(value: &str, maximum: usize) -> (r: String)
    ensures
        r@ == take_scalars(value@, maximum as nat),
{
    bounded_text(value, maximum)
}

/// The first `maximum` scalars of `value`, or `fallback` when they are none.
pub fn bounded_nonempty(value: &str, maximum: usize, fallback: &str) -> (r: String)
    ensures
        r@ == if take_scalars(value@, maximum as nat).len() == 0 {
            fallback@
        } else {
            take_scalars(value@, maximum as nat)
        },
{
    let value = bounded(value, maximum);
    if value.as_str().is_empty() {
        fallback.to_owned()
    } else {
        value
    }
}

/// The identifiers of the records of `family` (each record's `id_field`),
/// which must be present, non-empty and strictly increasing.
pub fn validate_family(object: &Json, family: &'static str, id_field: &'static str) -> (r: Result<
    Vec<String>,
    R13ContractError,
>)
    ensures
        match family_outcome(*object, family@, id_field@) {
            Ok(ids) => r matches Ok(v) && texts(v@) == ids,
            Err(FaultView::Malformed) => r matches Err(R13ContractError::InvalidProjection),
            Err(FaultView::Offending(id)) => r matches Err(
                R13ContractError::IdentityConflict { family: f, id: i },
            ) && f == family && i@ == id,
        },
        r matches Ok(v) ==> crate::textset::sorted_texts(texts(v@)),
{
    match family_ids(object, family, id_field) {
        Ok(ids) => Ok(ids),
        Err(Fault::Malformed) => Err(R13ContractError::InvalidProjection),
        Err(Fault::Offending(id)) => Err(R13ContractError::IdentityConflict { family, id }),
    }
}

/// The reference under `field` of `record` names one of `identifiers`.
pub fn validate_reference(
    record: &Json,
    field: &'static str,
    identifiers: &[String],
    family: &'static str,
) -> (r: Result<(), R13ContractError>)
    ensures
        match reference_outcome(*record, field@, texts(identifiers@)) {
            None => r is Ok,
            Some(FaultView::Malformed) => r matches Err(R13ContractError::InvalidProjection),
            Some(FaultView::Offending(id)) => r matches Err(
                R13ContractError::ReferenceMismatch { family: f, id: i },
            ) && f == family && i@ == id,
        },
{
    match reference_fault(record, field, identifiers) {
        None => Ok(()),
        Some(Fault::Malformed) => Err(R13ContractError::InvalidProjection),
        Some(Fault::Offending(id)) => Err(R13ContractError::ReferenceMismatch { family, id }),
    }
}

/// Each reference listed under `field`, when the field is present, names one
/// of `identifiers`.
pub fn validate_reference_array_if_present(
    record: &Json,
    field: &'static str,
    identifiers: &[String],
    family: &'static str,
) -> (r: Result<(), R13ContractError>)
    ensures
        match reference_list_outcome(*record, field@, texts(identifiers@)) {
            None => r is Ok,
            Some(FaultView::Malformed) => r matches Err(R13ContractError::InvalidProjection),
            Some(FaultView::Offending(id)) => r matches Err(
                R13ContractError::ReferenceMismatch { family: f, id: i },
            ) && f == family && i@ == id,
        },
{
    match reference_list_fault(record, field, identifiers) {
        None => Ok(()),
        Some(Fault::Malformed) => Err(R13ContractError::InvalidProjection),
        Some(Fault::Offending(id)) => Err(R13ContractError::ReferenceMismatch { family, id }),
    }
}

/// An evidence record points at a safe repository path or at an artifact
/// ([`evidence_location`]).
pub fn validate_evidence_path(evidence: &Json) -> (r: Result<(), R13ContractError>)
    ensures
        match evidence_location(*evidence) {
            EvidenceLocation::Accepted => r is Ok,
            EvidenceLocation::UnsafeEvidencePath => r matches Err(
                R13ContractError::UnsafePayload { reason },
            ) && reason@ == "unsafe_evidence_path"@,
            EvidenceLocation::UnsafeDocumentPath => r matches Err(
                R13ContractError::UnsafePayload { reason },
            ) && reason@ == "unsafe_compiler_document_path"@,
            EvidenceLocation::Unanchored => r matches Err(R13ContractError::InvalidProjection),
        },
{
    match locate_evidence(evidence) {
        EvidenceLocation::Accepted => Ok(()),
        EvidenceLocation::UnsafeEvidencePath => Err(
            R13ContractError::UnsafePayload { reason: "unsafe_evidence_path" },
        ),
        EvidenceLocation::UnsafeDocumentPath => Err(
            R13ContractError::UnsafePayload { reason: "unsafe_compiler_document_path" },
        ),
        EvidenceLocation::Unanchored => Err(R13ContractError::InvalidProjection),
    }
}

/// An R13 error as the contracts see it: its kind and the texts it carries.
pub enum PortableFault {
    InvalidSnapshot,
    LimitExceeded { limit: Seq<char>, maximum: u64, observed: u64 },
    UnsafePayload(Seq<char>),
    InvalidProjection,
    UnsupportedPortableGraphSchema(Seq<char>),
    IdentityConflict(Seq<char>, Seq<char>),
    ReferenceMismatch(Seq<char>, Seq<char>),
    Other,
}

impl R13ContractError {
    /// The error as the contracts see it.
    pub open spec fn fault(self) -> PortableFault {
        match self {
            R13ContractError::InvalidSnapshot => PortableFault::InvalidSnapshot,
            R13ContractError::LimitExceeded { limit, maximum, observed } => PortableFault::LimitExceeded {
                limit: limit@,
                maximum,
                observed,
            },
            R13ContractError::UnsafePayload { reason } => PortableFault::UnsafePayload(reason@),
            R13ContractError::InvalidProjection => PortableFault::InvalidProjection,
            R13ContractError::UnsupportedPortableGraphSchema(s) => PortableFault::UnsupportedPortableGraphSchema(s@),
            R13ContractError::IdentityConflict { family, id } => PortableFault::IdentityConflict(family@, id@),
            R13ContractError::ReferenceMismatch { family, id } => PortableFault::ReferenceMismatch(family@, id@),
            _ => PortableFault::Other,
        }
    }
}

/// A reference fault of `family` as an R13 fault.
pub open spec fn reference_fault_of(fault: Option<FaultView>, family: Seq<char>) -> Option<PortableFault> {
    match fault {
        None => None,
        Some(FaultView::Malformed) => Some(PortableFault::InvalidProjection),
        Some(FaultView::Offending(id)) => Some(PortableFault::ReferenceMismatch(family, id)),
    }
}

/// The first of two faults.
pub open spec fn first_of(a: Option<PortableFault>, b: Option<PortableFault>) -> Option<PortableFault> {
    match a {
        Some(f) => Some(f),
        None => b,
    }
}

/// What is wrong with one relationship: its `source`, then its `target`,
/// must be entities and its evidence known.
pub open spec fn relationship_fault(r: Json, entities: Seq<Seq<char>>, evidence: Seq<Seq<char>>) -> Option<PortableFault> {
    first_of(
        reference_fault_of(reference_outcome(r, "source"@, entities), "relationships"@),
        first_of(
            reference_fault_of(reference_outcome(r, "target"@, entities), "relationships"@),
            reference_fault_of(reference_list_outcome(r, "evidence_ids"@, evidence), "relationships"@),
        ),
    )
}

/// The first relationship fault, left to right.
pub open spec fn relationships_fault(rs: Seq<Json>, entities: Seq<Seq<char>>, evidence: Seq<Seq<char>>) -> Option<PortableFault>
    decreases rs.len(),
{
    if rs.len() == 0 {
        None
    } else {
        first_of(relationship_fault(rs[0], entities, evidence), relationships_fault(rs.drop_first(), entities, evidence))
    }
}

/// What is wrong with one claim: its subject must be an entity or a
/// relationship of its kind, and its evidence known.
pub open spec fn claim_fault(
    c: Json,
    entities: Seq<Seq<char>>,
    relationships: Seq<Seq<char>>,
    evidence: Seq<Seq<char>>,
) -> Option<PortableFault> {
    match member_text(c, "subject_id"@) {
        None => Some(PortableFault::InvalidProjection),
        Some(subject) => {
            let kind = member_text(c, "subject_kind"@);
            if (kind == Some("entity"@) && entities.contains(subject)) || (kind == Some("relationship"@)
                && relationships.contains(subject)) {
                reference_fault_of(reference_list_outcome(c, "evidence_ids"@, evidence), "claims"@)
            } else {
                Some(PortableFault::ReferenceMismatch("claims"@, subject))
            }
        },
    }
}

/// The first claim fault, left to right.
pub open spec fn claims_fault(
    cs: Seq<Json>,
    entities: Seq<Seq<char>>,
    relationships: Seq<Seq<char>>,
    evidence: Seq<Seq<char>>,
) -> Option<PortableFault>
    decreases cs.len(),
{
    if cs.len() == 0 {
        None
    } else {
        first_of(
            claim_fault(cs[0], entities, relationships, evidence),
            claims_fault(cs.drop_first(), entities, relationships, evidence),
        )
    }
}

/// The first record, left to right, whose evidence list names unknown
/// evidence.
pub open spec fn evidence_lists_fault(records: Seq<Json>, evidence: Seq<Seq<char>>, family: Seq<char>) -> Option<
    PortableFault,
>
    decreases records.len(),
{
    if records.len() == 0 {
        None
    } else {
        first_of(
            reference_fault_of(reference_list_outcome(records[0], "evidence_ids"@, evidence), family),
            evidence_lists_fault(records.drop_first(), evidence, family),
        )
    }
}

/// What is wrong with where one evidence record points.
pub open spec fn location_fault(e: Json) -> Option<PortableFault> {
    match evidence_location(e) {
        EvidenceLocation::Accepted => None,
        EvidenceLocation::UnsafeEvidencePath => Some(PortableFault::UnsafePayload("unsafe_evidence_path"@)),
        EvidenceLocation::UnsafeDocumentPath => Some(
            PortableFault::UnsafePayload("unsafe_compiler_document_path"@),
        ),
        EvidenceLocation::Unanchored => Some(PortableFault::InvalidProjection),
    }
}

/// The first evidence record, left to right, that points nowhere safe.
pub open spec fn locations_fault(records: Seq<Json>) -> Option<PortableFault>
    decreases records.len(),
{
    if records.len() == 0 {
        None
    } else {
        first_of(location_fault(records[0]), locations_fault(records.drop_first()))
    }
}

/// What is wrong with one document: its subject must be known and its
/// path, when it has one, safe.
pub open spec fn document_fault(d: Json, subjects: Seq<Seq<char>>) -> Option<PortableFault> {
    first_of(
        reference_fault_of(reference_outcome(d, "subject_id"@, subjects), "documents"@),
        match member_text(d, "path"@) {
            Some(path) => if safe_relative_path_rule(path) {
                None
            } else {
                Some(PortableFault::UnsafePayload("unsafe_document_path"@))
            },
            None => None,
        },
    )
}

/// The first document fault, left to right.
pub open spec fn documents_fault(ds: Seq<Json>, subjects: Seq<Seq<char>>) -> Option<PortableFault>
    decreases ds.len(),
{
    if ds.len() == 0 {
        None
    } else {
        first_of(document_fault(ds[0], subjects), documents_fault(ds.drop_first(), subjects))
    }
}

/// What is wrong with one document statement: its document, subjects,
/// evidence and coverage gaps must be known.
pub open spec fn statement_fault(
    st: Json,
    documents: Seq<Seq<char>>,
    subjects: Seq<Seq<char>>,
    evidence: Seq<Seq<char>>,
    gaps: Seq<Seq<char>>,
) -> Option<PortableFault> {
    let f = "document_statements"@;
    first_of(
        reference_fault_of(reference_outcome(st, "document_id"@, documents), f),
        first_of(
            reference_fault_of(reference_list_outcome(st, "subject_ids"@, subjects), f),
            first_of(
                reference_fault_of(reference_list_outcome(st, "evidence_ids"@, evidence), f),
                reference_fault_of(reference_list_outcome(st, "coverage_gap_ids"@, gaps), f),
            ),
        ),
    )
}

/// The first statement fault, left to right.
pub open spec fn statements_fault(
    sts: Seq<Json>,
    documents: Seq<Seq<char>>,
    subjects: Seq<Seq<char>>,
    evidence: Seq<Seq<char>>,
    gaps: Seq<Seq<char>>,
) -> Option<PortableFault>
    decreases sts.len(),
{
    if sts.len() == 0 {
        None
    } else {
        first_of(
            statement_fault(sts[0], documents, subjects, evidence, gaps),
            statements_fault(sts.drop_first(), documents, subjects, evidence, gaps),
        )
    }
}

/// An R13 error from a reference fault of `family`.
fn reference_error(fault: Option<Fault>, family: &'static str) -> (r: Result<(), R13ContractError>)
    ensures
        r is Err ==> !(r->Err_0.fault() is Other),
        match reference_fault_of(crate::portable::fault_opt(fault), family@) {
            None => r is Ok,
            Some(f) => r is Err && r->Err_0.fault() == f,
        },
{
    match fault {
        None => Ok(()),
        Some(Fault::Malformed) => Err(R13ContractError::InvalidProjection),
        Some(Fault::Offending(id)) => Err(R13ContractError::ReferenceMismatch { family, id }),
    }
}

/// Checks the references of every relationship ([`relationships_fault`]).
pub fn validate_relationship_references(rs: &[Json], entity_ids: &[String], evidence_ids: &[String]) -> (r: Result<(), R13ContractError>)
    ensures
        r is Err ==> !(r->Err_0.fault() is Other),
        match relationships_fault(rs@, texts(entity_ids@), texts(evidence_ids@)) {
            None => r is Ok,
            Some(f) => r is Err && r->Err_0.fault() == f,
        },
{
    let ghost es = texts(entity_ids@);
    let ghost evs = texts(evidence_ids@);
    let mut k: usize = 0;
    assert(rs@.skip(0) =~= rs@);
    while k < rs.len()
        invariant
            k <= rs.len(),
            es == texts(entity_ids@),
            evs == texts(evidence_ids@),
            relationships_fault(rs@, es, evs) == relationships_fault(rs@.skip(k as int), es, evs),
        decreases rs.len() - k,
    {
        assert(rs@.skip(k as int)[0] == rs@[k as int]);
        assert(rs@.skip(k as int).drop_first() =~= rs@.skip(k + 1));
        reference_error(reference_fault(&rs[k], "source", entity_ids), "relationships")?;
        reference_error(reference_fault(&rs[k], "target", entity_ids), "relationships")?;
        reference_error(reference_list_fault(&rs[k], "evidence_ids", evidence_ids), "relationships")?;
        k += 1;
    }
    Ok(())
}

/// Checks the subject and evidence of every claim ([`claims_fault`]).
pub fn validate_claim_references(
    cs: &[Json],
    entity_ids: &[String],
    relationship_ids: &[String],
    evidence_ids: &[String],
) -> (r: Result<(), R13ContractError>)
    ensures
        r is Err ==> !(r->Err_0.fault() is Other),
        match claims_fault(cs@, texts(entity_ids@), texts(relationship_ids@), texts(evidence_ids@)) {
            None => r is Ok,
            Some(f) => r is Err && r->Err_0.fault() == f,
        },
{
    let ghost es = texts(entity_ids@);
    let ghost rs = texts(relationship_ids@);
    let ghost evs = texts(evidence_ids@);
    let mut k: usize = 0;
    assert(cs@.skip(0) =~= cs@);
    while k < cs.len()
        invariant
            k <= cs.len(),
            es == texts(entity_ids@),
            rs == texts(relationship_ids@),
            evs == texts(evidence_ids@),
            claims_fault(cs@, es, rs, evs) == claims_fault(cs@.skip(k as int), es, rs, evs),
        decreases cs.len() - k,
    {
        assert(cs@.skip(k as int)[0] == cs@[k as int]);
        assert(cs@.skip(k as int).drop_first() =~= cs@.skip(k + 1));
        let subject = match cs[k].get_str("subject_id") {
            Some(t) => t,
            None => return Err(R13ContractError::InvalidProjection),
        };
        let valid = match cs[k].get_str("subject_kind") {
            Some(kind) => if crate::text::text_eq(kind, "entity") {
                crate::portable::contains_text(entity_ids, subject)
            } else if crate::text::text_eq(kind, "relationship") {
                crate::portable::contains_text(relationship_ids, subject)
            } else {
                false
            },
            None => false,
        };
        if !valid {
            proof {
                reveal_strlit("entity");
                reveal_strlit("relationship");
                assert("entity"@.len() != "relationship"@.len());
            }
            return Err(R13ContractError::ReferenceMismatch { family: "claims", id: subject.to_owned() });
        }
        proof {
            reveal_strlit("entity");
            reveal_strlit("relationship");
            assert("entity"@.len() != "relationship"@.len());
        }
        reference_error(reference_list_fault(&cs[k], "evidence_ids", evidence_ids), "claims")?;
        k += 1;
    }
    Ok(())
}

/// Checks that every record of `family` lists known evidence
/// ([`evidence_lists_fault`]).
pub fn validate_evidence_lists(records: &[Json], evidence_ids: &[String], family: &'static str) -> (r: Result<
    (),
    R13ContractError,
>)
    ensures
        r is Err ==> !(r->Err_0.fault() is Other),
        match evidence_lists_fault(records@, texts(evidence_ids@), family@) {
            None => r is Ok,
            Some(f) => r is Err && r->Err_0.fault() == f,
        },
{
    let ghost evs = texts(evidence_ids@);
    let mut k: usize = 0;
    assert(records@.skip(0) =~= records@);
    while k < records.len()
        invariant
            k <= records.len(),
            evs == texts(evidence_ids@),
            evidence_lists_fault(records@, evs, family@) == evidence_lists_fault(records@.skip(k as int), evs, family@),
        decreases records.len() - k,
    {
        assert(records@.skip(k as int)[0] == records@[k as int]);
        assert(records@.skip(k as int).drop_first() =~= records@.skip(k + 1));
        reference_error(reference_list_fault(&records[k], "evidence_ids", evidence_ids), family)?;
        k += 1;
    }
    Ok(())
}

/// Checks where every evidence record points ([`locations_fault`]).
pub fn validate_evidence_locations(records: &[Json]) -> (r: Result<(), R13ContractError>)
    ensures
        r is Err ==> !(r->Err_0.fault() is Other),
        match locations_fault(records@) {
            None => r is Ok,
            Some(f) => r is Err && r->Err_0.fault() == f,
        },
{
    let mut k: usize = 0;
    assert(records@.skip(0) =~= records@);
    while k < records.len()
        invariant
            k <= records.len(),
            locations_fault(records@) == locations_fault(records@.skip(k as int)),
        decreases records.len() - k,
    {
        assert(records@.skip(k as int)[0] == records@[k as int]);
        assert(records@.skip(k as int).drop_first() =~= records@.skip(k + 1));
        validate_evidence_path(&records[k])?;
        k += 1;
    }
    Ok(())
}

/// Checks the subject and path of every document ([`documents_fault`]).
pub fn validate_documents(ds: &[Json], subject_ids: &[String]) -> (r: Result<(), R13ContractError>)
    ensures
        r is Err ==> !(r->Err_0.fault() is Other),
        match documents_fault(ds@, texts(subject_ids@)) {
            None => r is Ok,
            Some(f) => r is Err && r->Err_0.fault() == f,
        },
{
    let ghost subs = texts(subject_ids@);
    let mut k: usize = 0;
    assert(ds@.skip(0) =~= ds@);
    while k < ds.len()
        invariant
            k <= ds.len(),
            subs == texts(subject_ids@),
            documents_fault(ds@, subs) == documents_fault(ds@.skip(k as int), subs),
        decreases ds.len() - k,
    {
        assert(ds@.skip(k as int)[0] == ds@[k as int]);
        assert(ds@.skip(k as int).drop_first() =~= ds@.skip(k + 1));
        reference_error(reference_fault(&ds[k], "subject_id", subject_ids), "documents")?;
        match ds[k].get_str("path") {
            Some(path) => if !safe_relative_path(path) {
                return Err(R13ContractError::UnsafePayload { reason: "unsafe_document_path" });
            },
            None => {},
        }
        k += 1;
    }
    Ok(())
}

/// Checks the references of every document statement
/// ([`statements_fault`]).
pub fn validate_statements(
    sts: &[Json],
    document_ids: &[String],
    subject_ids: &[String],
    evidence_ids: &[String],
    coverage_ids: &[String],
) -> (r: Result<(), R13ContractError>)
    ensures
        r is Err ==> !(r->Err_0.fault() is Other),
        match statements_fault(
            sts@,
            texts(document_ids@),
            texts(subject_ids@),
            texts(evidence_ids@),
            texts(coverage_ids@),
        ) {
            None => r is Ok,
            Some(f) => r is Err && r->Err_0.fault() == f,
        },
{
    let ghost ds = texts(document_ids@);
    let ghost subs = texts(subject_ids@);
    let ghost evs = texts(evidence_ids@);
    let ghost gs = texts(coverage_ids@);
    let mut k: usize = 0;
    assert(sts@.skip(0) =~= sts@);
    while k < sts.len()
        invariant
            k <= sts.len(),
            ds == texts(document_ids@),
            subs == texts(subject_ids@),
            evs == texts(evidence_ids@),
            gs == texts(coverage_ids@),
            statements_fault(sts@, ds, subs, evs, gs) == statements_fault(sts@.skip(k as int), ds, subs, evs, gs),
        decreases sts.len() - k,
    {
        assert(sts@.skip(k as int)[0] == sts@[k as int]);
        assert(sts@.skip(k as int).drop_first() =~= sts@.skip(k + 1));
        let f = "document_statements";
        reference_error(reference_fault(&sts[k], "document_id", document_ids), f)?;
        reference_error(reference_list_fault(&sts[k], "subject_ids", subject_ids), f)?;
        reference_error(reference_list_fault(&sts[k], "evidence_ids", evidence_ids), f)?;
        reference_error(reference_list_fault(&sts[k], "coverage_gap_ids", coverage_ids), f)?;
        k += 1;
    }
    Ok(())
}

/// The first entity whose `id` is `id` (`iter().find`).
pub open spec fn first_with_id(entities: Seq<Json>, id: Seq<char>) -> Option<Json>
    decreases entities.len(),
{
    if entities.len() == 0 {
        None
    } else if member_text(entities[0], "id"@) == Some(id) {
        Some(entities[0])
    } else {
        first_with_id(entities.drop_first(), id)
    }
}

/// The kind of the first entity with `id`.
pub open spec fn entity_kind_of(entities: Seq<Json>, id: Seq<char>) -> Option<Seq<char>> {
    match first_with_id(entities, id) {
        Some(e) => member_text(e, "kind"@),
        None => None,
    }
}

/// The kind of the first entity with `id`; an invalid projection when there
/// is none or it has no kind.
pub fn entity_kind<'a>(entities: &'a [Json], identifier: &str) -> (r: Result<&'a str, R13ContractError>)
    ensures
        match entity_kind_of(entities@, identifier@) {
            Some(k) => r matches Ok(t) && t@ == k,
            None => r matches Err(R13ContractError::InvalidProjection),
        },
{
    let mut k: usize = 0;
    assert(entities@.skip(0) =~= entities@);
    while k < entities.len()
        invariant
            k <= entities.len(),
            first_with_id(entities@, identifier@) == first_with_id(entities@.skip(k as int), identifier@),
        decreases entities.len() - k,
    {
        assert(entities@.skip(k as int)[0] == entities@[k as int]);
        assert(entities@.skip(k as int).drop_first() =~= entities@.skip(k + 1));
        let found = match entities[k].get_str("id") {
            Some(t) => crate::text::text_eq(t, identifier),
            None => false,
        };
        if found {
            return match entities[k].get_str("kind") {
                Some(kind) => Ok(kind),
                None => Err(R13ContractError::InvalidProjection),
            };
        }
        k += 1;
    }
    Err(R13ContractError::InvalidProjection)
}

/// The non-empty strings of the array under `field`; `None` when there is
/// no such array or an item is not a non-empty string.
pub open spec fn nonempty_texts(value: Json, field: Seq<char>) -> Option<Seq<Seq<char>>> {
    match member_items(value, field) {
        Some(items) => if forall|k: int|
            0 <= k < items.len() ==> (#[trigger] as_text(items[k])) is Some && as_text(items[k])->Some_0.len() > 0 {
            Some(items.map_values(|j: Json| crate::portable::text_of(j)))
        } else {
            None
        },
        None => None,
    }
}

/// The non-empty strings of the array under `field` ([`nonempty_texts`]).
pub fn required_string_array<'a>(value: &'a Json, field: &str) -> (r: Result<Vec<&'a str>, R13ContractError>)
    ensures
        match nonempty_texts(*value, field@) {
            Some(ts) => r matches Ok(v) && v@.map_values(|t: &str| t@) == ts,
            None => r matches Err(R13ContractError::InvalidProjection),
        },
{
    let items = match value.get_array(field) {
        Some(items) => items,
        None => return Err(R13ContractError::InvalidProjection),
    };
    let mut out: Vec<&'a str> = Vec::new();
    let mut k: usize = 0;
    while k < items.len()
        invariant
            k <= items.len(),
            member_items(*value, field@) == Some(items@),
            out@.len() == k,
            forall|m: int| 0 <= m < k ==> (#[trigger] as_text(items@[m])) is Some && as_text(items@[m])->Some_0.len() > 0,
            forall|m: int| 0 <= m < k ==> #[trigger] out@[m]@ == crate::portable::text_of(items@[m]),
        decreases items.len() - k,
    {
        let t = match items[k].as_str() {
            Some(t) => t,
            None => return Err(R13ContractError::InvalidProjection),
        };
        if t.is_empty() {
            return Err(R13ContractError::InvalidProjection);
        }
        out.push(t);
        k += 1;
    }
    assert(out@.map_values(|t: &str| t@) =~= items@.map_values(|j: Json| crate::portable::text_of(j)));
    Ok(out)
}

/// The records among `records` of `kind` whose `source` is `source`, in order.
pub open spec fn of_kind_from(records: Seq<Json>, kind: Seq<char>, source: Seq<char>) -> Seq<Json>
    decreases records.len(),
{
    if records.len() == 0 {
        Seq::empty()
    } else {
        let rest = of_kind_from(records.drop_last(), kind, source);
        let r = records.last();
        if member_text(r, "kind"@) == Some(kind) && member_text(r, "source"@) == Some(source) {
            rest.push(r)
        } else {
            rest
        }
    }
}

/// The claims about relationship `id`, in order.
pub open spec fn claims_about(claims: Seq<Json>, id: Seq<char>) -> Seq<Json>
    decreases claims.len(),
{
    if claims.len() == 0 {
        Seq::empty()
    } else {
        let rest = claims_about(claims.drop_last(), id);
        let c = claims.last();
        if member_text(c, "subject_kind"@) == Some("relationship"@) && member_text(c, "subject_id"@)
            == Some(id) {
            rest.push(c)
        } else {
            rest
        }
    }
}

/// The array `items` holds the string `id`.
pub open spec fn mentions_text(items: Seq<Json>, id: Seq<char>) -> bool {
    exists|k: int| 0 <= k < items.len() && as_text(#[trigger] items[k]) == Some(id)
}

/// The statements whose `subject_ids` hold `id`, in order.
pub open spec fn statements_about(statements: Seq<Json>, id: Seq<char>) -> Seq<Json>
    decreases statements.len(),
{
    if statements.len() == 0 {
        Seq::empty()
    } else {
        let rest = statements_about(statements.drop_last(), id);
        let st = statements.last();
        if member_items(st, "subject_ids"@) matches Some(subjects) && mentions_text(subjects, id) {
            rest.push(st)
        } else {
            rest
        }
    }
}

/// Two optional members are the same value, or both absent.
pub open spec fn same_member(a: Option<Json>, b: Option<Json>) -> bool {
    match (a, b) {
        (None, None) => true,
        (Some(x), Some(y)) => same_json(x, y),
        _ => false,
    }
}

/// One compiler-index link of a callable: from a function or method to a
/// compiler symbol, with two ordered pieces of evidence, the only such link
/// of its callable, whose callable has exactly one signature, and with
/// exactly one deterministic claim and one deterministic statement that
/// carry the same evidence.
pub open spec fn scip_link_rule(
    r: Json,
    entities: Seq<Json>,
    relationships: Seq<Json>,
    claims: Seq<Json>,
    statements: Seq<Json>,
    link_kind: Seq<char>,
) -> bool {
    match (member_text(r, "id"@), member_text(r, "source"@), member_text(r, "target"@)) {
        (Some(id), Some(source), Some(target)) => {
            let source_kind = entity_kind_of(entities, source);
            let target_kind = entity_kind_of(entities, target);
            let evidence = nonempty_texts(r, "evidence_ids"@);
            let signatures = of_kind_from(relationships, "HAS_SIGNATURE"@, source);
            let about = claims_about(claims, id);
            let stated = statements_about(statements, id);
            &&& source_kind is Some
            &&& target_kind is Some
            &&& evidence is Some
            &&& (source_kind == Some("rust.function"@) || source_kind == Some("rust.method"@))
            &&& target_kind == Some("compiler.symbol"@)
            &&& evidence->Some_0.len() == 2
            &&& crate::text::text_lt(evidence->Some_0[0], evidence->Some_0[1])
            &&& of_kind_from(relationships, link_kind, source).len() == 1
            &&& signatures.len() == 1
            &&& member_text(signatures[0], "target"@) is Some
            &&& entity_kind_of(entities, member_text(signatures[0], "target"@)->Some_0) == Some(
                "rust.callable_signature"@,
            )
            &&& about.len() == 1
            &&& member_text(about[0], "state"@) == Some("deterministic_fact"@)
            &&& same_member(member(about[0], "evidence_ids"@), member(r, "evidence_ids"@))
            &&& stated.len() == 1
            &&& member_text(stated[0], "truth_state"@) == Some("deterministic_fact"@)
            &&& same_member(member(stated[0], "evidence_ids"@), member(r, "evidence_ids"@))
        },
        _ => false,
    }
}

/// Every relationship of `link_kind` is a valid compiler-index link.
pub open spec fn scip_links_rule(
    entities: Seq<Json>,
    relationships: Seq<Json>,
    claims: Seq<Json>,
    statements: Seq<Json>,
    link_kind: Seq<char>,
) -> bool {
    forall|k: int|
        0 <= k < relationships.len() && member_text(#[trigger] relationships[k], "kind"@) == Some(link_kind)
            ==> scip_link_rule(relationships[k], entities, relationships, claims, statements, link_kind)
}

fn of_kind_from_positions(records: &[Json], kind: &str, source: &str) -> (r: Vec<usize>)
    ensures
        r@.len() == of_kind_from(records@, kind@, source@).len(),
        forall|m: int|
            0 <= m < r@.len() ==> #[trigger] r@[m] < records.len() && records@[r@[m] as int] == of_kind_from(
                records@,
                kind@,
                source@,
            )[m],
{
    let mut out: Vec<usize> = Vec::new();
    let mut k: usize = 0;
    while k < records.len()
        invariant
            k <= records.len(),
            out@.len() == of_kind_from(records@.take(k as int), kind@, source@).len(),
            forall|m: int|
                0 <= m < out@.len() ==> #[trigger] out@[m] < records.len() && records@[out@[m] as int]
                    == of_kind_from(records@.take(k as int), kind@, source@)[m],
        decreases records.len() - k,
    {
        proof {
            assert(records@.take(k + 1).drop_last() =~= records@.take(k as int));
            assert(records@.take(k + 1).last() == records@[k as int]);
        }
        let hit = match (records[k].get_str("kind"), records[k].get_str("source")) {
            (Some(a), Some(b)) => crate::text::text_eq(a, kind) && crate::text::text_eq(b, source),
            _ => false,
        };
        let ghost before = out@;
        if hit {
            out.push(k);
        }
        proof {
            let prev = of_kind_from(records@.take(k as int), kind@, source@);
            let next = of_kind_from(records@.take(k + 1), kind@, source@);
            assert forall|m: int| 0 <= m < out@.len() implies #[trigger] out@[m] < records.len()
                && records@[out@[m] as int] == next[m] by {
                if m < before.len() {
                    assert(out@[m] == before[m]);
                    assert(next[m] == prev[m]);
                }
            }
        }
        k += 1;
    }
    assert(records@.take(k as int) =~= records@);
    out
}

fn claims_about_positions(claims: &[Json], id: &str) -> (r: Vec<usize>)
    ensures
        r@.len() == claims_about(claims@, id@).len(),
        forall|m: int|
            0 <= m < r@.len() ==> #[trigger] r@[m] < claims.len() && claims@[r@[m] as int] == claims_about(
                claims@,
                id@,
            )[m],
{
    let mut out: Vec<usize> = Vec::new();
    let mut k: usize = 0;
    while k < claims.len()
        invariant
            k <= claims.len(),
            out@.len() == claims_about(claims@.take(k as int), id@).len(),
            forall|m: int|
                0 <= m < out@.len() ==> #[trigger] out@[m] < claims.len() && claims@[out@[m] as int]
                    == claims_about(claims@.take(k as int), id@)[m],
        decreases claims.len() - k,
    {
        proof {
            assert(claims@.take(k + 1).drop_last() =~= claims@.take(k as int));
            assert(claims@.take(k + 1).last() == claims@[k as int]);
        }
        let hit = match (claims[k].get_str("subject_kind"), claims[k].get_str("subject_id")) {
            (Some(a), Some(b)) => crate::text::text_eq(a, "relationship") && crate::text::text_eq(b, id),
            _ => false,
        };
        let ghost before = out@;
        if hit {
            out.push(k);
        }
        proof {
            let prev = claims_about(claims@.take(k as int), id@);
            let next = claims_about(claims@.take(k + 1), id@);
            assert forall|m: int| 0 <= m < out@.len() implies #[trigger] out@[m] < claims.len()
                && claims@[out@[m] as int] == next[m] by {
                if m < before.len() {
                    assert(out@[m] == before[m]);
                    assert(next[m] == prev[m]);
                }
            }
        }
        k += 1;
    }
    assert(claims@.take(k as int) =~= claims@);
    out
}

fn holds_text(items: &Vec<Json>, id: &str) -> (r: bool)
    ensures
        r == mentions_text(items@, id@),
{
    let mut k: usize = 0;
    while k < items.len()
        invariant
            k <= items.len(),
            forall|m: int| 0 <= m < k ==> as_text(#[trigger] items@[m]) != Some(id@),
        decreases items.len() - k,
    {
        match items[k].as_str() {
            Some(t) => if crate::text::text_eq(t, id) {
                return true;
            },
            None => {},
        }
        k += 1;
    }
    false
}

fn statements_about_positions(statements: &[Json], id: &str) -> (r: Vec<usize>)
    ensures
        r@.len() == statements_about(statements@, id@).len(),
        forall|m: int|
            0 <= m < r@.len() ==> #[trigger] r@[m] < statements.len() && statements@[r@[m] as int]
                == statements_about(statements@, id@)[m],
{
    let mut out: Vec<usize> = Vec::new();
    let mut k: usize = 0;
    while k < statements.len()
        invariant
            k <= statements.len(),
            out@.len() == statements_about(statements@.take(k as int), id@).len(),
            forall|m: int|
                0 <= m < out@.len() ==> #[trigger] out@[m] < statements.len() && statements@[out@[m] as int]
                    == statements_about(statements@.take(k as int), id@)[m],
        decreases statements.len() - k,
    {
        proof {
            assert(statements@.take(k + 1).drop_last() =~= statements@.take(k as int));
            assert(statements@.take(k + 1).last() == statements@[k as int]);
        }
        let hit = match statements[k].get_array("subject_ids") {
            Some(subjects) => holds_text(subjects, id),
            None => false,
        };
        let ghost before = out@;
        if hit {
            out.push(k);
        }
        proof {
            let prev = statements_about(statements@.take(k as int), id@);
            let next = statements_about(statements@.take(k + 1), id@);
            assert forall|m: int| 0 <= m < out@.len() implies #[trigger] out@[m] < statements.len()
                && statements@[out@[m] as int] == next[m] by {
                if m < before.len() {
                    assert(out@[m] == before[m]);
                    assert(next[m] == prev[m]);
                }
            }
        }
        k += 1;
    }
    assert(statements@.take(k as int) =~= statements@);
    out
}

fn same_member_exec(a: Option<&Json>, b: Option<&Json>) -> (r: bool)
    ensures
        r == same_member(
            match a {
                Some(x) => Some(*x),
                None => None,
            },
            match b {
                Some(x) => Some(*x),
                None => None,
            },
        ),
{
    match (a, b) {
        (None, None) => true,
        (Some(x), Some(y)) => json_equal(x, y),
        _ => false,
    }
}

fn scip_link_valid(
    r: &Json,
    entities: &[Json],
    relationships: &[Json],
    claims: &[Json],
    statements: &[Json],
    link_kind: &str,
) -> (ok: bool)
    ensures
        ok == scip_link_rule(*r, entities@, relationships@, claims@, statements@, link_kind@),
{
    let (id, source, target) = match (r.get_str("id"), r.get_str("source"), r.get_str("target")) {
        (Some(a), Some(b), Some(c)) => (a, b, c),
        _ => return false,
    };
    let source_kind = match entity_kind(entities, source) {
        Ok(k) => k,
        Err(_) => return false,
    };
    let target_kind = match entity_kind(entities, target) {
        Ok(k) => k,
        Err(_) => return false,
    };
    let evidence = match required_string_array(r, "evidence_ids") {
        Ok(v) => v,
        Err(_) => return false,
    };
    proof {
        let ev = nonempty_texts(*r, "evidence_ids"@)->Some_0;
        assert(evidence@.len() == ev.len());
        if evidence@.len() == 2 {
            assert(evidence@[0]@ == ev[0]);
            assert(evidence@[1]@ == ev[1]);
        }
    }
    if !(crate::text::text_eq(source_kind, "rust.function") || crate::text::text_eq(source_kind, "rust.method"))
        || !crate::text::text_eq(target_kind, "compiler.symbol") || evidence.len() != 2
        || !crate::text::text_less(evidence[0], evidence[1])
        || of_kind_from_positions(relationships, link_kind, source).len() != 1 {
        return false;
    }
    let signatures = of_kind_from_positions(relationships, "HAS_SIGNATURE", source);
    if signatures.len() != 1 {
        return false;
    }
    let signature_id = match relationships[signatures[0]].get_str("target") {
        Some(t) => t,
        None => return false,
    };
    match entity_kind(entities, signature_id) {
        Ok(k) => if !crate::text::text_eq(k, "rust.callable_signature") {
            return false;
        },
        Err(_) => return false,
    }
    let about = claims_about_positions(claims, id);
    if about.len() != 1 {
        return false;
    }
    let claim = &claims[about[0]];
    let claim_ok = match claim.get_str("state") {
        Some(t) => crate::text::text_eq(t, "deterministic_fact"),
        None => false,
    };
    if !claim_ok || !same_member_exec(claim.get("evidence_ids"), r.get("evidence_ids")) {
        return false;
    }
    let stated = statements_about_positions(statements, id);
    if stated.len() != 1 {
        return false;
    }
    let statement = &statements[stated[0]];
    let statement_ok = match statement.get_str("truth_state") {
        Some(t) => crate::text::text_eq(t, "deterministic_fact"),
        None => false,
    };
    statement_ok && same_member_exec(statement.get("evidence_ids"), r.get("evidence_ids"))
}

/// Every relationship of `link_kind` is a valid compiler-index link
/// ([`scip_links_rule`]); the families must be arrays.
pub fn validate_callable_scip_portable_links(object: &Json, link_kind: &str) -> (r: Result<(), R13ContractError>)
    ensures
        r is Ok <==> (member_items(*object, "entities"@) is Some && member_items(*object, "relationships"@)
            is Some && member_items(*object, "claims"@) is Some && member_items(*object, "document_statements"@)
            is Some && scip_links_rule(
            member_items(*object, "entities"@)->Some_0,
            member_items(*object, "relationships"@)->Some_0,
            member_items(*object, "claims"@)->Some_0,
            member_items(*object, "document_statements"@)->Some_0,
            link_kind@,
        )),
        r is Err ==> r matches Err(R13ContractError::InvalidProjection),
{
    let entities = match object.get_array("entities") {
        Some(v) => v,
        None => return Err(R13ContractError::InvalidProjection),
    };
    let relationships = match object.get_array("relationships") {
        Some(v) => v,
        None => return Err(R13ContractError::InvalidProjection),
    };
    let claims = match object.get_array("claims") {
        Some(v) => v,
        None => return Err(R13ContractError::InvalidProjection),
    };
    let statements = match object.get_array("document_statements") {
        Some(v) => v,
        None => return Err(R13ContractError::InvalidProjection),
    };
    let mut k: usize = 0;
    while k < relationships.len()
        invariant
            k <= relationships.len(),
            member_items(*object, "entities"@) == Some(entities@),
            member_items(*object, "relationships"@) == Some(relationships@),
            member_items(*object, "claims"@) == Some(claims@),
            member_items(*object, "document_statements"@) == Some(statements@),
            forall|m: int|
                0 <= m < k && member_text(#[trigger] relationships@[m], "kind"@) == Some(link_kind@)
                    ==> scip_link_rule(relationships@[m], entities@, relationships@, claims@, statements@, link_kind@),
        decreases relationships.len() - k,
    {
        let is_link = match relationships[k].get_str("kind") {
            Some(t) => crate::text::text_eq(t, link_kind),
            None => false,
        };
        if is_link && !scip_link_valid(
            &relationships[k],
            entities.as_slice(),
            relationships.as_slice(),
            claims.as_slice(),
            statements.as_slice(),
            link_kind,
        ) {
            return Err(R13ContractError::InvalidProjection);
        }
        k += 1;
    }
    Ok(())
}


/// The schema names and the compiler-link relationship kind of the R13
/// portable-graph profile, as the caller's domain model declares them.
#[derive(Clone, Debug, PartialEq, Eq)]
pub struct PortableVersions {
    pub portable_graph: String,
    pub ontology: String,
    pub query: String,
    pub snapshot: String,
    pub relationship_kind: String,
}

/// The member names of a portable graph.
pub open spec fn portable_keys() -> Seq<Seq<char>> {
    seq![
        "claims"@,
        "coverage_gaps"@,
        "diagnostics"@,
        "document_statements"@,
        "documents"@,
        "entities"@,
        "evidence"@,
        "ontology_version"@,
        "projection"@,
        "query_contract_version"@,
        "relationships"@,
        "repository"@,
        "schema_version"@,
        "source_snapshot"@,
    ]
}

/// The projection profile a portable graph declares.
pub open spec fn portable_projection_profile() -> Seq<char> {
    "codenoesis.lossless-portable-projection/v6"@
}

/// The text at `/outer/inner` (`value.pointer(..).and_then(Value::as_str)`).
pub open spec fn pointer_text(value: Json, outer: Seq<char>, inner: Seq<char>) -> Option<Seq<char>> {
    match member(value, outer) {
        Some(x) => member_text(x, inner),
        None => None,
    }
}

/// The text at `/outer/inner` of `value` ([`pointer_text`]).
pub fn pointer_str<'a>(value: &'a Json, outer: &str, inner: &str) -> (r: Option<&'a str>)
    ensures
        match r {
            Some(t) => pointer_text(*value, outer@, inner@) == Some(t@),
            None => pointer_text(*value, outer@, inner@) is None,
        },
{
    match value.get(outer) {
        Some(x) => x.get_str(inner),
        None => None,
    }
}

/// What is wrong with the envelope of a portable graph, in the order the
/// checks run: nesting, private payloads, the member set, the schema, the
/// declared versions and profile, and the repository identity.
pub open spec fn portable_header_fault(value: Json, v: PortableVersions) -> Option<PortableFault> {
    if height(value) > MAX_R13_JSON_NESTING {
        Some(
            PortableFault::LimitExceeded {
                limit: "json_nesting"@,
                maximum: MAX_R13_JSON_NESTING,
                observed: (MAX_R13_JSON_NESTING + 1) as u64,
            },
        )
    } else if first_finding(value, r13_private_fields(), true) is Some {
        match first_finding(value, r13_private_fields(), true) {
            Some(FindingView::DeniedField(_)) => Some(PortableFault::UnsafePayload("private_field"@)),
            _ => Some(PortableFault::UnsafePayload("raw_url"@)),
        }
    } else if !crate::portable::same_key_set(value, portable_keys()) {
        Some(PortableFault::InvalidProjection)
    } else {
        match member_text(value, "schema_version"@) {
            None => Some(PortableFault::InvalidProjection),
            Some(schema) => if schema != v.portable_graph@ {
                Some(PortableFault::UnsupportedPortableGraphSchema(take_scalars(schema, 256)))
            } else if member_text(value, "ontology_version"@) != Some(v.ontology@) || member_text(
                value,
                "query_contract_version"@,
            ) != Some(v.query@) || pointer_text(value, "source_snapshot"@, "schema_version"@) != Some(
                v.snapshot@,
            ) || pointer_text(value, "projection"@, "profile"@) != Some(portable_projection_profile()) {
                Some(PortableFault::InvalidProjection)
            } else if !(pointer_text(value, "repository"@, "identity"@) matches Some(id)
                && crate::text::starts_with(id, "urn:codenoesis:"@)) {
                Some(PortableFault::InvalidProjection)
            } else {
                None
            },
        }
    }
}

fn validate_portable_header<'a>(value: &'a Json, versions: &PortableVersions) -> (r: Result<
    &'a str,
    R13ContractError,
>)
    ensures
        r is Err ==> !(r->Err_0.fault() is Other),
        match portable_header_fault(*value, *versions) {
            Some(f) => r is Err && r->Err_0.fault() == f,
            None => r matches Ok(id) && pointer_text(*value, "repository"@, "identity"@) == Some(id@),
        },
{
    ensure_nesting(value, 0)?;
    validate_private_fields(value)?;
    let keys = [
        "claims",
        "coverage_gaps",
        "diagnostics",
        "document_statements",
        "documents",
        "entities",
        "evidence",
        "ontology_version",
        "projection",
        "query_contract_version",
        "relationships",
        "repository",
        "schema_version",
        "source_snapshot",
    ];
    assert(names_view(keys@) =~= portable_keys());
    if !crate::portable::has_key_set(value, &keys) {
        return Err(R13ContractError::InvalidProjection);
    }
    let schema = match value.get_str("schema_version") {
        Some(t) => t,
        None => return Err(R13ContractError::InvalidProjection),
    };
    if !crate::text::text_eq(schema, versions.portable_graph.as_str()) {
        return Err(R13ContractError::UnsupportedPortableGraphSchema(bounded(schema, 256)));
    }
    let ontology_ok = match value.get_str("ontology_version") {
        Some(t) => crate::text::text_eq(t, versions.ontology.as_str()),
        None => false,
    };
    let query_ok = match value.get_str("query_contract_version") {
        Some(t) => crate::text::text_eq(t, versions.query.as_str()),
        None => false,
    };
    let snapshot_ok = match pointer_str(value, "source_snapshot", "schema_version") {
        Some(t) => crate::text::text_eq(t, versions.snapshot.as_str()),
        None => false,
    };
    let profile_ok = match pointer_str(value, "projection", "profile") {
        Some(t) => crate::text::text_eq(t, "codenoesis.lossless-portable-projection/v6"),
        None => false,
    };
    if !ontology_ok || !query_ok || !snapshot_ok || !profile_ok {
        return Err(R13ContractError::InvalidProjection);
    }
    match pointer_str(value, "repository", "identity") {
        Some(id) => if crate::text::text_starts_with(id, "urn:codenoesis:") {
            Ok(id)
        } else {
            Err(R13ContractError::InvalidProjection)
        },
        None => Err(R13ContractError::InvalidProjection),
    }
}


/// A family check as an R13 outcome: the family's identifiers, or why it is
/// refused.
pub open spec fn family_step(value: Json, family: Seq<char>, id_field: Seq<char>) -> Result<
    Seq<Seq<char>>,
    PortableFault,
> {
    match family_outcome(value, family, id_field) {
        Ok(ids) => Ok(ids),
        Err(FaultView::Malformed) => Err(PortableFault::InvalidProjection),
        Err(FaultView::Offending(id)) => Err(PortableFault::IdentityConflict(family, id)),
    }
}

fn family_checked(object: &Json, family: &'static str, id_field: &'static str) -> (r: Result<
    Vec<String>,
    R13ContractError,
>)
    ensures
        r is Err ==> !(r->Err_0.fault() is Other),
        match family_step(*object, family@, id_field@) {
            Ok(ids) => r matches Ok(v) && texts(v@) == ids,
            Err(f) => r is Err && r->Err_0.fault() == f,
        },
        r is Ok ==> member_items(*object, family@) is Some,
{
    validate_family(object, family, id_field)
}

/// Every identifier a document or statement may name as its subject: the
/// repository identity and the identifiers of all eight families.
pub open spec fn subject_ids(
    identity: Seq<char>,
    families: Seq<Seq<Seq<char>>>,
) -> Seq<Seq<char>> {
    seq![identity] + families[0] + families[1] + families[2] + families[3] + families[4] + families[5]
        + families[6] + families[7]
}

/// Appends the texts of `ids` to `out`.
pub fn append_texts(out: &mut Vec<String>, ids: &[String])
    ensures
        texts(final(out)@) == texts(old(out)@) + texts(ids@),
{
    let ghost start = texts(out@);
    let mut k: usize = 0;
    while k < ids.len()
        invariant
            k <= ids.len(),
            texts(out@) == start + texts(ids@).take(k as int),
        decreases ids.len() - k,
    {
        let ghost before = out@;
        let copy = ids[k].as_str().to_owned();
        out.push(copy);
        proof {
            assert(texts(out@) =~= texts(before).push(ids@[k as int]@));
            assert(texts(ids@).take(k + 1) =~= texts(ids@).take(k as int).push(ids@[k as int]@));
            assert(texts(out@) =~= start + texts(ids@).take(k + 1));
        }
        k += 1;
    }
    assert(texts(ids@).take(k as int) =~= texts(ids@));
}

/// The items of the member `family`, which the family checks have found to
/// be an array.
pub open spec fn items_of(value: Json, family: Seq<char>) -> Seq<Json> {
    member_items(value, family)->Some_0
}

/// What is wrong with the references of a portable graph whose families
/// hold `f` (entities, relationships, claims, evidence, diagnostics,
/// coverage gaps, documents, statements), in the order the checks run.
pub open spec fn portable_references_fault(
    value: Json,
    identity: Seq<char>,
    f: Seq<Seq<Seq<char>>>,
    link_kind: Seq<char>,
) -> Option<PortableFault> {
    let subjects = subject_ids(identity, f);
    first_of(
        relationships_fault(items_of(value, "relationships"@), f[0], f[3]),
        first_of(
            claims_fault(items_of(value, "claims"@), f[0], f[1], f[3]),
            first_of(
                evidence_lists_fault(items_of(value, "entities"@), f[3], "entities"@),
                first_of(
                    evidence_lists_fault(items_of(value, "diagnostics"@), f[3], "diagnostics"@),
                    first_of(
                        evidence_lists_fault(items_of(value, "coverage_gaps"@), f[3], "coverage_gaps"@),
                        first_of(
                            locations_fault(items_of(value, "evidence"@)),
                            first_of(
                                documents_fault(items_of(value, "documents"@), subjects),
                                first_of(
                                    statements_fault(
                                        items_of(value, "document_statements"@),
                                        f[6],
                                        subjects,
                                        f[3],
                                        f[5],
                                    ),
                                    if scip_links_rule(
                                        items_of(value, "entities"@),
                                        items_of(value, "relationships"@),
                                        items_of(value, "claims"@),
                                        items_of(value, "document_statements"@),
                                        link_kind,
                                    ) {
                                        None
                                    } else {
                                        Some(PortableFault::InvalidProjection)
                                    },
                                ),
                            ),
                        ),
                    ),
                ),
            ),
        ),
    )
}

/// What is wrong with a portable graph before its family digests are
/// compared, in the order the checks run: the envelope, the eight
/// identifier families, then the references.
pub open spec fn portable_fault(value: Json, v: PortableVersions) -> Option<PortableFault> {
    match portable_header_fault(value, v) {
        Some(f) => Some(f),
        None => {
            let identity = pointer_text(value, "repository"@, "identity"@)->Some_0;
            match family_step(value, "entities"@, "id"@) {
                Err(f) => Some(f),
                Ok(e) => match family_step(value, "relationships"@, "id"@) {
                    Err(f) => Some(f),
                    Ok(r) => match family_step(value, "claims"@, "id"@) {
                        Err(f) => Some(f),
                        Ok(c) => match family_step(value, "evidence"@, "id"@) {
                            Err(f) => Some(f),
                            Ok(ev) => match family_step(value, "diagnostics"@, "id"@) {
                                Err(f) => Some(f),
                                Ok(d) => match family_step(value, "coverage_gaps"@, "id"@) {
                                    Err(f) => Some(f),
                                    Ok(cg) => match family_step(value, "documents"@, "document_id"@) {
                                        Err(f) => Some(f),
                                        Ok(docs) => match family_step(
                                            value,
                                            "document_statements"@,
                                            "statement_id"@,
                                        ) {
                                            Err(f) => Some(f),
                                            Ok(sts) => portable_references_fault(
                                                value,
                                                identity,
                                                seq![e, r, c, ev, d, cg, docs, sts],
                                                v.relationship_kind@,
                                            ),
                                        },
                                    },
                                },
                            },
                        },
                    },
                },
            }
        },
    }
}


fn validate_portable_references(
    value: &Json,
    identity: &str,
    ids: &[Vec<String>; 8],
    link_kind: &str,
) -> (res: Result<(), R13ContractError>)
    requires
        member_items(*value, "entities"@) is Some,
        member_items(*value, "relationships"@) is Some,
        member_items(*value, "claims"@) is Some,
        member_items(*value, "evidence"@) is Some,
        member_items(*value, "diagnostics"@) is Some,
        member_items(*value, "coverage_gaps"@) is Some,
        member_items(*value, "documents"@) is Some,
        member_items(*value, "document_statements"@) is Some,
    ensures
        res is Err ==> !(res->Err_0.fault() is Other),
        match portable_references_fault(
            *value,
            identity@,
            seq![
                texts(ids[0]@),
                texts(ids[1]@),
                texts(ids[2]@),
                texts(ids[3]@),
                texts(ids[4]@),
                texts(ids[5]@),
                texts(ids[6]@),
                texts(ids[7]@),
            ],
            link_kind@,
        ) {
            None => res is Ok,
            Some(f) => res is Err && res->Err_0.fault() == f,
        },
{
    let ghost f = seq![
        texts(ids[0]@),
        texts(ids[1]@),
        texts(ids[2]@),
        texts(ids[3]@),
        texts(ids[4]@),
        texts(ids[5]@),
        texts(ids[6]@),
        texts(ids[7]@),
    ];
    let entities = match value.get_array("entities") {
        Some(v) => v,
        None => return Err(R13ContractError::InvalidProjection),
    };
    let relationships = match value.get_array("relationships") {
        Some(v) => v,
        None => return Err(R13ContractError::InvalidProjection),
    };
    let claims = match value.get_array("claims") {
        Some(v) => v,
        None => return Err(R13ContractError::InvalidProjection),
    };
    let evidence = match value.get_array("evidence") {
        Some(v) => v,
        None => return Err(R13ContractError::InvalidProjection),
    };
    let diagnostics = match value.get_array("diagnostics") {
        Some(v) => v,
        None => return Err(R13ContractError::InvalidProjection),
    };
    let gaps = match value.get_array("coverage_gaps") {
        Some(v) => v,
        None => return Err(R13ContractError::InvalidProjection),
    };
    let documents = match value.get_array("documents") {
        Some(v) => v,
        None => return Err(R13ContractError::InvalidProjection),
    };
    let statements = match value.get_array("document_statements") {
        Some(v) => v,
        None => return Err(R13ContractError::InvalidProjection),
    };
    let evidence_ids = ids[3].as_slice();
    validate_relationship_references(relationships.as_slice(), ids[0].as_slice(), evidence_ids)?;
    validate_claim_references(claims.as_slice(), ids[0].as_slice(), ids[1].as_slice(), evidence_ids)?;
    validate_evidence_lists(entities.as_slice(), evidence_ids, "entities")?;
    validate_evidence_lists(diagnostics.as_slice(), evidence_ids, "diagnostics")?;
    validate_evidence_lists(gaps.as_slice(), evidence_ids, "coverage_gaps")?;
    validate_evidence_locations(evidence.as_slice())?;
    let mut subjects: Vec<String> = Vec::new();
    subjects.push(identity.to_owned());
    let mut k: usize = 0;
    while k < 8
        invariant
            k <= 8,
            f == seq![
                texts(ids[0]@),
                texts(ids[1]@),
                texts(ids[2]@),
                texts(ids[3]@),
                texts(ids[4]@),
                texts(ids[5]@),
                texts(ids[6]@),
                texts(ids[7]@),
            ],
            texts(subjects@) == f.take(k as int).fold_left(seq![identity@], |acc: Seq<Seq<char>>, x: Seq<Seq<char>>| acc + x),
        decreases 8 - k,
    {
        append_texts(&mut subjects, ids[k].as_slice());
        proof {
            assert(f.take(k + 1).drop_last() =~= f.take(k as int));
            assert(f[k as int] == texts(ids[k as int]@));
        }
        k += 1;
    }
    proof {
        assert(f.take(8) =~= f);
        reveal_with_fuel(vstd::seq::Seq::fold_left, 9);
        assert(texts(subjects@) =~= subject_ids(identity@, f));
    }
    validate_documents(documents.as_slice(), subjects.as_slice())?;
    validate_statements(statements.as_slice(), ids[6].as_slice(), subjects.as_slice(), evidence_ids, ids[5].as_slice())?;
    validate_callable_scip_portable_links(value, link_kind)
}


/// Checks everything of a portable graph but its family digests: the
/// envelope, the eight identifier families and every reference; the first
/// failing check decides the error ([`portable_fault`]).
pub fn validate_portable_structure(value: &Json, versions: &PortableVersions) -> (r: Result<
    (),
    R13ContractError,
>)
    ensures
        r is Err ==> !(r->Err_0.fault() is Other),
        match portable_fault(*value, *versions) {
            None => r is Ok,
            Some(f) => r is Err && r->Err_0.fault() == f,
        },
        r is Ok ==> forall|k: int|
            0 <= k < 8 ==> member_items(*value, #[trigger] portable_family_names()[k]) is Some,
{
    let identity = validate_portable_header(value, versions)?;
    let e = family_checked(value, "entities", "id")?;
    let r = family_checked(value, "relationships", "id")?;
    let c = family_checked(value, "claims", "id")?;
    let ev = family_checked(value, "evidence", "id")?;
    let d = family_checked(value, "diagnostics", "id")?;
    let cg = family_checked(value, "coverage_gaps", "id")?;
    let docs = family_checked(value, "documents", "document_id")?;
    let sts = family_checked(value, "document_statements", "statement_id")?;
    let ids = [e, r, c, ev, d, cg, docs, sts];
    assert forall|k: int| 0 <= k < 8 implies member_items(*value, #[trigger] portable_family_names()[k])
        is Some by {
        if k == 0 {
        } else if k == 1 {
        } else if k == 2 {
        } else if k == 3 {
        } else if k == 4 {
        } else if k == 5 {
        } else if k == 6 {
        } else {
        }
    }
    validate_portable_references(value, identity, &ids, versions.relationship_kind.as_str())
}


/// The eight families of a portable graph, in the order their digests are
/// declared.
pub open spec fn portable_family_names() -> Seq<Seq<char>> {
    seq![
        "entities"@,
        "relationships"@,
        "claims"@,
        "evidence"@,
        "diagnostics"@,
        "coverage_gaps"@,
        "documents"@,
        "document_statements"@,
    ]
}

/// `projection.family_sha256` is an object that declares, for each family
/// and nothing else, the digest at its position in `digests`.
pub open spec fn digests_declared(value: Json, digests: Seq<Seq<char>>) -> bool {
    match member(value, "projection"@) {
        Some(p) => match member(p, "family_sha256"@) {
            Some(fs) => {
                &&& digests.len() == 8
                &&& crate::portable::same_key_set(fs, portable_family_names())
                &&& forall|k: int|
                    0 <= k < 8 ==> member_text(fs, #[trigger] portable_family_names()[k]) == Some(
                        digests[k],
                    )
            },
            None => false,
        },
        None => false,
    }
}

/// `digests` are answers the digest function `f` can give for the compact
/// JSON text of each family, in order.
pub open spec fn family_digests_of<F: Fn(&[u8]) -> String>(
    f: F,
    value: Json,
    digests: Seq<Seq<char>>,
) -> bool {
    &&& digests.len() == 8
    &&& forall|k: int|
        0 <= k < 8 ==> (member(value, #[trigger] portable_family_names()[k]) matches Some(x)
            && crate::s4_r18::digest_of(f, crate::json::json_bytes(x), digests[k]))
}

/// Compares the declared family digests with `digests`, the computed ones in
/// family order; a mismatch is `InvalidProjection` ([`digests_declared`]).
pub fn check_family_digests(value: &Json, digests: &[String]) -> (r: Result<(), R13ContractError>)
    ensures
        r is Ok <==> digests_declared(*value, texts(digests@)),
        r is Err ==> r matches Err(R13ContractError::InvalidProjection),
{
    let declared = match pointer_get(value, "projection", "family_sha256") {
        Some(fs) => fs,
        None => return Err(R13ContractError::InvalidProjection),
    };
    let names = [
        "entities",
        "relationships",
        "claims",
        "evidence",
        "diagnostics",
        "coverage_gaps",
        "documents",
        "document_statements",
    ];
    assert(names_view(names@) =~= portable_family_names());
    if digests.len() != 8 || !crate::portable::has_key_set(declared, &names) {
        return Err(R13ContractError::InvalidProjection);
    }
    let mut k: usize = 0;
    while k < 8
        invariant
            k <= 8,
            digests.len() == 8,
            names_view(names@) == portable_family_names(),
            member(*value, "projection"@) matches Some(p) && member(p, "family_sha256"@) == Some(*declared),
            forall|m: int|
                0 <= m < k ==> member_text(*declared, #[trigger] portable_family_names()[m]) == Some(
                    texts(digests@)[m],
                ),
        decreases 8 - k,
    {
        let ok = match declared.get_str(names[k]) {
            Some(t) => crate::text::text_eq(t, digests[k].as_str()),
            None => false,
        };
        assert(names@[k as int]@ == portable_family_names()[k as int]);
        if !ok {
            assert(member_text(*declared, portable_family_names()[k as int]) != Some(
                texts(digests@)[k as int],
            ));
            return Err(R13ContractError::InvalidProjection);
        }
        k += 1;
    }
    Ok(())
}

fn pointer_get<'a>(value: &'a Json, outer: &str, inner: &str) -> (r: Option<&'a Json>)
    ensures
        match r {
            Some(x) => member(*value, outer@) matches Some(p) && member(p, inner@) == Some(*x),
            None => !(member(*value, outer@) matches Some(p) && member(p, inner@) is Some),
        },
{
    match value.get(outer) {
        Some(x) => x.get(inner),
        None => None,
    }
}

/// Computes the digest of the compact JSON text of each family with
/// `sha256`; a missing family is `InvalidProjection`.
fn family_digests<F: Fn(&[u8]) -> String>(value: &Json, sha256: &F) -> (r: Result<
    Vec<String>,
    R13ContractError,
>)
    requires
        crate::s4_r18::total_digest(*sha256),
    ensures
        r matches Ok(ds) ==> family_digests_of(*sha256, *value, texts(ds@)),
        r is Err ==> r matches Err(R13ContractError::InvalidProjection),
        (forall|k: int| 0 <= k < 8 ==> member(*value, #[trigger] portable_family_names()[k]) is Some)
            ==> r is Ok,
{
    let names = [
        "entities",
        "relationships",
        "claims",
        "evidence",
        "diagnostics",
        "coverage_gaps",
        "documents",
        "document_statements",
    ];
    assert(names_view(names@) =~= portable_family_names());
    let mut out: Vec<String> = Vec::new();
    let mut k: usize = 0;
    while k < 8
        invariant
            k <= 8,
            out@.len() == k,
            crate::s4_r18::total_digest(*sha256),
            names_view(names@) == portable_family_names(),
            forall|m: int|
                0 <= m < k ==> (member(*value, #[trigger] portable_family_names()[m]) matches Some(x)
                    && crate::s4_r18::digest_of(*sha256, crate::json::json_bytes(x), texts(out@)[m])),
        decreases 8 - k,
    {
        assert(names@[k as int]@ == portable_family_names()[k as int]);
        let family = match value.get(names[k]) {
            Some(x) => x,
            None => return Err(R13ContractError::InvalidProjection),
        };
        let bytes = crate::json::to_bytes(family);
        let slice = bytes.as_slice();
        let digest = sha256(slice);
        proof {
            assert(call_ensures(*sha256, (slice,), digest));
            assert(crate::s4_r18::digest_of(*sha256, crate::json::json_bytes(*family), digest@));
        }
        let ghost before = out@;
        out.push(digest);
        proof {
            assert(texts(out@) =~= texts(before).push(digest@));
        }
        k += 1;
    }
    Ok(out)
}

/// Validates one portable graph: its structure ([`portable_fault`]) decides
/// every error but the last check, which compares the declared family
/// digests with those `sha256` gives; a mismatch there is
/// `InvalidProjection`.
pub fn validate_portable_value<F: Fn(&[u8]) -> String>(
    value: &Json,
    versions: &PortableVersions,
    sha256: &F,
) -> (r: Result<(), R13ContractError>)
    requires
        crate::s4_r18::total_digest(*sha256),
    ensures
        r is Err ==> !(r->Err_0.fault() is Other),
        match portable_fault(*value, *versions) {
            Some(f) => r is Err && r->Err_0.fault() == f,
            None => {
                &&& r is Ok ==> exists|ds: Seq<Seq<char>>|
                    family_digests_of(*sha256, *value, ds) && digests_declared(*value, ds)
                &&& r is Err ==> (r matches Err(R13ContractError::InvalidProjection))
                &&& (forall|ds: Seq<Seq<char>>|
                    #[trigger] family_digests_of(*sha256, *value, ds) ==> digests_declared(*value, ds))
                    ==> r is Ok
            },
        },
{
    validate_portable_structure(value, versions)?;
    assert forall|k: int| 0 <= k < 8 implies member(*value, #[trigger] portable_family_names()[k]) is Some by {
        assert(member_items(*value, portable_family_names()[k]) is Some);
    }
    let digests = family_digests(value, sha256)?;
    check_family_digests(value, digests.as_slice())
}


/// What a V6 export needs of its inputs: the snapshot's ontology, the
/// manifest bound to the head, a knowledge graph object with all the record
/// families, documents the export can take, the repository.
pub open spec fn v6_export_inputs(semantic: Json, head: LocalSnapshotHead, manifest: Json, versions: PortableVersions) -> bool {
    &&& member_text(semantic, "ontology_version"@) == Some(versions.ontology@)
    &&& crate::export::documentation_bound(manifest, head)
    &&& member(semantic, "knowledge_graph"@) matches Some(g) && g is Object && {
        &&& member(g, "claims"@) is Some
        &&& member(g, "coverage"@) is Some
        &&& member(g, "diagnostics"@) is Some
        &&& member(g, "entities"@) is Some
        &&& member(g, "evidence"@) is Some
        &&& member(g, "relationships"@) is Some
    }
    &&& crate::export::manifest_documents(manifest) is Some
    &&& member(semantic, "repository"@) is Some
}

/// The V6 portable projection of a snapshot, its head and documentation
/// manifest, member by member in key order: copies of the graph's record
/// families (coverage gaps from `coverage`), the manifest's documents and
/// statements, the versions, the projection profile with the digest `ds[k]`
/// of each family (an answer of `f` for that family's canonical bytes),
/// copies of the repository, and the source snapshot.
pub open spec fn v6_projection<F: Fn(&[u8]) -> String>(
    v: Json,
    semantic: Json,
    head: LocalSnapshotHead,
    manifest: Json,
    versions: PortableVersions,
    f: F,
    ds: Seq<Seq<char>>,
) -> bool {
    let g = member(semantic, "knowledge_graph"@).unwrap();
    let docs = crate::export::manifest_documents(manifest).unwrap();
    &&& member_count(v) == 14
    &&& crate::export::copy_member(v, 0, "claims"@, member(g, "claims"@))
    &&& crate::export::copy_member(v, 1, "coverage_gaps"@, member(g, "coverage"@))
    &&& crate::export::copy_member(v, 2, "diagnostics"@, member(g, "diagnostics"@))
    &&& crate::json::member_at(v, 3, "document_statements"@) matches Some(Json::Array(xs))
        && crate::export::portable_statements_of(xs@, docs)
    &&& crate::json::member_at(v, 4, "documents"@) matches Some(Json::Array(xs))
        && crate::export::portable_documents_of(xs@, docs)
    &&& crate::export::copy_member(v, 5, "entities"@, member(g, "entities"@))
    &&& crate::export::copy_member(v, 6, "evidence"@, member(g, "evidence"@))
    &&& crate::explorer::text_member(v, 7, "ontology_version"@, versions.ontology@)
    &&& crate::json::member_at(v, 8, "projection"@) matches Some(p) && {
        &&& member_count(p) == 2
        &&& crate::json::member_at(p, 0, "family_sha256"@) matches Some(fd) && {
            &&& member_count(fd) == 8
            &&& ds.len() == 8
            &&& crate::export::digest_member(fd, 0, "claims"@, ds[0], v, 0, f)
            &&& crate::export::digest_member(fd, 1, "coverage_gaps"@, ds[1], v, 1, f)
            &&& crate::export::digest_member(fd, 2, "diagnostics"@, ds[2], v, 2, f)
            &&& crate::export::digest_member(fd, 3, "document_statements"@, ds[3], v, 3, f)
            &&& crate::export::digest_member(fd, 4, "documents"@, ds[4], v, 4, f)
            &&& crate::export::digest_member(fd, 5, "entities"@, ds[5], v, 5, f)
            &&& crate::export::digest_member(fd, 6, "evidence"@, ds[6], v, 6, f)
            &&& crate::export::digest_member(fd, 7, "relationships"@, ds[7], v, 10, f)
        }
        &&& crate::explorer::text_member(p, 1, "profile"@, "codenoesis.lossless-portable-projection/v6"@)
    }
    &&& crate::explorer::text_member(v, 9, "query_contract_version"@, versions.query@)
    &&& crate::export::copy_member(v, 10, "relationships"@, member(g, "relationships"@))
    &&& crate::export::copy_member(v, 11, "repository"@, member(semantic, "repository"@))
    &&& crate::explorer::text_member(v, 12, "schema_version"@, versions.portable_graph@)
    &&& crate::json::member_at(v, 13, "source_snapshot"@) matches Some(src) && {
        &&& member_count(src) == 3
        &&& crate::explorer::text_member(src, 0, "schema_version"@, versions.snapshot@)
        &&& crate::json::member_at(src, 1, "semantic_hash"@) matches Some(h) && member_count(h) == 2
            && crate::explorer::text_member(h, 0, "algorithm"@, head.semantic_hash_algorithm@)
            && crate::explorer::text_member(h, 1, "value"@, head.semantic_hash@)
        &&& crate::explorer::text_member(src, 2, "snapshot_id"@, head.snapshot_id@)
    }
}

/// A V6 document that validates whatever the digest function answers:
/// it has no structural fault and every digest the function can give is
/// the declared one.
pub open spec fn v6_value_accepted<F: Fn(&[u8]) -> String>(value: Json, versions: PortableVersions, sha256: F) -> bool {
    &&& portable_fault(value, versions) is None
    &&& forall|ds: Seq<Seq<char>>|
        #[trigger] family_digests_of(sha256, value, ds) ==> digests_declared(value, ds)
}

/// A validated portable graph with its canonical compact JSON text and the
/// digest function it was checked with.
pub struct PortableGraphV6<F: Fn(&[u8]) -> String> {
    value: Json,
    canonical: Vec<u8>,
    sha256: F,
}

impl<F: Fn(&[u8]) -> String> PortableGraphV6<F> {
    /// The canonical bytes are the canonical text of the document.
    #[verifier::type_invariant]
    closed spec fn canonical_matches(&self) -> bool {
        self.canonical@ == crate::json::json_bytes(self.value)
    }

    /// The graph document.
    pub closed spec fn document(&self) -> Json {
        self.value
    }

    /// The canonical text of the document, without the final LF.
    pub closed spec fn canonical_bytes(&self) -> Seq<u8> {
        self.canonical@
    }

    /// The digest function the graph was checked with.
    pub closed spec fn digest_function(&self) -> F {
        self.sha256
    }

    /// Strictly re-imports one canonical LF-terminated portable graph.
    /// `parsed` is the JSON parse of all of `bytes` (`None` when they do not
    /// parse).
    ///
    /// Above [`MAX_R13_PORTABLE_GRAPH_BYTES`] is `LimitExceeded`; a failed
    /// parse is `InvalidProjection`; the document must then validate
    /// ([`validate_portable_value`]); bytes that are not exactly its
    /// canonical text and one LF are `Noncanonical`, with the digests of the
    /// expected and the observed bytes.
    pub fn from_canonical_file(
        bytes: &[u8],
        parsed: Option<Json>,
        versions: &PortableVersions,
        sha256: F,
    ) -> (r: Result<Self, R13ContractError>)
        requires
            crate::s4_r18::total_digest(sha256),
        ensures
            bytes@.len() > MAX_R13_PORTABLE_GRAPH_BYTES ==> (r matches Err(
                R13ContractError::LimitExceeded { limit, maximum, observed },
            ) && limit@ == "portable_graph_bytes"@ && maximum == MAX_R13_PORTABLE_GRAPH_BYTES
                && observed == bytes@.len()),
            bytes@.len() <= MAX_R13_PORTABLE_GRAPH_BYTES && parsed is None ==> (r matches Err(
                R13ContractError::InvalidProjection,
            )),
            bytes@.len() <= MAX_R13_PORTABLE_GRAPH_BYTES ==> (parsed matches Some(v) ==> (
            portable_fault(v, *versions) matches Some(f) ==> r is Err && r->Err_0.fault() == f)),
            r matches Ok(g) ==> {
                &&& parsed == Some(g.document())
                &&& g.canonical_bytes() == crate::json::json_bytes(g.document())
                &&& bytes@ == g.canonical_bytes().push(10u8)
                &&& g.digest_function() == sha256
                &&& portable_fault(g.document(), *versions) is None
                &&& exists|ds: Seq<Seq<char>>|
                    family_digests_of(sha256, g.document(), ds) && digests_declared(g.document(), ds)
            },
            parsed matches Some(v) ==> (bytes@.len() <= MAX_R13_PORTABLE_GRAPH_BYTES && bytes@ == crate::json::json_bytes(v).push(10u8)
                && portable_fault(v, *versions) is None && (forall|ds: Seq<Seq<char>>| #[trigger] family_digests_of(sha256, v, ds) ==> digests_declared(v, ds)) ==> (r matches Ok(g) && g.document() == v)),
            crate::s4_r18::deterministic_digest(sha256) ==> (r matches Ok(g) ==> v6_value_accepted(
                g.document(),
                *versions,
                sha256,
            )),
            r matches Err(R13ContractError::Noncanonical { expected_sha256, observed_sha256 }) ==> (
            parsed matches Some(v) && bytes@ != crate::json::json_bytes(v).push(10u8)
                && crate::s4_r18::digest_of(sha256, crate::json::json_bytes(v).push(10u8), expected_sha256@)
                && crate::s4_r18::digest_of(sha256, bytes@, observed_sha256@)),
    {
        enforce_portable_size(bytes.len())?;
        let value = match parsed {
            Some(v) => v,
            None => return Err(R13ContractError::InvalidProjection),
        };
        validate_portable_value(&value, versions, &sha256)?;
        let canonical = crate::json::to_bytes(&value);
        let mut expected = vstd::slice::slice_to_vec(canonical.as_slice());
        expected.push(10u8);
        if !crate::text::bytes_eq(expected.as_slice(), bytes) {
            let expected_slice = expected.as_slice();
            let expected_sha256 = sha256(expected_slice);
            let observed_sha256 = sha256(bytes);
            proof {
                assert(call_ensures(sha256, (expected_slice,), expected_sha256));
                assert(call_ensures(sha256, (bytes,), observed_sha256));
            }
            return Err(R13ContractError::Noncanonical { expected_sha256, observed_sha256 });
        }
        proof {
            if crate::s4_r18::deterministic_digest(sha256) {
                let ds = choose|ds: Seq<Seq<char>>| family_digests_of(sha256, value, ds) && digests_declared(value, ds);
                lemma_declared_for_every_answer(sha256, value, ds);
            }
        }
        Ok(Self { value, canonical, sha256 })
    }

    /// Projects a snapshot whose stored payload and head the caller has
    /// validated (`stored_snapshot_valid`, else an invalid snapshot) and a
    /// documentation manifest into a V6 portable graph ([`v6_projection`]):
    /// the inputs must be usable ([`v6_export_inputs`], else an invalid
    /// snapshot), and the projection must then validate
    /// ([`validate_portable_value`]) and fit the size limit with its final LF.
    pub fn from_validated_v15(
        semantic: &Json,
        head: &LocalSnapshotHead,
        documentation_manifest: &Json,
        stored_snapshot_valid: bool,
        versions: &PortableVersions,
        sha256: F,
    ) -> (r: Result<Self, R13ContractError>)
        requires
            crate::s4_r18::total_digest(sha256),
        ensures
            !(stored_snapshot_valid && v6_export_inputs(*semantic, *head, *documentation_manifest, *versions)) ==> (r matches Err(
                R13ContractError::InvalidSnapshot,
            )),
            r matches Ok(g) ==> {
                &&& stored_snapshot_valid && v6_export_inputs(*semantic, *head, *documentation_manifest, *versions)
                &&& exists|ds: Seq<Seq<char>>|
                    #[trigger] v6_projection(g.document(), *semantic, *head, *documentation_manifest, *versions, sha256, ds)
                &&& g.canonical_bytes() == crate::json::json_bytes(g.document())
                &&& g.canonical_bytes().len() + 1 <= MAX_R13_PORTABLE_GRAPH_BYTES
                &&& g.digest_function() == sha256
                &&& portable_fault(g.document(), *versions) is None
                &&& exists|ds: Seq<Seq<char>>|
                    family_digests_of(sha256, g.document(), ds) && digests_declared(g.document(), ds)
            },
            crate::s4_r18::deterministic_digest(sha256) ==> (r matches Ok(g) ==> v6_value_accepted(
                g.document(),
                *versions,
                sha256,
            )),
            stored_snapshot_valid && v6_export_inputs(*semantic, *head, *documentation_manifest, *versions) && (forall|v: Json, ds: Seq<Seq<char>>|
                #[trigger] v6_projection(v, *semantic, *head, *documentation_manifest, *versions, sha256, ds) ==> v6_value_accepted(
                    v,
                    *versions,
                    sha256,
                ) && crate::json::json_bytes(v).len() + 1 <= MAX_R13_PORTABLE_GRAPH_BYTES) ==> r is Ok,
    {
        if !stored_snapshot_valid {
            return Err(R13ContractError::InvalidSnapshot);
        }
        let ontology_ok = match semantic.get_str("ontology_version") {
            Some(t) => crate::text::text_eq(t, versions.ontology.as_str()),
            None => false,
        };
        if !ontology_ok {
            return Err(R13ContractError::InvalidSnapshot);
        }
        if !crate::export::documentation_binding(documentation_manifest, head) {
            return Err(R13ContractError::InvalidSnapshot);
        }
        let graph = match semantic.get("knowledge_graph") {
            Some(g) => g,
            None => return Err(R13ContractError::InvalidSnapshot),
        };
        if graph.as_object().is_none() {
            return Err(R13ContractError::InvalidSnapshot);
        }
        let (documents, statements) = match crate::export::portable_documents(documentation_manifest) {
            Some(p) => p,
            None => return Err(R13ContractError::InvalidSnapshot),
        };
        let repository = match crate::export::copied_member(semantic, "repository") {
            Some(x) => x,
            None => return Err(R13ContractError::InvalidSnapshot),
        };
        let entities = match crate::export::copied_member(graph, "entities") {
            Some(x) => x,
            None => return Err(R13ContractError::InvalidSnapshot),
        };
        let relationships = match crate::export::copied_member(graph, "relationships") {
            Some(x) => x,
            None => return Err(R13ContractError::InvalidSnapshot),
        };
        let claims = match crate::export::copied_member(graph, "claims") {
            Some(x) => x,
            None => return Err(R13ContractError::InvalidSnapshot),
        };
        let evidence = match crate::export::copied_member(graph, "evidence") {
            Some(x) => x,
            None => return Err(R13ContractError::InvalidSnapshot),
        };
        let diagnostics = match crate::export::copied_member(graph, "diagnostics") {
            Some(x) => x,
            None => return Err(R13ContractError::InvalidSnapshot),
        };
        let coverage = match crate::export::copied_member(graph, "coverage") {
            Some(x) => x,
            None => return Err(R13ContractError::InvalidSnapshot),
        };
        let statements_value = Json::Array(statements);
        let documents_value = Json::Array(documents);
        let d0 = crate::export::digest_of_value(&claims, &sha256);
        let d1 = crate::export::digest_of_value(&coverage, &sha256);
        let d2 = crate::export::digest_of_value(&diagnostics, &sha256);
        let d3 = crate::export::digest_of_value(&statements_value, &sha256);
        let d4 = crate::export::digest_of_value(&documents_value, &sha256);
        let d5 = crate::export::digest_of_value(&entities, &sha256);
        let d6 = crate::export::digest_of_value(&evidence, &sha256);
        let d7 = crate::export::digest_of_value(&relationships, &sha256);
        let ghost ds = seq![d0@, d1@, d2@, d3@, d4@, d5@, d6@, d7@];
        let family_sha256 = Json::Object(
            vec![
                entry("claims", Json::Str(d0)),
                entry("coverage_gaps", Json::Str(d1)),
                entry("diagnostics", Json::Str(d2)),
                entry("document_statements", Json::Str(d3)),
                entry("documents", Json::Str(d4)),
                entry("entities", Json::Str(d5)),
                entry("evidence", Json::Str(d6)),
                entry("relationships", Json::Str(d7)),
            ],
        );
        let projection = Json::Object(
            vec![
                entry("family_sha256", family_sha256),
                entry("profile", Json::text("codenoesis.lossless-portable-projection/v6")),
            ],
        );
        let semantic_hash = Json::Object(
            vec![
                entry("algorithm", Json::text(head.semantic_hash_algorithm.as_str())),
                entry("value", Json::text(head.semantic_hash.as_str())),
            ],
        );
        let source_snapshot = Json::Object(
            vec![
                entry("schema_version", Json::text(versions.snapshot.as_str())),
                entry("semantic_hash", semantic_hash),
                entry("snapshot_id", Json::text(head.snapshot_id.as_str())),
            ],
        );
        let mut fields = vec![
            entry("claims", claims),
            entry("coverage_gaps", coverage),
            entry("diagnostics", diagnostics),
            entry("document_statements", statements_value),
            entry("documents", documents_value),
            entry("entities", entities),
            entry("evidence", evidence),
            entry("ontology_version", Json::text(versions.ontology.as_str())),
            entry("projection", projection),
            entry("query_contract_version", Json::text(versions.query.as_str())),
            entry("relationships", relationships),
            entry("repository", repository),
        ];
        fields.push(entry("schema_version", Json::text(versions.portable_graph.as_str())));
        fields.push(entry("source_snapshot", source_snapshot));
        let value = Json::Object(fields);
        proof {
            assert(v6_projection(value, *semantic, *head, *documentation_manifest, *versions, sha256, ds));
        }
        validate_portable_value(&value, versions, &sha256)?;
        let canonical = crate::json::to_bytes(&value);
        let size = if canonical.len() < usize::MAX {
            canonical.len() + 1
        } else {
            usize::MAX
        };
        enforce_portable_size(size)?;
        proof {
            if crate::s4_r18::deterministic_digest(sha256) {
                let ds = choose|ds: Seq<Seq<char>>| family_digests_of(sha256, value, ds) && digests_declared(value, ds);
                lemma_declared_for_every_answer(sha256, value, ds);
            }
        }
        Ok(Self { value, canonical, sha256 })
    }

    /// The graph document.
    pub fn value(&self) -> (r: &Json)
        ensures
            *r == self.document(),
    {
        &self.value
    }

    /// The canonical text followed by one LF.
    pub fn canonical_file(&self) -> (r: Vec<u8>)
        ensures
            r@ == self.canonical_bytes().push(10u8),
            r@ == crate::json::json_bytes(self.document()).push(10u8),
    {
        proof {
            use_type_invariant(self);
        }
        let mut bytes = vstd::slice::slice_to_vec(self.canonical.as_slice());
        bytes.push(10u8);
        bytes
    }

    /// The digest of the canonical file.
    pub fn canonical_sha256(&self) -> (r: String)
        requires
            crate::s4_r18::total_digest(self.digest_function()),
        ensures
            crate::s4_r18::digest_of(self.digest_function(), self.canonical_bytes().push(10u8), r@),
    {
        let bytes = self.canonical_file();
        let slice = bytes.as_slice();
        let digest = (self.sha256)(slice);
        proof {
            assert(call_ensures(self.sha256, (slice,), digest));
        }
        digest
    }
}

/// With a digest function that gives one answer for each input, declared
/// digests that are one set of answers are every set of answers.
pub proof fn lemma_declared_for_every_answer<F: Fn(&[u8]) -> String>(f: F, value: Json, ds: Seq<Seq<char>>)
    requires
        crate::s4_r18::deterministic_digest(f),
        family_digests_of(f, value, ds),
        digests_declared(value, ds),
    ensures
        forall|other: Seq<Seq<char>>| #[trigger] family_digests_of(f, value, other) ==> digests_declared(value, other),
{
    assert forall|other: Seq<Seq<char>>| #[trigger] family_digests_of(f, value, other) implies digests_declared(
        value,
        other,
    ) by {
        assert forall|k: int| 0 <= k < 8 implies ds[k] == other[k] by {
            assert(member(value, portable_family_names()[k]) is Some);
            let x = member(value, portable_family_names()[k]).unwrap();
            let (xa, ra) = choose|y: &[u8], r: String|
                y@ == crate::json::json_bytes(x) && call_ensures(f, (y,), r) && r@ == ds[k];
            let (xb, rb) = choose|y: &[u8], r: String|
                y@ == crate::json::json_bytes(x) && call_ensures(f, (y,), r) && r@ == other[k];
            assert(call_ensures(f, (xa,), ra) && call_ensures(f, (xb,), rb));
        }
        assert(ds =~= other);
    }
}

} // verus!
