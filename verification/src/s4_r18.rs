//! R18 trusted local source retrieval: one exact evidence locator resolved
//! against committed file bytes, and the strict validation of the canonical
//! excerpt document that results.
use vstd::prelude::*;
use vstd::string::StringSliceAdditionalSpecFns;
use crate::json::{
    as_items, as_text, at_path, member_items, entry, member_at, member_count, text_at, field_lookup, member, member_text, member_u64, text_array, to_bytes,
    json_bytes, Json,
};
use crate::text::{
    chars_lower_hex_digest, chars_of, lower_hex_digest, repository_path_rule, repository_path_text,
    starts_with, strip_prefix_text, text_eq, utf8_text,
};
use crate::explorer::{text_member, value_member};

verus! {

pub const R18_SOURCE_PROFILE: &'static str = "trusted-local-source-v1";
pub const R18_SOURCE_EXCERPT_VERSION: &'static str = "codenoesis.trusted-source-excerpt/v1";
pub const R18_ERROR_VERSION: &'static str = "codenoesis.error/v29";
pub const MAX_R18_EXCERPT_BYTES: u64 = 262_144;
pub const MAX_R18_STDOUT_BYTES: u64 = 524_288;
pub const MAX_R18_PATH_BYTES: usize = 1_024;

/// The limitations every excerpt document declares, in order.
pub open spec fn r18_limitations() -> Seq<Seq<char>> {
    seq![
        "exact_committed_bytes_only"@,
        "no_context_line_expansion"@,
        "no_retention_or_export"@,
        "no_working_tree_fallback"@,
        "single_evidence_only"@,
        "utf8_only"@,
    ]
}

fn limitations_list() -> (r: [&'static str; 6])
    ensures
        crate::json::names_view(r@) == r18_limitations(),
{
    let r = [
        "exact_committed_bytes_only",
        "no_context_line_expansion",
        "no_retention_or_export",
        "no_working_tree_fallback",
        "single_evidence_only",
        "utf8_only",
    ];
    assert(crate::json::names_view(r@) =~= r18_limitations());
    r
}

/// Why trusted source retrieval failed.
#[derive(Clone, Debug, PartialEq, Eq)]
pub enum TrustedSourceError {
    InvalidSnapshot,
    EvidenceNotFound,
    InvalidEvidence,
    RepositoryMismatch,
    PathRejected,
    ContentRejected,
    LimitExceeded,
    Internal,
}

impl TrustedSourceError {
    /// The human-readable message of the error.
    pub fn message(&self) -> (r: &'static str)
        ensures
            r@ == match self {
                TrustedSourceError::InvalidSnapshot => "trusted source snapshot is invalid"@,
                TrustedSourceError::EvidenceNotFound => "trusted source evidence was not found"@,
                TrustedSourceError::InvalidEvidence => "trusted source evidence is invalid"@,
                TrustedSourceError::RepositoryMismatch => "trusted source repository does not match"@,
                TrustedSourceError::PathRejected => "trusted source path was rejected"@,
                TrustedSourceError::ContentRejected => "trusted source content was rejected"@,
                TrustedSourceError::LimitExceeded => "trusted source limit exceeded"@,
                TrustedSourceError::Internal => "trusted source contract failed"@,
            },
    {
        match self {
            TrustedSourceError::InvalidSnapshot => "trusted source snapshot is invalid",
            TrustedSourceError::EvidenceNotFound => "trusted source evidence was not found",
            TrustedSourceError::InvalidEvidence => "trusted source evidence is invalid",
            TrustedSourceError::RepositoryMismatch => "trusted source repository does not match",
            TrustedSourceError::PathRejected => "trusted source path was rejected",
            TrustedSourceError::ContentRejected => "trusted source content was rejected",
            TrustedSourceError::LimitExceeded => "trusted source limit exceeded",
            TrustedSourceError::Internal => "trusted source contract failed",
        }
    }
}

// ---------------------------------------------------------------------------
// Identifier shapes
// ---------------------------------------------------------------------------

/// The `blake3` evidence-identifier prefix.
pub open spec fn evidence_blake3_prefix() -> Seq<char> {
    "urn:codenoesis:evidence:blake3:"@
}

/// The `sha256` evidence-identifier prefix.
pub open spec fn evidence_sha256_prefix() -> Seq<char> {
    "urn:codenoesis:evidence:sha256:"@
}

/// The snapshot-identifier prefix.
pub open spec fn snapshot_prefix() -> Seq<char> {
    "urn:codenoesis:snapshot:blake3:"@
}

/// `s` is `prefix` followed by 64 lowercase hexadecimal digits.
pub open spec fn prefixed_digest(s: Seq<char>, prefix: Seq<char>) -> bool {
    starts_with(s, prefix) && lower_hex_digest(s.skip(prefix.len() as int), 64)
}

/// An evidence identifier: either evidence prefix followed by a digest.
pub open spec fn evidence_id_rule(s: Seq<char>) -> bool {
    prefixed_digest(s, evidence_blake3_prefix()) || prefixed_digest(s, evidence_sha256_prefix())
}

/// A git SHA-1 object identifier: 40 lowercase hexadecimal digits.
pub open spec fn object_id_rule(s: Seq<char>) -> bool {
    lower_hex_digest(s, 40)
}

fn prefixed_digest_exec(value: &str, prefix: &str) -> (r: bool)
    ensures
        r == prefixed_digest(value@, prefix@),
{
    match strip_prefix_text(value, prefix) {
        Some(rest) => chars_lower_hex_digest(rest.as_slice(), 64),
        None => false,
    }
}

/// Whether `value` is an evidence identifier ([`evidence_id_rule`]).
pub fn valid_evidence_id(value: &str) -> (r: bool)
    ensures
        r == evidence_id_rule(value@),
{
    let a = prefixed_digest_exec(value, "urn:codenoesis:evidence:blake3:");
    let b = prefixed_digest_exec(value, "urn:codenoesis:evidence:sha256:");
    a || b
}

/// Whether `value` is a snapshot identifier.
pub fn valid_snapshot_id(value: &str) -> (r: bool)
    ensures
        r == prefixed_digest(value@, snapshot_prefix()),
{
    prefixed_digest_exec(value, "urn:codenoesis:snapshot:blake3:")
}

/// Whether `value` is a lowercase hexadecimal SHA-256 digest.
pub fn valid_sha256(value: &str) -> (r: bool)
    ensures
        r == lower_hex_digest(value@, 64),
{
    let cs = chars_of(value);
    chars_lower_hex_digest(cs.as_slice(), 64)
}

/// Whether `value` is a git SHA-1 object identifier ([`object_id_rule`]).
pub fn valid_object_id(value: &str) -> (r: bool)
    ensures
        r == object_id_rule(value@),
{
    let cs = chars_of(value);
    chars_lower_hex_digest(cs.as_slice(), 40)
}

/// Whether `value` is a safe repository-relative path ([`repository_path_rule`]).
pub fn valid_repository_path(value: &str) -> (r: bool)
    ensures
        r == repository_path_rule(value@),
{
    repository_path_text(value)
}

// ---------------------------------------------------------------------------
// Object shapes
// ---------------------------------------------------------------------------

/// `value` is an object with exactly as many members as `expected` names,
/// each expected name among them.
pub open spec fn exact_keys(value: Json, expected: Seq<Seq<char>>) -> bool {
    match value {
        Json::Object(fields) => fields@.len() == expected.len() && forall|k: int|
            0 <= k < expected.len() ==> #[trigger] field_lookup(fields@, expected[k]) is Some,
        _ => false,
    }
}

/// Whether `value` has exactly the members `expected` ([`exact_keys`]).
pub fn has_exact_keys(value: &Json, expected: &[&str]) -> (r: bool)
    ensures
        r == exact_keys(*value, crate::json::names_view(expected@)),
{
    let ghost names = crate::json::names_view(expected@);
    match value {
        Json::Object(fields) => {
            if fields.len() != expected.len() {
                return false;
            }
            let mut k: usize = 0;
            while k < expected.len()
                invariant
                    k <= expected.len(),
                    *value == Json::Object(*fields),
                    names == crate::json::names_view(expected@),
                    forall|m: int| 0 <= m < k ==> #[trigger] field_lookup(fields@, names[m]) is Some,
                decreases expected.len() - k,
            {
                if value.get(expected[k]).is_none() {
                    assert(names[k as int] == expected@[k as int]@);
                    return false;
                }
                assert(names[k as int] == expected@[k as int]@);
                k += 1;
            }
            true
        },
        _ => false,
    }
}

/// A source position: exactly `column`, `line`, `unit`, with a positive line
/// and column and the unit `unicode_scalar`.
pub open spec fn position_rule(value: Option<Json>) -> bool {
    match value {
        Some(p) => {
            &&& exact_keys(p, seq!["column"@, "line"@, "unit"@])
            &&& member_u64(p, "line"@) matches Some(line) && line > 0
            &&& member_u64(p, "column"@) matches Some(column) && column > 0
            &&& member_text(p, "unit"@) == Some("unicode_scalar"@)
        },
        None => false,
    }
}

fn opt_view(value: Option<&Json>) -> (r: Ghost<Option<Json>>)
    ensures
        r@ == match value {
            Some(v) => Some(*v),
            None => None::<Json>,
        },
{
    Ghost(
        match value {
            Some(v) => Some(*v),
            None => None,
        },
    )
}

/// Whether `value` is a source position ([`position_rule`]).
pub fn valid_position(value: Option<&Json>) -> (r: bool)
    ensures
        r == position_rule(
            match value {
                Some(v) => Some(*v),
                None => None,
            },
        ),
{
    match value {
        Some(position) => {
            let keys = ["column", "line", "unit"];
            assert(crate::json::names_view(keys@) =~= seq!["column"@, "line"@, "unit"@]);
            if !has_exact_keys(position, &keys) {
                return false;
            }
            let line_ok = match position.get_u64("line") {
                Some(line) => line > 0,
                None => false,
            };
            let column_ok = match position.get_u64("column") {
                Some(column) => column > 0,
                None => false,
            };
            let unit_ok = match position.get_str("unit") {
                Some(unit) => text_eq(unit, "unicode_scalar"),
                None => false,
            };
            line_ok && column_ok && unit_ok
        },
        None => false,
    }
}

// ---------------------------------------------------------------------------
// Source positions
// ---------------------------------------------------------------------------

/// Number of LF bytes in `b`.
pub open spec fn count_lf(b: Seq<u8>) -> nat
    decreases b.len(),
{
    if b.len() == 0 {
        0
    } else {
        count_lf(b.drop_last()) + if b.last() == 10u8 {
            1nat
        } else {
            0nat
        }
    }
}

/// Number of Unicode scalars after the last LF of UTF-8 bytes `b`, counted
/// by their leading (non-continuation) bytes.
pub open spec fn scalars_after_last_lf(b: Seq<u8>) -> nat
    decreases b.len(),
{
    if b.len() == 0 {
        0
    } else if b.last() == 10u8 {
        0
    } else {
        scalars_after_last_lf(b.drop_last()) + if 0x80u8 <= b.last() && b.last() < 0xC0u8 {
            0nat
        } else {
            1nat
        }
    }
}

/// The 1-based line and Unicode-scalar column of the position after `prefix`.
pub open spec fn position_of(prefix: Seq<u8>) -> (nat, nat) {
    (count_lf(prefix) + 1, scalars_after_last_lf(prefix) + 1)
}

/// The position object `{"column", "line", "unit": "unicode_scalar"}` of the
/// byte offset `offset` of `source`: 1-based line, counted by LF bytes, and
/// 1-based column, counted in Unicode scalars since the last LF.
pub fn source_position(source: &[u8], offset: usize) -> (r: Json)
    requires
        offset <= source.len(),
        source.len() < u64::MAX,
    ensures
        r matches Json::Object(fields) && fields@.len() == 3
            && fields@[0].0@ == "column"@ && fields@[0].1 == Json::UInt(position_of(source@.take(offset as int)).1 as u64)
            && fields@[1].0@ == "line"@ && fields@[1].1 == Json::UInt(position_of(source@.take(offset as int)).0 as u64)
            && fields@[2].0@ == "unit"@ && as_text(fields@[2].1) == Some("unicode_scalar"@),
{
    let mut line: u64 = 1;
    let mut column: u64 = 1;
    let mut i: usize = 0;
    while i < offset
        invariant
            offset <= source.len() < u64::MAX,
            i <= offset,
            line == count_lf(source@.take(i as int)) + 1,
            column == scalars_after_last_lf(source@.take(i as int)) + 1,
            line <= i + 1,
            column <= i + 1,
        decreases offset - i,
    {
        assert(source@.take(i + 1).drop_last() =~= source@.take(i as int));
        let b = source[i];
        if b == 10u8 {
            line = line + 1;
            column = 1;
        } else if !(0x80u8 <= b && b < 0xC0u8) {
            column = column + 1;
        }
        i += 1;
    }
    let fields = vec![
        entry("column", Json::UInt(column)),
        entry("line", Json::UInt(line)),
        entry("unit", Json::text("unicode_scalar")),
    ];
    Json::Object(fields)
}

// ---------------------------------------------------------------------------
// Caller-supplied checks
// ---------------------------------------------------------------------------

/// Every answer `f` can give for `s` is `true`.
pub open spec fn accepts<F: Fn(&str) -> bool>(f: F, s: Seq<char>) -> bool {
    forall|x: &str, b: bool| x@ == s && call_ensures(f, (x,), b) ==> b
}

/// Every answer `f` can give for `s` is `false`.
pub open spec fn rejects<F: Fn(&str) -> bool>(f: F, s: Seq<char>) -> bool {
    forall|x: &str, b: bool| x@ == s && call_ensures(f, (x,), b) ==> !b
}

/// `d` is an answer the digest function `f` can give for `bytes`.
pub open spec fn digest_of<F: Fn(&[u8]) -> String>(f: F, bytes: Seq<u8>, d: Seq<char>) -> bool {
    exists|x: &[u8], r: String| x@ == bytes && call_ensures(f, (x,), r) && r@ == d
}

/// Every answer the digest function `f` can give for `bytes` is `d`.
pub open spec fn digest_always<F: Fn(&[u8]) -> String>(f: F, bytes: Seq<u8>, d: Seq<char>) -> bool {
    forall|x: &[u8], r: String| x@ == bytes && call_ensures(f, (x,), r) ==> r@ == d
}

/// `f` may be called on any bytes.
pub open spec fn total_digest<F: Fn(&[u8]) -> String>(f: F) -> bool {
    forall|x: &[u8]| call_requires(f, (x,))
}

/// `f` may be called on any text.
pub open spec fn total_check<F: Fn(&str) -> bool>(f: F) -> bool {
    forall|x: &str| call_requires(f, (x,))
}

/// The snapshot, graph and ontology schema names of the V18 snapshot
/// profile, as the caller's domain model declares them.
#[derive(Clone, Debug, PartialEq, Eq)]
pub struct SnapshotVersions {
    pub snapshot: String,
    pub graph: String,
    pub ontology: String,
}

// ---------------------------------------------------------------------------
// Validation of the excerpt document
// ---------------------------------------------------------------------------

/// The members of the `source` object.
pub open spec fn source_keys() -> Seq<Seq<char>> {
    seq![
        "commit_oid"@,
        "graph_schema_version"@,
        "graph_semantic_hash"@,
        "ontology_version"@,
        "repository_identity"@,
        "snapshot_id"@,
        "snapshot_schema_version"@,
        "snapshot_semantic_hash"@,
        "tree_oid"@,
    ]
}

/// The text under `key` is present and satisfies `p`.
pub open spec fn text_satisfies(j: Json, key: Seq<char>, p: spec_fn(Seq<char>) -> bool) -> bool {
    member_text(j, key) matches Some(t) && p(t)
}

/// Everything the `source` object must satisfy, except the repository
/// identity, which the caller's check decides.
pub open spec fn source_shape(source: Json, versions: SnapshotVersions) -> bool {
    &&& exact_keys(source, source_keys())
    &&& member_text(source, "repository_identity"@) is Some
    &&& text_satisfies(source, "commit_oid"@, |t: Seq<char>| object_id_rule(t))
    &&& text_satisfies(source, "tree_oid"@, |t: Seq<char>| object_id_rule(t))
    &&& member_text(source, "snapshot_schema_version"@) == Some(versions.snapshot@)
    &&& member_text(source, "graph_schema_version"@) == Some(versions.graph@)
    &&& member_text(source, "ontology_version"@) == Some(versions.ontology@)
    &&& text_satisfies(source, "snapshot_id"@, |t: Seq<char>| prefixed_digest(t, snapshot_prefix()))
    &&& text_satisfies(source, "snapshot_semantic_hash"@, |t: Seq<char>| lower_hex_digest(t, 64))
    &&& text_satisfies(source, "graph_semantic_hash"@, |t: Seq<char>| lower_hex_digest(t, 64))
}

fn text_is(j: &Json, key: &str, expected: &str) -> (r: bool)
    ensures
        r == (member_text(*j, key@) == Some(expected@)),
{
    match j.get_str(key) {
        Some(t) => text_eq(t, expected),
        None => false,
    }
}

/// Validates the `source` object of an excerpt document: missing is
/// `InvalidEvidence`; any other defect, or an identity the caller's check
/// refuses, is `InvalidSnapshot`.
pub fn validate_source<F: Fn(&str) -> bool>(
    source: Option<&Json>,
    versions: &SnapshotVersions,
    identity_ok: &F,
) -> (r: Result<(), TrustedSourceError>)
    requires
        total_check(*identity_ok),
    ensures
        source is None ==> r == Err::<(), TrustedSourceError>(TrustedSourceError::InvalidEvidence),
        source matches Some(s) ==> {
            &&& r is Ok ==> source_shape(*s, *versions) && !rejects(*identity_ok, member_text(*s, "repository_identity"@)->0)
            &&& source_shape(*s, *versions) && accepts(*identity_ok, member_text(*s, "repository_identity"@)->0) ==> r is Ok
            &&& r is Err ==> r == Err::<(), TrustedSourceError>(TrustedSourceError::InvalidSnapshot)
        },
{
    let source = match source {
        Some(s) => s,
        None => return Err(TrustedSourceError::InvalidEvidence),
    };
    let keys = [
        "commit_oid",
        "graph_schema_version",
        "graph_semantic_hash",
        "ontology_version",
        "repository_identity",
        "snapshot_id",
        "snapshot_schema_version",
        "snapshot_semantic_hash",
        "tree_oid",
    ];
    assert(crate::json::names_view(keys@) =~= source_keys());
    if !has_exact_keys(source, &keys) {
        return Err(TrustedSourceError::InvalidSnapshot);
    }
    let identity = match source.get_str("repository_identity") {
        Some(t) => t,
        None => return Err(TrustedSourceError::InvalidSnapshot),
    };
    if !identity_ok(identity) {
        return Err(TrustedSourceError::InvalidSnapshot);
    }
    let commit_ok = match source.get_str("commit_oid") {
        Some(t) => valid_object_id(t),
        None => false,
    };
    let tree_ok = match source.get_str("tree_oid") {
        Some(t) => valid_object_id(t),
        None => false,
    };
    let snapshot_ok = match source.get_str("snapshot_id") {
        Some(t) => valid_snapshot_id(t),
        None => false,
    };
    let snapshot_hash_ok = match source.get_str("snapshot_semantic_hash") {
        Some(t) => valid_sha256(t),
        None => false,
    };
    let graph_hash_ok = match source.get_str("graph_semantic_hash") {
        Some(t) => valid_sha256(t),
        None => false,
    };
    if !commit_ok || !tree_ok || !text_is(source, "snapshot_schema_version", versions.snapshot.as_str())
        || !text_is(source, "graph_schema_version", versions.graph.as_str()) || !text_is(
        source,
        "ontology_version",
        versions.ontology.as_str(),
    ) || !snapshot_ok || !snapshot_hash_ok || !graph_hash_ok {
        return Err(TrustedSourceError::InvalidSnapshot);
    }
    Ok(())
}

/// The members of the `evidence` object.
pub open spec fn evidence_keys() -> Seq<Seq<char>> {
    seq!["blob_oid"@, "id"@, "path"@, "span"@]
}

/// The members of the `span` object.
pub open spec fn span_keys() -> Seq<Seq<char>> {
    seq!["end"@, "end_position"@, "start"@, "start_position"@, "unit"@]
}

/// Everything the `evidence` object must satisfy: an evidence identifier, a
/// repository path, a blob object identifier, and a byte span with
/// `start < end` and two source positions.
pub open spec fn evidence_rule(e: Json) -> bool {
    &&& exact_keys(e, evidence_keys())
    &&& text_satisfies(e, "id"@, |t: Seq<char>| evidence_id_rule(t))
    &&& text_satisfies(e, "path"@, |t: Seq<char>| repository_path_rule(t))
    &&& text_satisfies(e, "blob_oid"@, |t: Seq<char>| object_id_rule(t))
    &&& member(e, "span"@) matches Some(span) && {
        &&& exact_keys(span, span_keys())
        &&& member_text(span, "unit"@) == Some("byte"@)
        &&& member_u64(span, "start"@) matches Some(start)
        &&& member_u64(span, "end"@) matches Some(end)
        &&& start < end
        &&& position_rule(member(span, "start_position"@))
        &&& position_rule(member(span, "end_position"@))
    }
}

/// Validates the `evidence` object and returns its byte span; every defect
/// is `InvalidEvidence`.
pub fn validate_evidence(evidence: Option<&Json>) -> (r: Result<(u64, u64), TrustedSourceError>)
    ensures
        r is Ok <==> (evidence matches Some(e) && evidence_rule(*e)),
        r matches Ok((start, end)) ==> (evidence matches Some(e) && member(*e, "span"@) matches Some(span)
            && member_u64(span, "start"@) == Some(start) && member_u64(span, "end"@) == Some(end)),
        r is Err ==> r == Err::<(u64, u64), TrustedSourceError>(TrustedSourceError::InvalidEvidence),
{
    let evidence = match evidence {
        Some(e) => e,
        None => return Err(TrustedSourceError::InvalidEvidence),
    };
    let keys = ["blob_oid", "id", "path", "span"];
    assert(crate::json::names_view(keys@) =~= evidence_keys());
    let id_ok = match evidence.get_str("id") {
        Some(t) => valid_evidence_id(t),
        None => false,
    };
    let path_ok = match evidence.get_str("path") {
        Some(t) => valid_repository_path(t),
        None => false,
    };
    let blob_ok = match evidence.get_str("blob_oid") {
        Some(t) => valid_object_id(t),
        None => false,
    };
    if !has_exact_keys(evidence, &keys) || !id_ok || !path_ok || !blob_ok {
        return Err(TrustedSourceError::InvalidEvidence);
    }
    let span = match evidence.get("span") {
        Some(s) => s,
        None => return Err(TrustedSourceError::InvalidEvidence),
    };
    let span_keys_list = ["end", "end_position", "start", "start_position", "unit"];
    assert(crate::json::names_view(span_keys_list@) =~= span_keys());
    if !has_exact_keys(span, &span_keys_list) || !text_is(span, "unit", "byte") {
        return Err(TrustedSourceError::InvalidEvidence);
    }
    let start = match span.get_u64("start") {
        Some(v) => v,
        None => return Err(TrustedSourceError::InvalidEvidence),
    };
    let end = match span.get_u64("end") {
        Some(v) => v,
        None => return Err(TrustedSourceError::InvalidEvidence),
    };
    if start >= end || !valid_position(span.get("start_position")) || !valid_position(
        span.get("end_position"),
    ) {
        return Err(TrustedSourceError::InvalidEvidence);
    }
    Ok((start, end))
}

/// The members of the `excerpt` object.
pub open spec fn excerpt_keys() -> Seq<Seq<char>> {
    seq!["byte_length"@, "encoding"@, "sha256"@, "text"@]
}

/// The shape of an excerpt for the span `start..end`: exactly its members,
/// UTF-8, a non-empty text whose byte length is recorded and is the span's
/// length (within [`MAX_R18_EXCERPT_BYTES`]), and a lower-case SHA-256
/// digest.
pub open spec fn excerpt_rule(x: Json, start: u64, end: u64) -> bool {
    &&& exact_keys(x, excerpt_keys())
    &&& member_text(x, "encoding"@) == Some("utf-8"@)
    &&& member_text(x, "text"@) matches Some(text) && text.len() > 0 && {
        &&& member_u64(x, "byte_length"@) == Some(vstd::utf8::encode_utf8(text).len() as u64)
        &&& vstd::utf8::encode_utf8(text).len() == end - start
        &&& end - start <= MAX_R18_EXCERPT_BYTES
    }
    &&& member_text(x, "sha256"@) matches Some(d) && lower_hex_digest(d, 64)
}

/// The UTF-8 bytes of an excerpt's text.
pub open spec fn excerpt_bytes(x: Json) -> Seq<u8> {
    vstd::utf8::encode_utf8(member_text(x, "text"@).unwrap())
}

/// The digest an excerpt records.
pub open spec fn excerpt_digest(x: Json) -> Seq<char> {
    member_text(x, "sha256"@).unwrap()
}

/// Validates the `excerpt` object against the span `[start, end)`:
/// a wrong shape or encoding, or a missing length or digest, is
/// `InvalidEvidence`; an empty or missing text, or a digest that is not the
/// caller's digest of the text, is `ContentRejected`; a length that is not
/// the text's UTF-8 length, not `end - start`, or above the maximum is
/// `LimitExceeded`.
pub fn validate_excerpt<F: Fn(&[u8]) -> String>(
    excerpt: Option<&Json>,
    start: u64,
    end: u64,
    sha256: &F,
) -> (r: Result<(), TrustedSourceError>)
    requires
        start <= end,
        total_digest(*sha256),
    ensures
        r is Ok ==> (excerpt matches Some(x) && excerpt_rule(*x, start, end) && digest_of(
            *sha256,
            excerpt_bytes(*x),
            excerpt_digest(*x),
        )),
        excerpt matches Some(x) && excerpt_rule(*x, start, end) && digest_always(
            *sha256,
            excerpt_bytes(*x),
            excerpt_digest(*x),
        ) ==> r is Ok,
        excerpt is None ==> r == Err::<(), TrustedSourceError>(TrustedSourceError::InvalidEvidence),
{
    let excerpt = match excerpt {
        Some(x) => x,
        None => return Err(TrustedSourceError::InvalidEvidence),
    };
    let keys = ["byte_length", "encoding", "sha256", "text"];
    assert(crate::json::names_view(keys@) =~= excerpt_keys());
    if !has_exact_keys(excerpt, &keys) || !text_is(excerpt, "encoding", "utf-8") {
        return Err(TrustedSourceError::InvalidEvidence);
    }
    let text = match excerpt.get_str("text") {
        Some(t) => t,
        None => return Err(TrustedSourceError::ContentRejected),
    };
    if text.is_empty() {
        return Err(TrustedSourceError::ContentRejected);
    }
    let byte_length = match excerpt.get_u64("byte_length") {
        Some(v) => v,
        None => return Err(TrustedSourceError::InvalidEvidence),
    };
    let bytes = text.as_bytes();
    if byte_length != bytes.len() as u64 || byte_length != end - start || byte_length
        > MAX_R18_EXCERPT_BYTES {
        return Err(TrustedSourceError::LimitExceeded);
    }
    let observed = match excerpt.get_str("sha256") {
        Some(d) => d,
        None => return Err(TrustedSourceError::InvalidEvidence),
    };
    if !valid_sha256(observed) {
        return Err(TrustedSourceError::ContentRejected);
    }
    let digest = sha256(bytes);
    if !text_eq(observed, digest.as_str()) {
        return Err(TrustedSourceError::ContentRejected);
    }
    Ok(())
}

/// The `limitations` member is exactly the declared limitation list.
pub open spec fn limitations_rule(value: Option<Json>) -> bool {
    value matches Some(v) && as_items(v) matches Some(items) && items.len() == r18_limitations().len()
        && forall|k: int| 0 <= k < items.len() ==> as_text(#[trigger] items[k]) == Some(r18_limitations()[k])
}

/// Validates the `limitations` array; a defect is `InvalidEvidence`.
pub fn validate_limitations(limitations: Option<&Json>) -> (r: Result<(), TrustedSourceError>)
    ensures
        r is Ok <==> limitations_rule(
            match limitations {
                Some(v) => Some(*v),
                None => None,
            },
        ),
        r is Err ==> r == Err::<(), TrustedSourceError>(TrustedSourceError::InvalidEvidence),
{
    let items = match limitations {
        Some(v) => match v.as_array() {
            Some(items) => items,
            None => return Err(TrustedSourceError::InvalidEvidence),
        },
        None => return Err(TrustedSourceError::InvalidEvidence),
    };
    let expected = limitations_list();
    if items.len() != 6 {
        return Err(TrustedSourceError::InvalidEvidence);
    }
    let mut k: usize = 0;
    while k < 6
        invariant
            k <= 6,
            items.len() == 6,
            limitations matches Some(v) && as_items(*v) == Some(items@),
            crate::json::names_view(expected@) == r18_limitations(),
            forall|m: int| 0 <= m < k ==> as_text(#[trigger] items@[m]) == Some(r18_limitations()[m]),
        decreases 6 - k,
    {
        let ok = match items[k].as_str() {
            Some(t) => text_eq(t, expected[k]),
            None => false,
        };
        assert(r18_limitations()[k as int] == expected@[k as int]@);
        if !ok {
            assert(as_text(items@[k as int]) != Some(r18_limitations()[k as int]));
            return Err(TrustedSourceError::InvalidEvidence);
        }
        k += 1;
    }
    Ok(())
}

/// What the caller supplies to retrieval: the V18 schema names, the SHA-256
/// digest function and the repository-identity check of its domain model.
pub struct SourceEnvironment<S, I> {
    pub versions: SnapshotVersions,
    pub sha256: S,
    pub identity_ok: I,
}

/// The members of an excerpt document.
pub open spec fn document_keys() -> Seq<Seq<char>> {
    seq![
        "authority"@,
        "disclosure"@,
        "evidence"@,
        "excerpt"@,
        "limitations"@,
        "profile"@,
        "schema_version"@,
        "source"@,
    ]
}

/// The fixed top-level members of an excerpt document.
pub open spec fn document_header_rule(value: Json) -> bool {
    &&& exact_keys(value, document_keys())
    &&& member_text(value, "schema_version"@) == Some(R18_SOURCE_EXCERPT_VERSION@)
    &&& member_text(value, "profile"@) == Some(R18_SOURCE_PROFILE@)
    &&& member_text(value, "authority"@) == Some("explicit_local_git_object_only"@)
    &&& member_text(value, "disclosure"@) == Some("explicit_transient_stdout"@)
}

/// The span an evidence object records.
pub open spec fn span_bounds(e: Json) -> (u64, u64) {
    let span = member(e, "span"@).unwrap();
    (member_u64(span, "start"@).unwrap(), member_u64(span, "end"@).unwrap())
}

/// A document that validates whatever the environment's functions answer
/// where they have a choice: its header, a source of the expected shape
/// whose repository identity the identity check accepts, valid evidence, an
/// excerpt of the evidence's span whose recorded digest is the digest
/// function's only answer, and the declared limitations.
pub open spec fn output_rule<S: Fn(&[u8]) -> String, I: Fn(&str) -> bool>(
    value: Json,
    env: SourceEnvironment<S, I>,
) -> bool {
    &&& document_header_rule(value)
    &&& member(value, "source"@) matches Some(src) && source_shape(src, env.versions) && accepts(
        env.identity_ok,
        member_text(src, "repository_identity"@)->0,
    )
    &&& member(value, "evidence"@) matches Some(e) && evidence_rule(e)
    &&& member(value, "excerpt"@) matches Some(x) && excerpt_rule(
        x,
        span_bounds(member(value, "evidence"@).unwrap()).0,
        span_bounds(member(value, "evidence"@).unwrap()).1,
    ) && digest_always(env.sha256, excerpt_bytes(x), excerpt_digest(x))
    &&& limitations_rule(member(value, "limitations"@))
}

/// What a document that validated holds: its header, a source of the
/// expected shape whose repository identity the identity check did not
/// reject, valid evidence, an excerpt of the evidence's span whose recorded
/// digest is an answer of the digest function, and the declared
/// limitations.
pub open spec fn output_validated<S: Fn(&[u8]) -> String, I: Fn(&str) -> bool>(
    value: Json,
    env: SourceEnvironment<S, I>,
) -> bool {
    &&& document_header_rule(value)
    &&& member(value, "source"@) matches Some(src) && source_shape(src, env.versions) && !rejects(
        env.identity_ok,
        member_text(src, "repository_identity"@)->0,
    )
    &&& member(value, "evidence"@) matches Some(e) && evidence_rule(e)
    &&& member(value, "excerpt"@) matches Some(x) && excerpt_rule(
        x,
        span_bounds(member(value, "evidence"@).unwrap()).0,
        span_bounds(member(value, "evidence"@).unwrap()).1,
    ) && digest_of(env.sha256, excerpt_bytes(x), excerpt_digest(x))
    &&& limitations_rule(member(value, "limitations"@))
}

/// The digest function gives one answer for each input.
pub open spec fn deterministic_digest<F: Fn(&[u8]) -> String>(f: F) -> bool {
    forall|x: &[u8], y: &[u8], a: String, b: String|
        x@ == y@ && #[trigger] call_ensures(f, (x,), a) && #[trigger] call_ensures(f, (y,), b) ==> a@ == b@
}

/// The check gives one answer for each text.
pub open spec fn deterministic_check<F: Fn(&str) -> bool>(f: F) -> bool {
    forall|x: &str, y: &str, a: bool, b: bool|
        x@ == y@ && #[trigger] call_ensures(f, (x,), a) && #[trigger] call_ensures(f, (y,), b) ==> a == b
}

/// With functions that give one answer for each input, a document that
/// validated once validates whatever they answer ([`output_rule`]), so its
/// canonical stdout is accepted again.
pub proof fn lemma_validated_output_accepted<S: Fn(&[u8]) -> String, I: Fn(&str) -> bool>(
    value: Json,
    env: SourceEnvironment<S, I>,
)
    requires
        output_validated(value, env),
        deterministic_digest(env.sha256),
        deterministic_check(env.identity_ok),
    ensures
        output_rule(value, env),
{
    let src = member(value, "source"@).unwrap();
    let id = member_text(src, "repository_identity"@)->0;
    let (x0, b0) = choose|x: &str, b: bool| x@ == id && call_ensures(env.identity_ok, (x,), b) && b;
    assert forall|x: &str, b: bool| x@ == id && call_ensures(env.identity_ok, (x,), b) implies b by {
        assert(call_ensures(env.identity_ok, (x0,), b0));
    }
    let x = member(value, "excerpt"@).unwrap();
    let (y0, d0) = choose|y: &[u8], d: String|
        y@ == excerpt_bytes(x) && call_ensures(env.sha256, (y,), d) && d@ == excerpt_digest(x);
    assert forall|y: &[u8], d: String| y@ == excerpt_bytes(x) && call_ensures(env.sha256, (y,), d) implies d@
        == excerpt_digest(x) by {
        assert(call_ensures(env.sha256, (y0,), d0));
    }
}

/// Validates a whole excerpt document: its header (`InvalidEvidence`), then
/// its source, evidence, excerpt and limitations in that order.
pub fn validate_output_value<S: Fn(&[u8]) -> String, I: Fn(&str) -> bool>(
    value: &Json,
    env: &SourceEnvironment<S, I>,
) -> (r: Result<(), TrustedSourceError>)
    requires
        total_digest(env.sha256),
        total_check(env.identity_ok),
    ensures
        !document_header_rule(*value) ==> r == Err::<(), TrustedSourceError>(TrustedSourceError::InvalidEvidence),
        r is Ok ==> output_validated(*value, *env),
        output_rule(*value, *env) ==> r is Ok,
{
    let keys = [
        "authority",
        "disclosure",
        "evidence",
        "excerpt",
        "limitations",
        "profile",
        "schema_version",
        "source",
    ];
    assert(crate::json::names_view(keys@) =~= document_keys());
    if !has_exact_keys(value, &keys) || !text_is(value, "schema_version", R18_SOURCE_EXCERPT_VERSION)
        || !text_is(value, "profile", R18_SOURCE_PROFILE) || !text_is(
        value,
        "authority",
        "explicit_local_git_object_only",
    ) || !text_is(value, "disclosure", "explicit_transient_stdout") {
        return Err(TrustedSourceError::InvalidEvidence);
    }
    validate_source(value.get("source"), &env.versions, &env.identity_ok)?;
    let (start, end) = validate_evidence(value.get("evidence"))?;
    validate_excerpt(value.get("excerpt"), start, end, &env.sha256)?;
    validate_limitations(value.get("limitations"))
}

/// One committed file of an acquired repository.
#[derive(Clone, Debug, PartialEq, Eq)]
pub struct SourceFile {
    pub path: String,
    pub blob_oid: String,
    pub bytes: Vec<u8>,
}

/// The committed files of one repository revision.
#[derive(Clone, Debug, PartialEq, Eq)]
pub struct RepositoryInventory {
    pub repository_identity: String,
    pub commit_oid: String,
    pub tree_oid: String,
    pub files: Vec<SourceFile>,
}

/// Number of files at path `p`.
pub open spec fn files_at(files: Seq<SourceFile>, p: Seq<char>) -> nat
    decreases files.len(),
{
    if files.len() == 0 {
        0
    } else {
        files_at(files.drop_last(), p) + if files.last().path@ == p {
            1nat
        } else {
            0nat
        }
    }
}

/// The position of the first file at path `p`.
pub open spec fn first_file_at(files: Seq<SourceFile>, p: Seq<char>) -> Option<int>
    decreases files.len(),
{
    if files.len() == 0 {
        None
    } else {
        match first_file_at(files.drop_last(), p) {
            Some(k) => Some(k),
            None => if files.last().path@ == p {
                Some(files.len() - 1)
            } else {
                None
            },
        }
    }
}

/// The bytes of the file that a selection resolves to in an inventory,
/// check by check in order: the repository, commit and tree must be the
/// selection's (`RepositoryMismatch`); exactly one file must lie at the path
/// (none: `PathRejected`, several: `InvalidEvidence`) with the selected blob
/// (`RepositoryMismatch`) and UTF-8 bytes (`ContentRejected`); the span must
/// satisfy `start < end <= length` (`InvalidEvidence`) and cut the text on
/// scalar boundaries into UTF-8 (`ContentRejected`); the excerpt must be at
/// most [`MAX_R18_EXCERPT_BYTES`] long (`LimitExceeded`); and the file's
/// length must be below `u64::MAX` (`Internal`).
pub open spec fn resolved_file(sel: SelectionView, inv: RepositoryInventory) -> Result<Seq<u8>, TrustedSourceError> {
    if !(inv.repository_identity@ == sel.repository_identity && inv.commit_oid@ == sel.commit_oid && inv.tree_oid@
        == sel.tree_oid) {
        Err(TrustedSourceError::RepositoryMismatch)
    } else if files_at(inv.files@, sel.path) == 0 {
        Err(TrustedSourceError::PathRejected)
    } else if files_at(inv.files@, sel.path) > 1 {
        Err(TrustedSourceError::InvalidEvidence)
    } else {
        let f = inv.files@[first_file_at(inv.files@, sel.path).unwrap()];
        let b = f.bytes@;
        if f.blob_oid@ != sel.blob_oid {
            Err(TrustedSourceError::RepositoryMismatch)
        } else if !vstd::utf8::valid_utf8(b) {
            Err(TrustedSourceError::ContentRejected)
        } else if !(sel.start_byte < sel.end_byte && sel.end_byte <= b.len()) {
            Err(TrustedSourceError::InvalidEvidence)
        } else if !(vstd::utf8::is_char_boundary(b, sel.start_byte as int) && vstd::utf8::is_char_boundary(
            b,
            sel.end_byte as int,
        ) && vstd::utf8::valid_utf8(b.subrange(sel.start_byte as int, sel.end_byte as int))) {
            Err(TrustedSourceError::ContentRejected)
        } else if sel.end_byte - sel.start_byte > MAX_R18_EXCERPT_BYTES {
            Err(TrustedSourceError::LimitExceeded)
        } else if b.len() >= u64::MAX {
            Err(TrustedSourceError::Internal)
        } else {
            Ok(b)
        }
    }
}

/// A source position object for the line and column `at`.
pub open spec fn position_value(p: Json, at: (nat, nat)) -> bool {
    &&& member_count(p) == 3
    &&& value_member(p, 0, "column"@, Json::UInt(at.1 as u64))
    &&& value_member(p, 1, "line"@, Json::UInt(at.0 as u64))
    &&& text_member(p, 2, "unit"@, "unicode_scalar"@)
}

/// The excerpt document of a selection over the file bytes `b`, member by
/// member: authority, disclosure, the evidence (blob, id, path and the span
/// with its byte offsets and line/column positions), the excerpt (byte
/// length, encoding, a SHA-256 digest and the text), the limitations, the
/// profile, the schema version and the source the selection records.
pub open spec fn excerpt_document(v: Json, sel: SelectionView, b: Seq<u8>, versions: SnapshotVersions) -> bool {
    let start = sel.start_byte as int;
    let end = sel.end_byte as int;
    &&& member_count(v) == 8
    &&& text_member(v, 0, "authority"@, "explicit_local_git_object_only"@)
    &&& text_member(v, 1, "disclosure"@, "explicit_transient_stdout"@)
    &&& member_at(v, 2, "evidence"@) matches Some(e) && {
        &&& member_count(e) == 4
        &&& text_member(e, 0, "blob_oid"@, sel.blob_oid)
        &&& text_member(e, 1, "id"@, sel.evidence_id)
        &&& text_member(e, 2, "path"@, sel.path)
        &&& member_at(e, 3, "span"@) matches Some(span) && {
            &&& member_count(span) == 5
            &&& value_member(span, 0, "end"@, Json::UInt(sel.end_byte))
            &&& member_at(span, 1, "end_position"@) matches Some(ep) && position_value(ep, position_of(b.take(end)))
            &&& value_member(span, 2, "start"@, Json::UInt(sel.start_byte))
            &&& member_at(span, 3, "start_position"@) matches Some(sp) && position_value(
                sp,
                position_of(b.take(start)),
            )
            &&& text_member(span, 4, "unit"@, "byte"@)
        }
    }
    &&& member_at(v, 3, "excerpt"@) matches Some(x) && {
        &&& member_count(x) == 4
        &&& value_member(x, 0, "byte_length"@, Json::UInt((sel.end_byte - sel.start_byte) as u64))
        &&& text_member(x, 1, "encoding"@, "utf-8"@)
        &&& member_at(x, 2, "sha256"@) matches Some(d) && as_text(d) matches Some(t) && lower_hex_digest(t, 64)
        &&& text_member(x, 3, "text"@, vstd::utf8::decode_utf8(b.subrange(start, end)))
    }
    &&& member_at(v, 4, "limitations"@) matches Some(l) && limitations_rule(Some(l))
    &&& text_member(v, 5, "profile"@, R18_SOURCE_PROFILE@)
    &&& text_member(v, 6, "schema_version"@, R18_SOURCE_EXCERPT_VERSION@)
    &&& member_at(v, 7, "source"@) matches Some(src) && {
        &&& member_count(src) == 9
        &&& text_member(src, 0, "commit_oid"@, sel.commit_oid)
        &&& text_member(src, 1, "graph_schema_version"@, versions.graph@)
        &&& text_member(src, 2, "graph_semantic_hash"@, sel.graph_semantic_hash)
        &&& text_member(src, 3, "ontology_version"@, versions.ontology@)
        &&& text_member(src, 4, "repository_identity"@, sel.repository_identity)
        &&& text_member(src, 5, "snapshot_id"@, sel.snapshot_id)
        &&& text_member(src, 6, "snapshot_schema_version"@, versions.snapshot@)
        &&& text_member(src, 7, "snapshot_semantic_hash"@, sel.snapshot_semantic_hash)
        &&& text_member(src, 8, "tree_oid"@, sel.tree_oid)
    }
}

/// The digest an excerpt document records.
pub open spec fn document_digest(v: Json) -> Seq<char> {
    as_text(member_at(member_at(v, 3, "excerpt"@).unwrap(), 2, "sha256"@).unwrap()).unwrap()
}

/// One exact evidence locator selected from a validated V18 snapshot.
#[derive(Clone, Debug, PartialEq, Eq)]
pub struct TrustedSourceSelectionV1 {
    repository_identity: String,
    commit_oid: String,
    tree_oid: String,
    snapshot_id: String,
    snapshot_semantic_hash: String,
    graph_semantic_hash: String,
    evidence_id: String,
    path: String,
    blob_oid: String,
    start_byte: u64,
    end_byte: u64,
}

/// The contents of a selection.
pub struct SelectionView {
    pub repository_identity: Seq<char>,
    pub commit_oid: Seq<char>,
    pub tree_oid: Seq<char>,
    pub snapshot_id: Seq<char>,
    pub snapshot_semantic_hash: Seq<char>,
    pub graph_semantic_hash: Seq<char>,
    pub evidence_id: Seq<char>,
    pub path: Seq<char>,
    pub blob_oid: Seq<char>,
    pub start_byte: u64,
    pub end_byte: u64,
}

impl View for TrustedSourceSelectionV1 {
    type V = SelectionView;

    closed spec fn view(&self) -> SelectionView {
        SelectionView {
            repository_identity: self.repository_identity@,
            commit_oid: self.commit_oid@,
            tree_oid: self.tree_oid@,
            snapshot_id: self.snapshot_id@,
            snapshot_semantic_hash: self.snapshot_semantic_hash@,
            graph_semantic_hash: self.graph_semantic_hash@,
            evidence_id: self.evidence_id@,
            path: self.path@,
            blob_oid: self.blob_oid@,
            start_byte: self.start_byte,
            end_byte: self.end_byte,
        }
    }
}

/// The canonical excerpt document of one evidence locator.
#[derive(Debug)]
pub struct TrustedSourceExcerptV1 {
    value: Json,
    canonical: Vec<u8>,
}

/// The excerpt of `bytes` between two offsets.
fn byte_range(bytes: &[u8], start: usize, end: usize) -> (r: Vec<u8>)
    requires
        start <= end <= bytes.len(),
    ensures
        r@ == bytes@.subrange(start as int, end as int),
{
    let mut out: Vec<u8> = Vec::new();
    let mut i = start;
    while i < end
        invariant
            start <= i <= end <= bytes.len(),
            out@ == bytes@.subrange(start as int, i as int),
        decreases end - i,
    {
        out.push(bytes[i]);
        i += 1;
        assert(out@ =~= bytes@.subrange(start as int, i as int));
    }
    out
}

impl TrustedSourceExcerptV1 {
    /// The canonical bytes are the canonical text of the document.
    #[verifier::type_invariant]
    closed spec fn canonical_matches(&self) -> bool {
        self.canonical@ == json_bytes(self.value)
    }

    /// The excerpt document.
    pub closed spec fn document(&self) -> Json {
        self.value
    }

    /// The canonical bytes of the document, without the final LF.
    pub closed spec fn canonical_bytes(&self) -> Seq<u8> {
        self.canonical@
    }

    /// Resolves `selection` against an independently acquired inventory.
    ///
    /// The repository, commit and tree must be the selection's
    /// (`RepositoryMismatch`); exactly one file must lie at the selected path
    /// (none: `PathRejected`, several: `InvalidEvidence`) with the selected
    /// blob (`RepositoryMismatch`); its bytes must be UTF-8
    /// (`ContentRejected`); the span must satisfy `start < end <= length`
    /// (`InvalidEvidence`) and fall on scalar boundaries (`ContentRejected`);
    /// the excerpt must be at most [`MAX_R18_EXCERPT_BYTES`] long
    /// (`LimitExceeded`); its digest must be well formed (`Internal`); and the
    /// document must validate and fit the stdout limit.
    pub fn from_inventory<S: Fn(&[u8]) -> String, I: Fn(&str) -> bool>(
        selection: &TrustedSourceSelectionV1,
        inventory: &RepositoryInventory,
        env: &SourceEnvironment<S, I>,
    ) -> (r: Result<Self, TrustedSourceError>)
        requires
            total_digest(env.sha256),
            total_check(env.identity_ok),
        ensures
            (inventory.repository_identity@ != selection@.repository_identity
                || inventory.commit_oid@ != selection@.commit_oid
                || inventory.tree_oid@ != selection@.tree_oid)
                ==> (r matches Err(TrustedSourceError::RepositoryMismatch)),
            (inventory.repository_identity@ == selection@.repository_identity
                && inventory.commit_oid@ == selection@.commit_oid
                && inventory.tree_oid@ == selection@.tree_oid) ==> {
                &&& files_at(inventory.files@, selection@.path) == 0 ==> (r matches Err(TrustedSourceError::PathRejected))
                &&& files_at(inventory.files@, selection@.path) > 1 ==> (r matches Err(TrustedSourceError::InvalidEvidence))
            },
            match resolved_file(selection@, *inventory) {
                Err(e) => r == Err::<Self, TrustedSourceError>(e),
                Ok(b) => {
                    let piece = b.subrange(selection@.start_byte as int, selection@.end_byte as int);
                    &&& r matches Ok(x) ==> excerpt_document(x.document(), selection@, b, env.versions)
                        && digest_of(env.sha256, piece, document_digest(x.document()))
                    &&& (exists|d: Seq<char>| lower_hex_digest(d, 64) && #[trigger] digest_always(env.sha256, piece, d))
                        && (forall|v: Json|
                        #[trigger] excerpt_document(v, selection@, b, env.versions) ==> output_rule(v, *env)
                            && json_bytes(v).len() < MAX_R18_STDOUT_BYTES) ==> r is Ok
                },
            },
            r matches Ok(x) ==> output_validated(x.document(), *env),
            deterministic_digest(env.sha256) && deterministic_check(env.identity_ok) ==> (r matches Ok(x) ==> output_rule(
                x.document(),
                *env,
            )),
            r matches Ok(x) ==> {
                &&& files_at(inventory.files@, selection@.path) == 1
                &&& exists|k: int| 0 <= k < inventory.files@.len()
                    && #[trigger] inventory.files@[k].path@ == selection@.path
                    && inventory.files@[k].blob_oid@ == selection@.blob_oid && {
                    let b = inventory.files@[k].bytes@;
                    &&& vstd::utf8::valid_utf8(b)
                    &&& selection@.start_byte < selection@.end_byte <= b.len()
                    &&& selection@.end_byte - selection@.start_byte <= MAX_R18_EXCERPT_BYTES
                    &&& member_count(x.document()) == 8
                    &&& text_at(x.document(), seq![(3int, "excerpt"@), (3int, "text"@)]) == Some(
                        vstd::utf8::decode_utf8(
                            b.subrange(selection@.start_byte as int, selection@.end_byte as int),
                        ))
                }
                &&& x.canonical_bytes() == json_bytes(x.document())
                &&& x.canonical_bytes().len() + 1 <= MAX_R18_STDOUT_BYTES
            },
    {
        if !text_eq(inventory.repository_identity.as_str(), selection.repository_identity.as_str())
            || !text_eq(inventory.commit_oid.as_str(), selection.commit_oid.as_str()) || !text_eq(
            inventory.tree_oid.as_str(),
            selection.tree_oid.as_str(),
        ) {
            return Err(TrustedSourceError::RepositoryMismatch);
        }
        let mut found: usize = 0;
        let mut count: usize = 0;
        let mut i: usize = 0;
        while i < inventory.files.len()
            invariant
                i <= inventory.files.len(),
                count <= 2,
                count == if files_at(inventory.files@.take(i as int), selection@.path) >= 2 {
                    2
                } else {
                    files_at(inventory.files@.take(i as int), selection@.path)
                },
                count >= 1 ==> found < i && inventory.files@[found as int].path@ == selection@.path,
                count >= 1 ==> first_file_at(inventory.files@.take(i as int), selection@.path) == Some(found as int),
                count == 0 ==> first_file_at(inventory.files@.take(i as int), selection@.path) is None,
            decreases inventory.files.len() - i,
        {
            assert(inventory.files@.take(i + 1).drop_last() =~= inventory.files@.take(i as int));
            if text_eq(inventory.files[i].path.as_str(), selection.path.as_str()) {
                if count == 0 {
                    found = i;
                }
                if count < 2 {
                    count += 1;
                }
            }
            i += 1;
        }
        assert(inventory.files@.take(inventory.files.len() as int) =~= inventory.files@);
        if count == 0 {
            return Err(TrustedSourceError::PathRejected);
        }
        if count > 1 {
            return Err(TrustedSourceError::InvalidEvidence);
        }
        let file = &inventory.files[found];
        if !text_eq(file.blob_oid.as_str(), selection.blob_oid.as_str()) {
            return Err(TrustedSourceError::RepositoryMismatch);
        }
        let source = match utf8_text(file.bytes.as_slice()) {
            Some(t) => t,
            None => return Err(TrustedSourceError::ContentRejected),
        };
        let length = file.bytes.len();
        if selection.start_byte >= selection.end_byte || selection.end_byte > length as u64 {
            return Err(TrustedSourceError::InvalidEvidence);
        }
        let start = selection.start_byte as usize;
        let end = selection.end_byte as usize;
        if !source.is_char_boundary(start) || !source.is_char_boundary(end) {
            return Err(TrustedSourceError::ContentRejected);
        }
        let piece = byte_range(file.bytes.as_slice(), start, end);
        let excerpt = match utf8_text(piece.as_slice()) {
            Some(t) => t,
            None => return Err(TrustedSourceError::ContentRejected),
        };
        let excerpt_bytes = (end - start) as u64;
        if excerpt_bytes > MAX_R18_EXCERPT_BYTES {
            return Err(TrustedSourceError::LimitExceeded);
        }
        if length as u64 >= u64::MAX {
            return Err(TrustedSourceError::Internal);
        }
        let digest = (env.sha256)(excerpt.as_bytes());
        if !valid_sha256(digest.as_str()) {
            return Err(TrustedSourceError::Internal);
        }
        let start_position = source_position(file.bytes.as_slice(), start);
        let end_position = source_position(file.bytes.as_slice(), end);
        let source_value = Json::Object(
            vec![
                entry("commit_oid", Json::text(selection.commit_oid.as_str())),
                entry("graph_schema_version", Json::text(env.versions.graph.as_str())),
                entry("graph_semantic_hash", Json::text(selection.graph_semantic_hash.as_str())),
                entry("ontology_version", Json::text(env.versions.ontology.as_str())),
                entry("repository_identity", Json::text(selection.repository_identity.as_str())),
                entry("snapshot_id", Json::text(selection.snapshot_id.as_str())),
                entry("snapshot_schema_version", Json::text(env.versions.snapshot.as_str())),
                entry("snapshot_semantic_hash", Json::text(selection.snapshot_semantic_hash.as_str())),
                entry("tree_oid", Json::text(selection.tree_oid.as_str())),
            ],
        );
        let span = Json::Object(
            vec![
                entry("end", Json::UInt(selection.end_byte)),
                entry("end_position", end_position),
                entry("start", Json::UInt(selection.start_byte)),
                entry("start_position", start_position),
                entry("unit", Json::text("byte")),
            ],
        );
        let evidence = Json::Object(
            vec![
                entry("blob_oid", Json::text(selection.blob_oid.as_str())),
                entry("id", Json::text(selection.evidence_id.as_str())),
                entry("path", Json::text(selection.path.as_str())),
                entry("span", span),
            ],
        );
        let ghost excerpt_text = excerpt@;
        let excerpt_value = Json::Object(
            vec![
                entry("byte_length", Json::UInt(excerpt_bytes)),
                entry("encoding", Json::text("utf-8")),
                entry("sha256", Json::Str(digest)),
                entry("text", Json::text(excerpt)),
            ],
        );
        let ghost ev = excerpt_value;
        proof {
            assert(member_at(ev, 3, "text"@) == Some(ev->Object_0@[3].1));
            assert(as_text(ev->Object_0@[3].1) == Some(excerpt_text));
        }
        let limitations = limitations_list();
        let value = Json::Object(
            vec![
                entry("authority", Json::text("explicit_local_git_object_only")),
                entry("disclosure", Json::text("explicit_transient_stdout")),
                entry("evidence", evidence),
                entry("excerpt", excerpt_value),
                entry("limitations", text_array(&limitations)),
                entry("profile", Json::text(R18_SOURCE_PROFILE)),
                entry("schema_version", Json::text(R18_SOURCE_EXCERPT_VERSION)),
                entry("source", source_value),
            ],
        );
        assert(inventory.files@[found as int].path@ == selection@.path);
        proof {
            let p = seq![(3int, "excerpt"@), (3int, "text"@)];
            assert(member_at(value, 3, "excerpt"@) == Some(ev));
            assert(p.drop_first() =~= seq![(3int, "text"@)]);
            assert(p.drop_first().drop_first() =~= Seq::<(int, Seq<char>)>::empty());
            assert(at_path(ev->Object_0@[3].1, p.drop_first().drop_first()) == Some(ev->Object_0@[3].1));
            assert(p.drop_first()[0] == (3int, "text"@));
            assert(at_path(ev, p.drop_first()) == Some(ev->Object_0@[3].1));
            assert(p[0] == (3int, "excerpt"@));
            assert(text_at(value, p) == Some(excerpt_text));
            let b = inventory.files@[found as int].bytes@;
            assert(position_value(start_position, position_of(b.take(start as int))));
            assert(position_value(end_position, position_of(b.take(end as int))));
            assert(excerpt_document(value, selection@, b, env.versions));
        }
        let r = Self::from_value(value, env);
        proof {
            if r is Ok && deterministic_digest(env.sha256) && deterministic_check(env.identity_ok) {
                lemma_validated_output_accepted(r->Ok_0.document(), *env);
            }
        }
        r
    }

    fn from_value<S: Fn(&[u8]) -> String, I: Fn(&str) -> bool>(
        value: Json,
        env: &SourceEnvironment<S, I>,
    ) -> (r: Result<Self, TrustedSourceError>)
        requires
            total_digest(env.sha256),
            total_check(env.identity_ok),
        ensures
            r matches Ok(x) ==> x.document() == value && x.canonical_bytes() == json_bytes(value)
                && x.canonical_bytes().len() + 1 <= MAX_R18_STDOUT_BYTES,
            !document_header_rule(value) ==> r matches Err(TrustedSourceError::InvalidEvidence),
            r is Ok ==> output_validated(value, *env),
            output_rule(value, *env) ==> if json_bytes(value).len() < MAX_R18_STDOUT_BYTES {
                r is Ok
            } else {
                r matches Err(TrustedSourceError::LimitExceeded)
            },
    {
        validate_output_value(&value, env)?;
        let canonical = to_bytes(&value);
        if canonical.len() as u64 >= MAX_R18_STDOUT_BYTES {
            return Err(TrustedSourceError::LimitExceeded);
        }
        Ok(Self { value, canonical })
    }

    /// Strictly validates one canonical LF-terminated document. `parsed` is
    /// the JSON parse of the bytes before the final LF (`None` when they do
    /// not parse).
    ///
    /// Above [`MAX_R18_STDOUT_BYTES`] is `LimitExceeded`; a missing final LF,
    /// a failed parse, or bytes that are not exactly the canonical text of
    /// the parsed document is `InvalidEvidence`; the document must validate.
    pub fn from_canonical_stdout<S: Fn(&[u8]) -> String, I: Fn(&str) -> bool>(
        bytes: &[u8],
        parsed: Option<Json>,
        env: &SourceEnvironment<S, I>,
    ) -> (r: Result<Self, TrustedSourceError>)
        requires
            total_digest(env.sha256),
            total_check(env.identity_ok),
        ensures
            bytes@.len() > MAX_R18_STDOUT_BYTES ==> (r matches Err(TrustedSourceError::LimitExceeded)),
            bytes@.len() <= MAX_R18_STDOUT_BYTES && (bytes@.len() == 0 || bytes@.last() != 10u8)
                ==> (r matches Err(TrustedSourceError::InvalidEvidence)),
            r matches Ok(x) ==> {
                &&& bytes@ == json_bytes(x.document()).push(10u8)
                &&& x.canonical_bytes() == json_bytes(x.document())
                &&& x.canonical_bytes().push(10u8) == bytes@
                &&& parsed == Some(x.document())
                &&& document_header_rule(x.document())
                &&& member(x.document(), "evidence"@) matches Some(e) && evidence_rule(e)
                &&& output_validated(x.document(), *env)
            },
            parsed matches Some(v) ==> (bytes@.len() <= MAX_R18_STDOUT_BYTES && bytes@ == json_bytes(v).push(10u8)
                && output_rule(v, *env) ==> (r matches Ok(x) && x.document() == v)),
    {
        if bytes.len() as u64 > MAX_R18_STDOUT_BYTES {
            return Err(TrustedSourceError::LimitExceeded);
        }
        if bytes.len() == 0 || bytes[bytes.len() - 1] != 10u8 {
            proof {
                if parsed is Some {
                    let t = json_bytes(parsed->Some_0).push(10u8);
                    assert(t.len() > 0 && t[t.len() - 1] == 10u8);
                }
            }
            return Err(TrustedSourceError::InvalidEvidence);
        }
        let canonical = byte_range(bytes, 0, bytes.len() - 1);
        let value = match parsed {
            Some(v) => v,
            None => return Err(TrustedSourceError::InvalidEvidence),
        };
        validate_output_value(&value, env)?;
        let expected = to_bytes(&value);
        if !crate::text::bytes_eq(expected.as_slice(), canonical.as_slice()) {
            proof {
                if bytes@ == json_bytes(value).push(10u8) {
                    assert(canonical@ =~= json_bytes(value));
                }
            }
            return Err(TrustedSourceError::InvalidEvidence);
        }
        assert(bytes@ =~= canonical@.push(10u8));
        Ok(Self { value, canonical: expected })
    }

    /// The excerpt document.
    pub fn value(&self) -> (r: &Json)
        ensures
            *r == self.document(),
    {
        &self.value
    }

    /// The canonical document followed by one LF.
    pub fn canonical_stdout(&self) -> (r: Vec<u8>)
        ensures
            r@ == self.canonical_bytes().push(10u8),
            r@ == json_bytes(self.document()).push(10u8),
    {
        proof {
            use_type_invariant(self);
        }
        let mut bytes = byte_range(self.canonical.as_slice(), 0, self.canonical.len());
        assert(bytes@ =~= self.canonical@);
        bytes.push(10u8);
        bytes
    }
}

/// The visible head of a stored snapshot, as the local store records it.
#[derive(Clone, Debug, PartialEq, Eq)]
pub struct LocalSnapshotHead {
    pub snapshot_schema_version: String,
    pub repository_identity: String,
    pub commit_oid: String,
    pub snapshot_id: String,
    pub semantic_hash_algorithm: String,
    pub semantic_hash: String,
    pub graph_semantic_hash: String,
}

/// The text at `/outer/inner` of a document.
pub open spec fn nested_text(j: Json, outer: Seq<char>, inner: Seq<char>) -> Option<Seq<char>> {
    match member(j, outer) {
        Some(o) => member_text(o, inner),
        None => None,
    }
}

/// Number of records whose `id` is `id`.
pub open spec fn records_with_id(records: Seq<Json>, id: Seq<char>) -> nat
    decreases records.len(),
{
    if records.len() == 0 {
        0
    } else {
        records_with_id(records.drop_last(), id) + if member_text(records.last(), "id"@) == Some(id) {
            1nat
        } else {
            0nat
        }
    }
}

/// The members of an evidence record.
pub open spec fn evidence_record_keys() -> Seq<Seq<char>> {
    seq!["blob_oid"@, "end_byte"@, "id"@, "path"@, "start_byte"@]
}

/// The position of the first record whose `id` is `id`.
pub open spec fn first_with_id(records: Seq<Json>, id: Seq<char>) -> Option<int>
    decreases records.len(),
{
    if records.len() == 0 {
        None
    } else {
        match first_with_id(records.drop_last(), id) {
            Some(k) => Some(k),
            None => if member_text(records.last(), "id"@) == Some(id) {
                Some(records.len() - 1)
            } else {
                None
            },
        }
    }
}

/// The locator an evidence record gives: exactly its five members, a
/// non-empty safe path (an unsafe one is `PathRejected`), a blob object
/// identifier and a span with `start_byte < end_byte` (else
/// `InvalidEvidence`); the other values come from the head, the tree and the
/// requested identifier.
pub open spec fn record_locator(
    record: Json,
    head: LocalSnapshotHead,
    tree: Seq<char>,
    evidence_id: Seq<char>,
) -> Result<SelectionView, TrustedSourceError> {
    if !exact_keys(record, evidence_record_keys()) {
        Err(TrustedSourceError::InvalidEvidence)
    } else {
        match member_text(record, "path"@) {
            None => Err(TrustedSourceError::InvalidEvidence),
            Some(path) => if path.len() == 0 {
                Err(TrustedSourceError::InvalidEvidence)
            } else if !repository_path_rule(path) {
                Err(TrustedSourceError::PathRejected)
            } else {
                match (member_text(record, "blob_oid"@), member_u64(record, "start_byte"@), member_u64(record, "end_byte"@)) {
                    (Some(blob), Some(start), Some(end)) => if blob.len() > 0 && object_id_rule(blob) && start < end {
                        Ok(
                            SelectionView {
                                repository_identity: head.repository_identity@,
                                commit_oid: head.commit_oid@,
                                tree_oid: tree,
                                snapshot_id: head.snapshot_id@,
                                snapshot_semantic_hash: head.semantic_hash@,
                                graph_semantic_hash: head.graph_semantic_hash@,
                                evidence_id,
                                path,
                                blob_oid: blob,
                                start_byte: start,
                                end_byte: end,
                            },
                        )
                    } else {
                        Err(TrustedSourceError::InvalidEvidence)
                    },
                    _ => Err(TrustedSourceError::InvalidEvidence),
                }
            },
        }
    }
}

/// What selecting `evidence_id` from a V18 snapshot gives, check by check in
/// order: the caller's validation, the identifier's form, the head and
/// snapshot agreeing on schema, repository, commit and ontology, a well
/// formed tree, a knowledge graph object agreeing on schema, ontology and
/// graph hash, an evidence array holding exactly one record with the
/// identifier, and that record's locator ([`record_locator`]).
pub open spec fn selection_outcome(
    semantic: Json,
    head: LocalSnapshotHead,
    evidence_id: Seq<char>,
    stored_snapshot_valid: bool,
    versions: SnapshotVersions,
) -> Result<SelectionView, TrustedSourceError> {
    if !stored_snapshot_valid {
        Err(TrustedSourceError::InvalidSnapshot)
    } else if !evidence_id_rule(evidence_id) {
        Err(TrustedSourceError::InvalidEvidence)
    } else if !(head.snapshot_schema_version@ == versions.snapshot@ && nested_text(semantic, "repository"@, "identity"@)
        == Some(head.repository_identity@) && nested_text(semantic, "repository"@, "commit_oid"@) == Some(
        head.commit_oid@,
    ) && member_text(semantic, "ontology_version"@) == Some(versions.ontology@)) {
        Err(TrustedSourceError::InvalidSnapshot)
    } else {
        match (nested_text(semantic, "repository"@, "tree_oid"@), member(semantic, "knowledge_graph"@)) {
            (Some(tree), Some(graph)) => if !object_id_rule(tree) || !(graph is Object) || !(member_text(
                graph,
                "schema_version"@,
            ) == Some(versions.graph@) && member_text(graph, "ontology_version"@) == Some(versions.ontology@)
                && nested_text(graph, "semantic_hash"@, "value"@) == Some(head.graph_semantic_hash@)) {
                Err(TrustedSourceError::InvalidSnapshot)
            } else {
                match member_items(graph, "evidence"@) {
                    None => Err(TrustedSourceError::InvalidSnapshot),
                    Some(records) => if records_with_id(records, evidence_id) == 0 {
                        Err(TrustedSourceError::EvidenceNotFound)
                    } else if records_with_id(records, evidence_id) > 1 {
                        Err(TrustedSourceError::InvalidEvidence)
                    } else {
                        record_locator(
                            records[first_with_id(records, evidence_id).unwrap()],
                            head,
                            tree,
                            evidence_id,
                        )
                    },
                }
            },
            _ => Err(TrustedSourceError::InvalidSnapshot),
        }
    }
}

fn nested_str<'a>(j: &'a Json, outer: &str, inner: &str) -> (r: Option<&'a str>)
    ensures
        match r {
            Some(t) => nested_text(*j, outer@, inner@) == Some(t@),
            None => nested_text(*j, outer@, inner@) is None,
        },
{
    match j.get(outer) {
        Some(o) => o.get_str(inner),
        None => None,
    }
}

fn nested_is(j: &Json, outer: &str, inner: &str, expected: &str) -> (r: bool)
    ensures
        r == (nested_text(*j, outer@, inner@) == Some(expected@)),
{
    match nested_str(j, outer, inner) {
        Some(t) => text_eq(t, expected),
        None => false,
    }
}

/// A non-empty text under `key`, else `InvalidEvidence`.
fn required_string<'a>(value: &'a Json, field: &str) -> (r: Result<&'a str, TrustedSourceError>)
    ensures
        match r {
            Ok(t) => member_text(*value, field@) == Some(t@) && t@.len() > 0,
            Err(e) => e == TrustedSourceError::InvalidEvidence && !(member_text(*value, field@) matches Some(t) && t.len() > 0),
        },
{
    match value.get_str(field) {
        Some(t) => {
            if t.is_empty() {
                Err(TrustedSourceError::InvalidEvidence)
            } else {
                Ok(t)
            }
        },
        None => Err(TrustedSourceError::InvalidEvidence),
    }
}

impl TrustedSourceSelectionV1 {
    /// Selects one exact evidence locator from a V18 snapshot whose stored
    /// payload and head the caller has validated (`stored_snapshot_valid`).
    ///
    /// A refused snapshot is `InvalidSnapshot`; a malformed identifier is
    /// `InvalidEvidence`; a head, repository, ontology, graph schema or graph
    /// hash that disagrees with the snapshot is `InvalidSnapshot`; no record
    /// with the identifier is `EvidenceNotFound`, several are
    /// `InvalidEvidence`; the record must have exactly its five members, a
    /// safe path (`PathRejected`), a blob object identifier and a span with
    /// `start < end` (`InvalidEvidence`).
    pub fn from_validated_v18(
        semantic: &Json,
        head: &LocalSnapshotHead,
        evidence_id: &str,
        stored_snapshot_valid: bool,
        versions: &SnapshotVersions,
    ) -> (r: Result<Self, TrustedSourceError>)
        ensures
            match r {
                Ok(sel) => selection_outcome(*semantic, *head, evidence_id@, stored_snapshot_valid, *versions) == Ok::<
                    SelectionView,
                    TrustedSourceError,
                >(sel@),
                Err(e) => selection_outcome(*semantic, *head, evidence_id@, stored_snapshot_valid, *versions) == Err::<
                    SelectionView,
                    TrustedSourceError,
                >(e),
            },
            !stored_snapshot_valid ==> (r matches Err(TrustedSourceError::InvalidSnapshot)),
            stored_snapshot_valid && !evidence_id_rule(evidence_id@) ==> (r matches Err(TrustedSourceError::InvalidEvidence)),
            r matches Ok(sel) ==> {
                &&& stored_snapshot_valid
                &&& evidence_id_rule(evidence_id@)
                &&& head.snapshot_schema_version@ == versions.snapshot@
                &&& nested_text(*semantic, "repository"@, "identity"@) == Some(head.repository_identity@)
                &&& nested_text(*semantic, "repository"@, "commit_oid"@) == Some(head.commit_oid@)
                &&& member_text(*semantic, "ontology_version"@) == Some(versions.ontology@)
                &&& nested_text(*semantic, "repository"@, "tree_oid"@) == Some(sel@.tree_oid)
                &&& object_id_rule(sel@.tree_oid)
                &&& member(*semantic, "knowledge_graph"@) matches Some(graph) && {
                    &&& member_text(graph, "schema_version"@) == Some(versions.graph@)
                    &&& member_text(graph, "ontology_version"@) == Some(versions.ontology@)
                    &&& nested_text(graph, "semantic_hash"@, "value"@) == Some(head.graph_semantic_hash@)
                    &&& member_items(graph, "evidence"@) matches Some(records)
                        && records_with_id(records, evidence_id@) == 1
                }
                &&& sel@.repository_identity == head.repository_identity@
                &&& sel@.commit_oid == head.commit_oid@
                &&& sel@.snapshot_id == head.snapshot_id@
                &&& sel@.snapshot_semantic_hash == head.semantic_hash@
                &&& sel@.graph_semantic_hash == head.graph_semantic_hash@
                &&& sel@.evidence_id == evidence_id@
                &&& repository_path_rule(sel@.path)
                &&& object_id_rule(sel@.blob_oid)
                &&& sel@.start_byte < sel@.end_byte
            },
    {
        if !stored_snapshot_valid {
            return Err(TrustedSourceError::InvalidSnapshot);
        }
        if !valid_evidence_id(evidence_id) {
            return Err(TrustedSourceError::InvalidEvidence);
        }
        if !text_eq(head.snapshot_schema_version.as_str(), versions.snapshot.as_str()) || !nested_is(
            semantic,
            "repository",
            "identity",
            head.repository_identity.as_str(),
        ) || !nested_is(semantic, "repository", "commit_oid", head.commit_oid.as_str()) || !text_is(
            semantic,
            "ontology_version",
            versions.ontology.as_str(),
        ) {
            return Err(TrustedSourceError::InvalidSnapshot);
        }
        let tree_oid = match nested_str(semantic, "repository", "tree_oid") {
            Some(t) => {
                if valid_object_id(t) {
                    t
                } else {
                    return Err(TrustedSourceError::InvalidSnapshot);
                }
            },
            None => return Err(TrustedSourceError::InvalidSnapshot),
        };
        let graph = match semantic.get("knowledge_graph") {
            Some(g) => match g.as_object() {
                Some(_) => g,
                None => return Err(TrustedSourceError::InvalidSnapshot),
            },
            None => return Err(TrustedSourceError::InvalidSnapshot),
        };
        if !text_is(graph, "schema_version", versions.graph.as_str()) || !text_is(
            graph,
            "ontology_version",
            versions.ontology.as_str(),
        ) || !nested_is(graph, "semantic_hash", "value", head.graph_semantic_hash.as_str()) {
            return Err(TrustedSourceError::InvalidSnapshot);
        }
        let records = match graph.get_array("evidence") {
            Some(items) => items,
            None => return Err(TrustedSourceError::InvalidSnapshot),
        };
        let mut found: usize = 0;
        let mut count: usize = 0;
        let mut i: usize = 0;
        while i < records.len()
            invariant
                i <= records.len(),
                count <= 2,
                count == if records_with_id(records@.take(i as int), evidence_id@) >= 2 {
                    2
                } else {
                    records_with_id(records@.take(i as int), evidence_id@)
                },
                count >= 1 ==> found < i && member_text(records@[found as int], "id"@) == Some(evidence_id@),
                count >= 1 ==> first_with_id(records@.take(i as int), evidence_id@) == Some(found as int),
                count == 0 ==> first_with_id(records@.take(i as int), evidence_id@) is None,
            decreases records.len() - i,
        {
            assert(records@.take(i + 1).drop_last() =~= records@.take(i as int));
            let is_match = match records[i].get_str("id") {
                Some(t) => text_eq(t, evidence_id),
                None => false,
            };
            if is_match {
                if count == 0 {
                    found = i;
                }
                if count < 2 {
                    count += 1;
                }
            }
            i += 1;
        }
        assert(records@.take(records.len() as int) =~= records@);
        if count == 0 {
            return Err(TrustedSourceError::EvidenceNotFound);
        }
        if count > 1 {
            return Err(TrustedSourceError::InvalidEvidence);
        }
        let record = &records[found];
        let keys = ["blob_oid", "end_byte", "id", "path", "start_byte"];
        assert(crate::json::names_view(keys@) =~= evidence_record_keys());
        if !has_exact_keys(record, &keys) {
            return Err(TrustedSourceError::InvalidEvidence);
        }
        let path = required_string(record, "path")?;
        if !valid_repository_path(path) {
            return Err(TrustedSourceError::PathRejected);
        }
        let blob_oid = match required_string(record, "blob_oid") {
            Ok(t) => {
                if valid_object_id(t) {
                    t
                } else {
                    return Err(TrustedSourceError::InvalidEvidence);
                }
            },
            Err(_) => return Err(TrustedSourceError::InvalidEvidence),
        };
        let start_byte = match record.get_u64("start_byte") {
            Some(v) => v,
            None => return Err(TrustedSourceError::InvalidEvidence),
        };
        let end_byte = match record.get_u64("end_byte") {
            Some(v) => v,
            None => return Err(TrustedSourceError::InvalidEvidence),
        };
        if start_byte >= end_byte {
            return Err(TrustedSourceError::InvalidEvidence);
        }
        Ok(
            TrustedSourceSelectionV1 {
                repository_identity: head.repository_identity.clone(),
                commit_oid: head.commit_oid.clone(),
                tree_oid: tree_oid.to_owned(),
                snapshot_id: head.snapshot_id.clone(),
                snapshot_semantic_hash: head.semantic_hash.clone(),
                graph_semantic_hash: head.graph_semantic_hash.clone(),
                evidence_id: evidence_id.to_owned(),
                path: path.to_owned(),
                blob_oid: blob_oid.to_owned(),
                start_byte,
                end_byte,
            },
        )
    }

    /// A selection with the given recorded values.
    pub fn from_parts(
        repository_identity: &str,
        commit_oid: &str,
        tree_oid: &str,
        snapshot_id: &str,
        snapshot_semantic_hash: &str,
        graph_semantic_hash: &str,
        evidence_id: &str,
        path: &str,
        blob_oid: &str,
        start_byte: u64,
        end_byte: u64,
    ) -> (r: Self)
        ensures
            r@.repository_identity == repository_identity@,
            r@.commit_oid == commit_oid@,
            r@.tree_oid == tree_oid@,
            r@.snapshot_id == snapshot_id@,
            r@.snapshot_semantic_hash == snapshot_semantic_hash@,
            r@.graph_semantic_hash == graph_semantic_hash@,
            r@.evidence_id == evidence_id@,
            r@.path == path@,
            r@.blob_oid == blob_oid@,
            r@.start_byte == start_byte,
            r@.end_byte == end_byte,
    {
        TrustedSourceSelectionV1 {
            repository_identity: repository_identity.to_owned(),
            commit_oid: commit_oid.to_owned(),
            tree_oid: tree_oid.to_owned(),
            snapshot_id: snapshot_id.to_owned(),
            snapshot_semantic_hash: snapshot_semantic_hash.to_owned(),
            graph_semantic_hash: graph_semantic_hash.to_owned(),
            evidence_id: evidence_id.to_owned(),
            path: path.to_owned(),
            blob_oid: blob_oid.to_owned(),
            start_byte,
            end_byte,
        }
    }

    pub fn repository_identity(&self) -> (r: &str)
        ensures
            r@ == self@.repository_identity,
    {
        self.repository_identity.as_str()
    }

    pub fn commit_oid(&self) -> (r: &str)
        ensures
            r@ == self@.commit_oid,
    {
        self.commit_oid.as_str()
    }

    pub fn tree_oid(&self) -> (r: &str)
        ensures
            r@ == self@.tree_oid,
    {
        self.tree_oid.as_str()
    }

    pub fn evidence_id(&self) -> (r: &str)
        ensures
            r@ == self@.evidence_id,
    {
        self.evidence_id.as_str()
    }

    pub fn path(&self) -> (r: &str)
        ensures
            r@ == self@.path,
    {
        self.path.as_str()
    }

    pub fn blob_oid(&self) -> (r: &str)
        ensures
            r@ == self@.blob_oid,
    {
        self.blob_oid.as_str()
    }

    pub fn start_byte(&self) -> (r: u64)
        ensures
            r == self@.start_byte,
    {
        self.start_byte
    }

    pub fn end_byte(&self) -> (r: u64)
        ensures
            r == self@.end_byte,
    {
        self.end_byte
    }
}

/// An error document `{"code", "context": {}, "message", "retryable":
/// false, "schema_version", "stage"}` (members in canonical order).
pub open spec fn error_document(j: Json, code: Seq<char>, stage: Seq<char>, message: Seq<char>) -> bool {
    &&& member_count(j) == 6
    &&& text_at(j, seq![(0int, "code"@)]) == Some(code)
    &&& at_path(j, seq![(1int, "context"@)]) matches Some(c) && c matches Json::Object(f) && f@.len() == 0
    &&& text_at(j, seq![(2int, "message"@)]) == Some(message)
    &&& at_path(j, seq![(3int, "retryable"@)]) == Some(Json::Bool(false))
    &&& text_at(j, seq![(4int, "schema_version"@)]) == Some(R18_ERROR_VERSION@)
    &&& text_at(j, seq![(5int, "stage"@)]) == Some(stage)
}

/// The error document of trusted source retrieval (`ErrorV29`).
#[derive(Debug)]
pub struct CodeNoesisErrorV29 {
    value: Json,
}

impl CodeNoesisErrorV29 {
    /// The error document.
    pub closed spec fn document(&self) -> Json {
        self.value
    }

    fn new(code: &str, stage: &str, message: &str) -> (r: Self)
        ensures
            error_document(r.document(), code@, stage@, message@),
    {
        let value = Json::Object(
            vec![
                entry("code", Json::text(code)),
                entry("context", Json::Object(Vec::new())),
                entry("message", Json::text(message)),
                entry("retryable", Json::Bool(false)),
                entry("schema_version", Json::text(R18_ERROR_VERSION)),
                entry("stage", Json::text(stage)),
            ],
        );
        proof {
            let f = value->Object_0@;
            assert(seq![(0int, "code"@)].drop_first() =~= Seq::<(int, Seq<char>)>::empty());
            assert(seq![(1int, "context"@)].drop_first() =~= Seq::<(int, Seq<char>)>::empty());
            assert(seq![(2int, "message"@)].drop_first() =~= Seq::<(int, Seq<char>)>::empty());
            assert(seq![(3int, "retryable"@)].drop_first() =~= Seq::<(int, Seq<char>)>::empty());
            assert(seq![(4int, "schema_version"@)].drop_first() =~= Seq::<(int, Seq<char>)>::empty());
            assert(seq![(5int, "stage"@)].drop_first() =~= Seq::<(int, Seq<char>)>::empty());
            assert(at_path(f[0].1, Seq::empty()) == Some(f[0].1));
            assert(at_path(f[1].1, Seq::empty()) == Some(f[1].1));
            assert(at_path(f[2].1, Seq::empty()) == Some(f[2].1));
            assert(at_path(f[3].1, Seq::empty()) == Some(f[3].1));
            assert(at_path(f[4].1, Seq::empty()) == Some(f[4].1));
            assert(at_path(f[5].1, Seq::empty()) == Some(f[5].1));
        }
        CodeNoesisErrorV29 { value }
    }

    pub fn invalid_arguments() -> (r: Self)
        ensures
            error_document(r.document(), "source.invalid_arguments"@, "input"@, "invalid trusted source arguments"@),
    {
        Self::new("source.invalid_arguments", "input", "invalid trusted source arguments")
    }

    pub fn acquisition_rejected() -> (r: Self)
        ensures
            error_document(r.document(), "source.acquisition_rejected"@, "source"@, "trusted source acquisition rejected"@),
    {
        Self::new("source.acquisition_rejected", "source", "trusted source acquisition rejected")
    }

    pub fn path_rejected() -> (r: Self)
        ensures
            error_document(r.document(), "source.path_rejected"@, "source"@, "trusted source path rejected"@),
    {
        Self::new("source.path_rejected", "source", "trusted source path rejected")
    }

    pub fn limit_exceeded() -> (r: Self)
        ensures
            error_document(r.document(), "source.limit_exceeded"@, "source"@, "trusted source limit exceeded"@),
    {
        Self::new("source.limit_exceeded", "source", "trusted source limit exceeded")
    }

    pub fn unstable_input() -> (r: Self)
        ensures
            error_document(r.document(), "source.unstable_input"@, "source"@, "trusted source input changed"@),
    {
        Self::new("source.unstable_input", "source", "trusted source input changed")
    }

    pub fn repository_mismatch() -> (r: Self)
        ensures
            error_document(r.document(), "source.repository_mismatch"@, "source"@, "trusted source repository mismatch"@),
    {
        Self::new("source.repository_mismatch", "source", "trusted source repository mismatch")
    }

    pub fn invalid_snapshot() -> (r: Self)
        ensures
            error_document(r.document(), "source.invalid_snapshot"@, "source"@, "trusted source snapshot invalid"@),
    {
        Self::new("source.invalid_snapshot", "source", "trusted source snapshot invalid")
    }

    pub fn internal() -> (r: Self)
        ensures
            error_document(r.document(), "source.internal"@, "internal"@, "trusted source internal failure"@),
    {
        Self::new("source.internal", "internal", "trusted source internal failure")
    }

    /// The error document of a retrieval failure.
    pub fn from_contract(error: &TrustedSourceError) -> (r: Self)
        ensures
            match error {
                TrustedSourceError::InvalidSnapshot => error_document(r.document(), "source.invalid_snapshot"@, "source"@, "trusted source snapshot invalid"@),
                TrustedSourceError::EvidenceNotFound => error_document(r.document(), "source.evidence_not_found"@, "source"@, "trusted source evidence not found"@),
                TrustedSourceError::InvalidEvidence => error_document(r.document(), "source.invalid_evidence"@, "source"@, "trusted source evidence invalid"@),
                TrustedSourceError::RepositoryMismatch => error_document(r.document(), "source.repository_mismatch"@, "source"@, "trusted source repository mismatch"@),
                TrustedSourceError::PathRejected => error_document(r.document(), "source.path_rejected"@, "source"@, "trusted source path rejected"@),
                TrustedSourceError::ContentRejected => error_document(r.document(), "source.content_rejected"@, "source"@, "trusted source content rejected"@),
                TrustedSourceError::LimitExceeded => error_document(r.document(), "source.limit_exceeded"@, "source"@, "trusted source limit exceeded"@),
                TrustedSourceError::Internal => error_document(r.document(), "source.internal"@, "internal"@, "trusted source internal failure"@),
            },
    {
        match error {
            TrustedSourceError::InvalidSnapshot => Self::invalid_snapshot(),
            TrustedSourceError::EvidenceNotFound => Self::new(
                "source.evidence_not_found",
                "source",
                "trusted source evidence not found",
            ),
            TrustedSourceError::InvalidEvidence => Self::new(
                "source.invalid_evidence",
                "source",
                "trusted source evidence invalid",
            ),
            TrustedSourceError::RepositoryMismatch => Self::repository_mismatch(),
            TrustedSourceError::PathRejected => Self::path_rejected(),
            TrustedSourceError::ContentRejected => Self::new(
                "source.content_rejected",
                "source",
                "trusted source content rejected",
            ),
            TrustedSourceError::LimitExceeded => Self::limit_exceeded(),
            TrustedSourceError::Internal => Self::internal(),
        }
    }

    /// The error document.
    pub fn value(&self) -> (r: &Json)
        ensures
            *r == self.document(),
    {
        &self.value
    }

    /// The canonical error document followed by one LF.
    pub fn canonical_stderr(&self) -> (r: Vec<u8>)
        ensures
            r@ == json_bytes(self.document()).push(10u8),
    {
        let mut bytes = to_bytes(&self.value);
        bytes.push(10u8);
        bytes
    }
}

} // verus!
