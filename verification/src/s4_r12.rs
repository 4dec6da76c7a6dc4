//! R12 portable-graph contract rules: size and nesting limits, privacy of
//! payloads, relative paths, K1 kinds and order of identifiers.
use vstd::prelude::*;
use crate::json::{first_finding, find_unsafe, height, member_items, member_text, names_view, FindingView, Json};
use crate::portable::FaultView;
use crate::text::{
    all_lower_hex, bounded_text, chars_all_lower_hex, chars_of, repeat_char, repeated,
    one_of, patterns_view, safe_relative_path_rule, safe_relative_path_text, strictly_increasing,
    take_scalars, text_one_of, texts_strictly_increasing, utf8_len_at_most, utf8_len,
};

use crate::s4_r18::LocalSnapshotHead;
use crate::json::{entry, json_copy, member, member_count};

verus! {

pub const R12_PORTABLE_MARKER: &'static str = ".codenoesis-portable-graph-v5";
pub const R12_EXPLORER_MARKER: &'static str = ".codenoesis-local-explorer-v5";
pub const R12_EXPLORER_SECURITY_PROFILE: &'static str = "codenoesis.local-explorer-security/v5";
pub const MAX_R12_PORTABLE_GRAPH_BYTES: u64 = 268_435_456;
pub const MAX_R12_JSON_NESTING: u64 = 64;
pub const MAX_R12_TEXT_SEARCH_RESULTS: u64 = 100;
pub const R12_TRAVERSAL_DEPTH_DEFAULT: u64 = 1;
pub const MAX_R12_TRAVERSAL_DEPTH: u64 = 2;

/// Why an R12 portable graph or projection is refused.
#[derive(Clone, Debug, PartialEq, Eq)]
pub enum R12ContractError {
    InvalidSnapshot,
    UnsupportedSnapshotSchema(String),
    UnsupportedPortableGraphSchema(String),
    Noncanonical { expected_sha256: String, observed_sha256: String },
    IdentityConflict { family: &'static str, id: String },
    ReferenceMismatch { family: &'static str, id: String },
    LimitExceeded { limit: &'static str, maximum: u64, observed: u64 },
    UnsafePayload { reason: &'static str },
    AssetIntegrityMismatch,
    InvalidProjection,
    Internal,
}

impl R12ContractError {
    /// The human-readable message of the error.
    pub open spec fn message_text(&self) -> Seq<char> {
        match self {
            R12ContractError::InvalidSnapshot => "invalid R12 snapshot"@,
            R12ContractError::UnsupportedSnapshotSchema(_) => "unsupported R12 snapshot schema"@,
            R12ContractError::UnsupportedPortableGraphSchema(_) => "unsupported portable graph schema"@,
            R12ContractError::Noncanonical { .. } => "noncanonical portable graph"@,
            R12ContractError::IdentityConflict { .. } => "portable identity conflict"@,
            R12ContractError::ReferenceMismatch { .. } => "portable reference mismatch"@,
            R12ContractError::LimitExceeded { .. } => "portable graph limit exceeded"@,
            R12ContractError::UnsafePayload { .. } => "unsafe portable payload"@,
            R12ContractError::AssetIntegrityMismatch => "explorer asset integrity mismatch"@,
            R12ContractError::InvalidProjection => "invalid portable graph projection"@,
            R12ContractError::Internal => "internal R12 contract error"@,
        }
    }

    /// The human-readable message of the error.
    pub fn message(&self) -> (r: &'static str)
        ensures
            r@ == self.message_text(),
    {
        match self {
            R12ContractError::InvalidSnapshot => "invalid R12 snapshot",
            R12ContractError::UnsupportedSnapshotSchema(_) => "unsupported R12 snapshot schema",
            R12ContractError::UnsupportedPortableGraphSchema(_) => "unsupported portable graph schema",
            R12ContractError::Noncanonical { .. } => "noncanonical portable graph",
            R12ContractError::IdentityConflict { .. } => "portable identity conflict",
            R12ContractError::ReferenceMismatch { .. } => "portable reference mismatch",
            R12ContractError::LimitExceeded { .. } => "portable graph limit exceeded",
            R12ContractError::UnsafePayload { .. } => "unsafe portable payload",
            R12ContractError::AssetIntegrityMismatch => "explorer asset integrity mismatch",
            R12ContractError::InvalidProjection => "invalid portable graph projection",
            R12ContractError::Internal => "internal R12 contract error",
        }
    }
}

/// A portable graph of `length` bytes is accepted exactly when it is at most
/// [`MAX_R12_PORTABLE_GRAPH_BYTES`] long.
pub fn enforce_portable_size(length: usize) -> (r: Result<(), R12ContractError>)
    ensures
        r is Ok <==> length <= MAX_R12_PORTABLE_GRAPH_BYTES,
        r is Err ==> (r matches Err(R12ContractError::LimitExceeded { limit, maximum, observed })
            && limit@ == "portable_graph_bytes"@ && maximum == MAX_R12_PORTABLE_GRAPH_BYTES
            && observed == length),
{
    let observed = length as u64;
    if observed > MAX_R12_PORTABLE_GRAPH_BYTES {
        return Err(
            R12ContractError::LimitExceeded {
                limit: "portable_graph_bytes",
                maximum: MAX_R12_PORTABLE_GRAPH_BYTES,
                observed,
            },
        );
    }
    Ok(())
}

/// A value entered at `depth` is accepted exactly when no member lies deeper
/// than [`MAX_R12_JSON_NESTING`]; the error reports the first depth observed
/// above the maximum.
pub fn ensure_nesting(value: &Json, depth: u64) -> (r: Result<(), R12ContractError>)
    ensures
        r is Ok <==> depth + height(*value) <= MAX_R12_JSON_NESTING,
        r is Err ==> (r matches Err(R12ContractError::LimitExceeded { limit, maximum, observed })
            && limit@ == "json_nesting"@ && maximum == MAX_R12_JSON_NESTING && observed == if depth
            > MAX_R12_JSON_NESTING {
            depth
        } else {
            (MAX_R12_JSON_NESTING + 1) as u64
        }),
{
    match crate::json::nesting_within(value, depth, MAX_R12_JSON_NESTING) {
        Ok(()) => Ok(()),
        Err(observed) => Err(
            R12ContractError::LimitExceeded {
                limit: "json_nesting",
                maximum: MAX_R12_JSON_NESTING,
                observed,
            },
        ),
    }
}

/// Member names that an R12 portable payload never holds.
pub open spec fn r12_private_fields() -> Seq<Seq<char>> {
    seq![
        "body_text"@,
        "expression_text"@,
        "initializer_text"@,
        "source_contents"@,
        "source_snippet"@,
        "repository_root"@,
        "absolute_path"@,
        "raw_url"@,
        "credentials"@,
        "environment"@,
        "telemetry"@,
    ]
}

/// A payload is accepted exactly when it holds no private member name.
pub fn validate_private_fields(value: &Json) -> (r: Result<(), R12ContractError>)
    ensures
        r is Ok <==> first_finding(*value, r12_private_fields(), false) is None,
        first_finding(*value, r12_private_fields(), false) matches Some(FindingView::DeniedField(_))
            ==> (r matches Err(R12ContractError::UnsafePayload { reason }) && reason@ == "private_field"@),
        first_finding(*value, r12_private_fields(), false) matches Some(FindingView::Url)
            ==> (r matches Err(R12ContractError::UnsafePayload { reason }) && reason@ == "raw_url"@),
{
    let denied = [
        "body_text",
        "expression_text",
        "initializer_text",
        "source_contents",
        "source_snippet",
        "repository_root",
        "absolute_path",
        "raw_url",
        "credentials",
        "environment",
        "telemetry",
    ];
    assert(names_view(denied@) =~= r12_private_fields());
    match find_unsafe(value, &denied, false) {
        None => Ok(()),
        Some(crate::json::Finding::DeniedField(_)) => Err(
            R12ContractError::UnsafePayload { reason: "private_field" },
        ),
        Some(crate::json::Finding::Url) => Err(R12ContractError::UnsafePayload { reason: "raw_url" }),
    }
}

/// Repository-relative output paths of the portable graph
/// ([`safe_relative_path_rule`]).
pub fn safe_relative_path(value: &str) -> (r: bool)
    ensures
        r == safe_relative_path_rule(value@),
{
    safe_relative_path_text(value)
}

/// The `id` of a record (`value.get("id").and_then(Value::as_str)`).
pub fn record_id(value: &Json) -> (r: Option<&str>)
    ensures
        match r {
            Some(t) => member_text(*value, "id"@) == Some(t@),
            None => member_text(*value, "id"@) is None,
        },
{
    value.get_str("id")
}

/// The first `maximum` scalars of `value`.
pub fn bounded(value: &str, maximum: usize) -> (r: String)
    ensures
        r@ == take_scalars(value@, maximum as nat),
{
    bounded_text(value, maximum)
}

/// Relationship kinds of the K1 callable layer.
pub open spec fn k1_kinds() -> Seq<Seq<char>> {
    seq!["HAS_SIGNATURE"@, "HAS_PARAMETER"@, "DECLARES_VALUE"@, "HAS_BODY_FACT"@, "CALLS"@]
}

/// Entity kinds of the K1 callable layer.
pub open spec fn k1_entity_kinds() -> Seq<Seq<char>> {
    seq![
        "rust.callable_signature"@,
        "rust.parameter"@,
        "rust.declared_value"@,
        "rust.local_binding"@,
        "rust.call_site"@,
        "rust.control"@,
    ]
}

/// Whether `kind` is a K1 relationship kind.
pub fn is_k1_kind(kind: &str) -> (r: bool)
    ensures
        r == one_of(kind@, k1_kinds()),
{
    let kinds = ["HAS_SIGNATURE", "HAS_PARAMETER", "DECLARES_VALUE", "HAS_BODY_FACT", "CALLS"];
    assert(patterns_view(kinds@) =~= k1_kinds());
    text_one_of(kind, &kinds)
}

/// Whether `kind` is a K1 entity kind.
pub fn is_k1_entity_kind(kind: &str) -> (r: bool)
    ensures
        r == one_of(kind@, k1_entity_kinds()),
{
    let kinds = [
        "rust.callable_signature",
        "rust.parameter",
        "rust.declared_value",
        "rust.local_binding",
        "rust.call_site",
        "rust.control",
    ];
    assert(patterns_view(kinds@) =~= k1_entity_kinds());
    text_one_of(kind, &kinds)
}

/// Whether every identifier is strictly greater than the one before it.
pub fn strictly_ordered(values: &[&str]) -> (r: bool)
    ensures
        r == strictly_increasing(patterns_view(values@)),
{
    texts_strictly_increasing(values)
}


/// The first record, left to right, whose `path` is a text that is not a
/// safe relative path.
pub open spec fn boundary_paths_fault(records: Seq<Json>) -> Option<Seq<char>>
    decreases records.len(),
{
    if records.len() == 0 {
        None
    } else if member_text(records[0], "path"@) matches Some(path) && !safe_relative_path_rule(path) {
        member_text(records[0], "path"@)
    } else {
        boundary_paths_fault(records.drop_first())
    }
}

/// The record families of a repository-boundary projection, in the order
/// their paths are checked.
pub open spec fn boundary_families() -> Seq<Seq<char>> {
    seq!["boundaries"@, "declarations"@, "coverage_gaps"@, "evidence"@]
}

/// What is wrong with a repository-boundary projection: `null` is none; an
/// object must declare the boundary schema and profile and hold the four
/// record families as arrays (else `Malformed`); the first record path that
/// is not a safe relative path is `Offending`.
pub open spec fn boundary_projection_fault(value: Json) -> Option<FaultView> {
    if value is Null {
        None
    } else if member_text(value, "schema_version"@) != Some("codenoesis.repository-boundaries/v1"@)
        || member_text(value, "profile"@) != Some("local-gitlinks-v1"@) {
        Some(FaultView::Malformed)
    } else {
        boundary_families_fault(value, boundary_families())
    }
}

/// The first fault of the boundary families `families` of `value`.
pub open spec fn boundary_families_fault(value: Json, families: Seq<Seq<char>>) -> Option<FaultView>
    decreases families.len(),
{
    if families.len() == 0 {
        None
    } else {
        match member_items(value, families[0]) {
            None => Some(FaultView::Malformed),
            Some(records) => match boundary_paths_fault(records) {
                Some(path) => Some(FaultView::Offending(path)),
                None => boundary_families_fault(value, families.drop_first()),
            },
        }
    }
}

/// Validates a repository-boundary projection ([`boundary_projection_fault`]):
/// a malformed one is `InvalidProjection`, an unsafe path
/// `UnsafePayload` (`unsafe_boundary_path`).
pub fn validate_boundary_projection(value: &Json) -> (r: Result<(), R12ContractError>)
    ensures
        match boundary_projection_fault(*value) {
            None => r is Ok,
            Some(FaultView::Malformed) => r matches Err(R12ContractError::InvalidProjection),
            Some(FaultView::Offending(_)) => r matches Err(R12ContractError::UnsafePayload { reason })
                && reason@ == "unsafe_boundary_path"@,
        },
{
    if value.is_null() {
        return Ok(());
    }
    let schema_ok = match value.get_str("schema_version") {
        Some(t) => crate::text::text_eq(t, "codenoesis.repository-boundaries/v1"),
        None => false,
    };
    let profile_ok = match value.get_str("profile") {
        Some(t) => crate::text::text_eq(t, "local-gitlinks-v1"),
        None => false,
    };
    if !schema_ok || !profile_ok {
        return Err(R12ContractError::InvalidProjection);
    }
    let families = ["boundaries", "declarations", "coverage_gaps", "evidence"];
    assert(names_view(families@) =~= boundary_families());
    let ghost fams = boundary_families();
    let mut f: usize = 0;
    assert(fams.skip(0) =~= fams);
    while f < 4
        invariant
            f <= 4,
            fams == boundary_families(),
            names_view(families@) == fams,
            boundary_projection_fault(*value) == boundary_families_fault(*value, fams.skip(f as int)),
        decreases 4 - f,
    {
        assert(fams.skip(f as int)[0] == families@[f as int]@);
        assert(fams.skip(f as int).drop_first() =~= fams.skip(f + 1));
        let records = match value.get_array(families[f]) {
            Some(v) => v,
            None => return Err(R12ContractError::InvalidProjection),
        };
        let mut k: usize = 0;
        assert(records@.skip(0) =~= records@);
        while k < records.len()
            invariant
                k <= records.len(),
                f < 4,
                fams.skip(f as int).len() > 0,
                member_items(*value, fams.skip(f as int)[0]) == Some(records@),
                boundary_projection_fault(*value) == boundary_families_fault(*value, fams.skip(f as int)),
                boundary_paths_fault(records@) == boundary_paths_fault(records@.skip(k as int)),
            decreases records.len() - k,
        {
            assert(records@.skip(k as int)[0] == records@[k as int]);
            assert(records@.skip(k as int).drop_first() =~= records@.skip(k + 1));
            match records[k].get_str("path") {
                Some(path) => if !safe_relative_path(path) {
                    return Err(R12ContractError::UnsafePayload { reason: "unsafe_boundary_path" });
                },
                None => {},
            }
            k += 1;
        }
        f += 1;
    }
    Ok(())
}


/// The texts under `field` of each of `records`, in order, when every record
/// has one.
pub open spec fn field_texts(records: Seq<Json>, field: Seq<char>) -> Option<Seq<Seq<char>>>
    decreases records.len(),
{
    if records.len() == 0 {
        Some(Seq::empty())
    } else {
        match (member_text(records.last(), field), field_texts(records.drop_last(), field)) {
            (Some(t), Some(rest)) => Some(rest.push(t)),
            _ => None,
        }
    }
}

fn field_texts_exec(records: &[Json], field: &str, out: &mut Vec<String>) -> (ok: bool)
    ensures
        ok <==> field_texts(records@, field@) is Some,
        ok ==> crate::portable::texts(final(out)@) == crate::portable::texts(old(out)@) + field_texts(records@, field@)->Some_0,
{
    let ghost start = crate::portable::texts(out@);
    let mut k: usize = 0;
    while k < records.len()
        invariant
            k <= records.len(),
            field_texts(records@.take(k as int), field@) is Some,
            crate::portable::texts(out@) == start + field_texts(records@.take(k as int), field@)->Some_0,
        decreases records.len() - k,
    {
        assert(records@.take(k + 1).drop_last() =~= records@.take(k as int));
        assert(records@.take(k + 1).last() == records@[k as int]);
        let t = match records[k].get_str(field) {
            Some(t) => t,
            None => {
                proof {
                    lemma_field_texts_prefix(records@, field@, k + 1);
                }
                return false;
            },
        };
        let ghost before = out@;
        out.push(t.to_owned());
        proof {
            assert(crate::portable::texts(out@) =~= crate::portable::texts(before).push(t@));
        }
        k += 1;
    }
    assert(records@.take(k as int) =~= records@);
    true
}

/// A list whose prefix lacks a field text lacks one too.
proof fn lemma_field_texts_prefix(records: Seq<Json>, field: Seq<char>, n: int)
    requires
        0 <= n <= records.len(),
        field_texts(records.take(n), field) is None,
    ensures
        field_texts(records, field) is None,
    decreases records.len(),
{
    if n < records.len() {
        assert(records.drop_last().take(n) =~= records.take(n));
        lemma_field_texts_prefix(records.drop_last(), field, n);
    } else {
        assert(records.take(n) =~= records);
    }
}

/// The identifiers a repository-boundary projection contributes to document
/// statements: as subjects, those of its boundaries, declarations, evidence
/// and coverage gaps; as evidence, those of its evidence; as coverage gaps,
/// those of its coverage gaps. `null` contributes none; anything but an
/// object whose four families are arrays of identified records is refused.
pub open spec fn boundary_reference_ids(value: Json) -> Option<(Seq<Seq<char>>, Seq<Seq<char>>, Seq<Seq<char>>)> {
    if value is Null {
        Some((Seq::empty(), Seq::empty(), Seq::empty()))
    } else if !(value is Object) {
        None
    } else {
        match (
            member_items(value, "boundaries"@),
            member_items(value, "declarations"@),
            member_items(value, "evidence"@),
            member_items(value, "coverage_gaps"@),
        ) {
            (Some(b), Some(d), Some(e), Some(g)) => match (
                field_texts(b, "boundary_id"@),
                field_texts(d, "declaration_id"@),
                field_texts(e, "evidence_id"@),
                field_texts(g, "gap_id"@),
            ) {
                (Some(bi), Some(di), Some(ei), Some(gi)) => Some((bi + di + ei + gi, ei, gi)),
                _ => None,
            },
            _ => None,
        }
    }
}

/// The identifiers a repository-boundary projection contributes
/// ([`boundary_reference_ids`]): subjects, evidence and coverage gaps; a
/// malformed projection is `InvalidProjection`.
pub fn boundary_document_reference_ids(value: &Json) -> (r: Result<(Vec<String>, Vec<String>, Vec<String>), R12ContractError>)
    ensures
        match boundary_reference_ids(*value) {
            Some((s, e, g)) => r matches Ok((sv, ev, gv)) && crate::portable::texts(sv@) == s
                && crate::portable::texts(ev@) == e && crate::portable::texts(gv@) == g,
            None => r matches Err(R12ContractError::InvalidProjection),
        },
{
    let mut subjects: Vec<String> = Vec::new();
    let mut evidence: Vec<String> = Vec::new();
    let mut coverage: Vec<String> = Vec::new();
    if value.is_null() {
        assert(crate::portable::texts(subjects@) =~= Seq::<Seq<char>>::empty());
        return Ok((subjects, evidence, coverage));
    }
    if value.as_object().is_none() {
        return Err(R12ContractError::InvalidProjection);
    }
    let (b, d, e, g) = match (
        value.get_array("boundaries"),
        value.get_array("declarations"),
        value.get_array("evidence"),
        value.get_array("coverage_gaps"),
    ) {
        (Some(b), Some(d), Some(e), Some(g)) => (b, d, e, g),
        _ => return Err(R12ContractError::InvalidProjection),
    };
    assert(crate::portable::texts(subjects@) =~= Seq::<Seq<char>>::empty());
    assert(crate::portable::texts(evidence@) =~= Seq::<Seq<char>>::empty());
    assert(crate::portable::texts(coverage@) =~= Seq::<Seq<char>>::empty());
    if !field_texts_exec(b.as_slice(), "boundary_id", &mut subjects) || !field_texts_exec(
        d.as_slice(),
        "declaration_id",
        &mut subjects,
    ) || !field_texts_exec(e.as_slice(), "evidence_id", &mut subjects) || !field_texts_exec(
        g.as_slice(),
        "gap_id",
        &mut subjects,
    ) {
        return Err(R12ContractError::InvalidProjection);
    }
    let ok_e = field_texts_exec(e.as_slice(), "evidence_id", &mut evidence);
    let ok_g = field_texts_exec(g.as_slice(), "gap_id", &mut coverage);
    if !ok_e || !ok_g {
        return Err(R12ContractError::InvalidProjection);
    }
    proof {
        assert(Seq::<Seq<char>>::empty() + field_texts(e@, "evidence_id"@)->Some_0 =~= field_texts(e@, "evidence_id"@)->Some_0);
        assert(Seq::<Seq<char>>::empty() + field_texts(g@, "gap_id"@)->Some_0 =~= field_texts(g@, "gap_id"@)->Some_0);
        assert(Seq::<Seq<char>>::empty() + field_texts(b@, "boundary_id"@)->Some_0 =~= field_texts(b@, "boundary_id"@)->Some_0);
    }
    Ok((subjects, evidence, coverage))
}


impl R12ContractError {
    /// The error as the contracts see it.
    pub open spec fn fault(self) -> crate::s4_r13::PortableFault {
        match self {
            R12ContractError::InvalidSnapshot => crate::s4_r13::PortableFault::InvalidSnapshot,
            R12ContractError::LimitExceeded { limit, maximum, observed } => crate::s4_r13::PortableFault::LimitExceeded {
                limit: limit@,
                maximum,
                observed,
            },
            R12ContractError::UnsafePayload { reason } => crate::s4_r13::PortableFault::UnsafePayload(reason@),
            R12ContractError::InvalidProjection => crate::s4_r13::PortableFault::InvalidProjection,
            R12ContractError::UnsupportedPortableGraphSchema(s) => crate::s4_r13::PortableFault::UnsupportedPortableGraphSchema(
                s@,
            ),
            R12ContractError::IdentityConflict { family, id } => crate::s4_r13::PortableFault::IdentityConflict(
                family@,
                id@,
            ),
            R12ContractError::ReferenceMismatch { family, id } => crate::s4_r13::PortableFault::ReferenceMismatch(
                family@,
                id@,
            ),
            _ => crate::s4_r13::PortableFault::Other,
        }
    }
}

/// An R13 reference or path error, raised by the shared portable checks, as
/// an R15 error.
fn from_r13(e: crate::s4_r13::R13ContractError) -> (r: R12ContractError)
    ensures
        r.fault() == e.fault(),
{
    match e {
        crate::s4_r13::R13ContractError::InvalidSnapshot => R12ContractError::InvalidSnapshot,
        crate::s4_r13::R13ContractError::UnsupportedSnapshotSchema(s) => R12ContractError::UnsupportedSnapshotSchema(s),
        crate::s4_r13::R13ContractError::UnsupportedPortableGraphSchema(s) => R12ContractError::UnsupportedPortableGraphSchema(
            s,
        ),
        crate::s4_r13::R13ContractError::Noncanonical { expected_sha256, observed_sha256 } => R12ContractError::Noncanonical {
            expected_sha256,
            observed_sha256,
        },
        crate::s4_r13::R13ContractError::IdentityConflict { family, id } => R12ContractError::IdentityConflict {
            family,
            id,
        },
        crate::s4_r13::R13ContractError::ReferenceMismatch { family, id } => R12ContractError::ReferenceMismatch {
            family,
            id,
        },
        crate::s4_r13::R13ContractError::LimitExceeded { limit, maximum, observed } => R12ContractError::LimitExceeded {
            limit,
            maximum,
            observed,
        },
        crate::s4_r13::R13ContractError::UnsafePayload { reason } => R12ContractError::UnsafePayload { reason },
        crate::s4_r13::R13ContractError::AssetIntegrityMismatch => R12ContractError::AssetIntegrityMismatch,
        crate::s4_r13::R13ContractError::InvalidProjection => R12ContractError::InvalidProjection,
        crate::s4_r13::R13ContractError::Internal => R12ContractError::Internal,
    }
}


fn checked_r13(r: Result<(), crate::s4_r13::R13ContractError>) -> (res: Result<(), R12ContractError>)
    ensures
        r is Ok ==> res is Ok,
        r is Err ==> res is Err && res->Err_0.fault() == r->Err_0.fault(),
{
    match r {
        Ok(()) => Ok(()),
        Err(e) => Err(from_r13(e)),
    }
}

/// The identifiers of an R12 family scanned from `items`, given the
/// previous identifier and those seen so far: each must be a non-empty text
/// (else `Malformed`) above the previous one; one that is not is `Offending`
/// when it repeats an identifier already seen and `Malformed` otherwise.
pub open spec fn r12_family_scan(
    items: Seq<Json>,
    id_field: Seq<char>,
    previous: Option<Seq<char>>,
    seen: Seq<Seq<char>>,
) -> Result<Seq<Seq<char>>, FaultView>
    decreases items.len(),
{
    if items.len() == 0 {
        Ok(Seq::empty())
    } else {
        match member_text(items[0], id_field) {
            None => Err(FaultView::Malformed),
            Some(id) => if id.len() == 0 {
                Err(FaultView::Malformed)
            } else if previous matches Some(p) && !crate::text::text_lt(p, id) {
                if seen.contains(id) {
                    Err(FaultView::Offending(id))
                } else {
                    Err(FaultView::Malformed)
                }
            } else {
                match r12_family_scan(items.drop_first(), id_field, Some(id), seen.push(id)) {
                    Ok(rest) => Ok(seq![id] + rest),
                    Err(f) => Err(f),
                }
            },
        }
    }
}

/// An R12 family check as a portable outcome: the family's identifiers, or
/// why it is refused (a missing family is `InvalidProjection`, a repeated
/// identifier `IdentityConflict`, any other disorder `InvalidProjection`).
pub open spec fn r12_family_step(value: Json, family: Seq<char>, id_field: Seq<char>) -> Result<
    Seq<Seq<char>>,
    crate::s4_r13::PortableFault,
> {
    match member_items(value, family) {
        None => Err(crate::s4_r13::PortableFault::InvalidProjection),
        Some(items) => match r12_family_scan(items, id_field, None, Seq::empty()) {
            Ok(ids) => Ok(ids),
            Err(FaultView::Malformed) => Err(crate::s4_r13::PortableFault::InvalidProjection),
            Err(FaultView::Offending(id)) => Err(crate::s4_r13::PortableFault::IdentityConflict(family, id)),
        },
    }
}

/// Checks an R12 family ([`r12_family_step`]) and returns its identifiers.
pub fn r12_family(object: &Json, family: &'static str, id_field: &'static str) -> (r: Result<
    Vec<String>,
    R12ContractError,
>)
    ensures
        r is Err ==> !(r->Err_0.fault() is Other),
        match r12_family_step(*object, family@, id_field@) {
            Ok(ids) => r matches Ok(v) && crate::portable::texts(v@) == ids,
            Err(f) => r is Err && r->Err_0.fault() == f,
        },
        r is Ok ==> member_items(*object, family@) is Some,
{
    let items = match object.get_array(family) {
        Some(v) => v,
        None => return Err(R12ContractError::InvalidProjection),
    };
    let ghost all = items@;
    let mut ids: Vec<String> = Vec::new();
    let mut previous: Option<&str> = None;
    let mut k: usize = 0;
    assert(all.skip(0) =~= all);
    assert(crate::portable::texts(ids@) =~= Seq::<Seq<char>>::empty());
    while k < items.len()
        invariant
            k <= items.len(),
            all == items@,
            member_items(*object, family@) == Some(all),
            r12_family_scan(all, id_field@, None, Seq::empty()) == match r12_family_scan(
                all.skip(k as int),
                id_field@,
                match previous {
                    Some(p) => Some(p@),
                    None => None,
                },
                crate::portable::texts(ids@),
            ) {
                Ok(rest) => Ok(crate::portable::texts(ids@) + rest),
                Err(f) => Err(f),
            },
        decreases items.len() - k,
    {
        assert(all.skip(k as int)[0] == all[k as int]);
        assert(all.skip(k as int).drop_first() =~= all.skip(k + 1));
        let id = match items[k].get_str(id_field) {
            Some(t) => t,
            None => return Err(R12ContractError::InvalidProjection),
        };
        if id.is_empty() {
            return Err(R12ContractError::InvalidProjection);
        }
        let out_of_order = match previous {
            Some(p) => !crate::text::text_less(p, id),
            None => false,
        };
        if out_of_order {
            if crate::portable::contains_text(ids.as_slice(), id) {
                return Err(R12ContractError::IdentityConflict { family, id: id.to_owned() });
            }
            return Err(R12ContractError::InvalidProjection);
        }
        let ghost before = crate::portable::texts(ids@);
        ids.push(id.to_owned());
        proof {
            assert(crate::portable::texts(ids@) =~= before.push(id@));
            let rest = r12_family_scan(all.skip(k + 1), id_field@, Some(id@), before.push(id@));
            match rest {
                Ok(tail) => {
                    assert(before + (seq![id@] + tail) =~= before.push(id@) + tail);
                },
                Err(_) => {},
            }
        }
        previous = Some(id);
        k += 1;
    }
    assert(crate::portable::texts(ids@) + Seq::<Seq<char>>::empty() =~= crate::portable::texts(ids@));
    Ok(ids)
}


/// What is wrong with an optional reference: absent or `null` is none; a
/// value that is not text is `Malformed`; an unknown identifier is
/// `Offending`.
pub open spec fn optional_reference_fault(value: Option<Json>, ids: Seq<Seq<char>>) -> Option<FaultView> {
    match value {
        None => None,
        Some(v) => if v is Null {
            None
        } else {
            match crate::json::as_text(v) {
                None => Some(FaultView::Malformed),
                Some(t) => if ids.contains(t) {
                    None
                } else {
                    Some(FaultView::Offending(t))
                },
            }
        },
    }
}

fn optional_reference(value: Option<&Json>, ids: &[String]) -> (r: Option<crate::portable::Fault>)
    ensures
        crate::portable::fault_opt(r) == optional_reference_fault(
            match value {
                Some(v) => Some(*v),
                None => None,
            },
            crate::portable::texts(ids@),
        ),
{
    match value {
        None => None,
        Some(v) => if v.is_null() {
            None
        } else {
            match v.as_str() {
                None => Some(crate::portable::Fault::Malformed),
                Some(t) => if crate::portable::contains_text(ids, t) {
                    None
                } else {
                    Some(crate::portable::Fault::Offending(t.to_owned()))
                },
            }
        },
    }
}

/// The first fault of the optional references under `fields` of `record`.
pub open spec fn optional_references_fault(record: Json, fields: Seq<Seq<char>>, ids: Seq<Seq<char>>) -> Option<
    FaultView,
>
    decreases fields.len(),
{
    if fields.len() == 0 {
        None
    } else {
        match optional_reference_fault(crate::json::member(record, fields[0]), ids) {
            Some(f) => Some(f),
            None => optional_references_fault(record, fields.drop_first(), ids),
        }
    }
}

fn optional_references(record: &Json, fields: &[&str], ids: &[String]) -> (r: Option<crate::portable::Fault>)
    ensures
        crate::portable::fault_opt(r) == optional_references_fault(
            *record,
            names_view(fields@),
            crate::portable::texts(ids@),
        ),
{
    let ghost names = names_view(fields@);
    let mut k: usize = 0;
    assert(names.skip(0) =~= names);
    while k < fields.len()
        invariant
            k <= fields.len(),
            names == names_view(fields@),
            optional_references_fault(*record, names, crate::portable::texts(ids@)) == optional_references_fault(
                *record,
                names.skip(k as int),
                crate::portable::texts(ids@),
            ),
        decreases fields.len() - k,
    {
        assert(names.skip(k as int)[0] == fields@[k as int]@);
        assert(names.skip(k as int).drop_first() =~= names.skip(k + 1));
        match optional_reference(record.get(fields[k]), ids) {
            Some(f) => return Some(f),
            None => {},
        }
        k += 1;
    }
    None
}

/// The first fault of an ordered reference list: each item must be text
/// (else `Malformed`), above the previous one and known (else `Offending`).
pub open spec fn ordered_references_fault(items: Seq<Json>, previous: Option<Seq<char>>, ids: Seq<Seq<char>>) -> Option<
    FaultView,
>
    decreases items.len(),
{
    if items.len() == 0 {
        None
    } else {
        match crate::json::as_text(items[0]) {
            None => Some(FaultView::Malformed),
            Some(t) => if (previous matches Some(p) && !crate::text::text_lt(p, t)) || !ids.contains(t) {
                Some(FaultView::Offending(t))
            } else {
                ordered_references_fault(items.drop_first(), Some(t), ids)
            },
        }
    }
}

fn ordered_references(value: &Json, ids: &[String]) -> (r: Option<crate::portable::Fault>)
    ensures
        crate::portable::fault_opt(r) == match crate::json::as_items(*value) {
            None => Some(FaultView::Malformed),
            Some(items) => ordered_references_fault(items, None, crate::portable::texts(ids@)),
        },
{
    let items = match value.as_array() {
        Some(v) => v,
        None => return Some(crate::portable::Fault::Malformed),
    };
    let mut previous: Option<&str> = None;
    let mut k: usize = 0;
    assert(items@.skip(0) =~= items@);
    while k < items.len()
        invariant
            k <= items.len(),
            crate::json::as_items(*value) == Some(items@),
            ordered_references_fault(items@, None, crate::portable::texts(ids@)) == ordered_references_fault(
                items@.skip(k as int),
                match previous {
                    Some(p) => Some(p@),
                    None => None,
                },
                crate::portable::texts(ids@),
            ),
        decreases items.len() - k,
    {
        assert(items@.skip(k as int)[0] == items@[k as int]);
        assert(items@.skip(k as int).drop_first() =~= items@.skip(k + 1));
        let t = match items[k].as_str() {
            Some(t) => t,
            None => return Some(crate::portable::Fault::Malformed),
        };
        let out_of_order = match previous {
            Some(p) => !crate::text::text_less(p, t),
            None => false,
        };
        if out_of_order || !crate::portable::contains_text(ids, t) {
            return Some(crate::portable::Fault::Offending(t.to_owned()));
        }
        previous = Some(t);
        k += 1;
    }
    None
}

/// The entity fields that name entities.
pub open spec fn entity_reference_fields() -> Seq<Seq<char>> {
    seq!["crate_id"@, "owner_id"@, "source_file_id"@, "subject_id"@, "trait_context_id"@]
}

/// The property fields that name entities.
pub open spec fn property_entity_fields() -> Seq<Seq<char>> {
    seq![
        "manifest_id"@,
        "materialized_crate_id"@,
        "owner_id"@,
        "package_id"@,
        "parent_fact_id"@,
        "resolved_target_id"@,
        "source_entity_id"@,
        "source_file_id"@,
        "trait_context_id"@,
        "workspace_reference_id"@,
    ]
}

/// The property fields that name evidence.
pub open spec fn property_evidence_fields() -> Seq<Seq<char>> {
    seq!["body_evidence_id"@, "declaration_evidence_id"@, "evidence_id"@]
}

/// The first attribute, in order, whose evidence reference is wrong.
pub open spec fn attributes_fault(attributes: Seq<Json>, evidence: Seq<Seq<char>>) -> Option<FaultView>
    decreases attributes.len(),
{
    if attributes.len() == 0 {
        None
    } else {
        match optional_reference_fault(crate::json::member(attributes[0], "evidence_id"@), evidence) {
            Some(f) => Some(f),
            None => attributes_fault(attributes.drop_first(), evidence),
        }
    }
}

/// What is wrong with the references of one entity, in the order they are
/// checked: its own entity fields; its properties, which must be present;
/// their entity and evidence fields; its declaration alternatives, an
/// ordered list of entities; and the evidence of its attributes.
pub open spec fn entity_references_fault(entity: Json, entities: Seq<Seq<char>>, evidence: Seq<Seq<char>>) -> Option<
    FaultView,
> {
    match optional_references_fault(entity, entity_reference_fields(), entities) {
        Some(f) => Some(f),
        None => match crate::json::member(entity, "properties"@) {
            None => Some(FaultView::Malformed),
            Some(properties) => match optional_references_fault(properties, property_entity_fields(), entities) {
                Some(f) => Some(f),
                None => match optional_references_fault(properties, property_evidence_fields(), evidence) {
                    Some(f) => Some(f),
                    None => match match crate::json::member(properties, "declaration_alternative_ids"@) {
                        None => None,
                        Some(alternatives) => match crate::json::as_items(alternatives) {
                            None => Some(FaultView::Malformed),
                            Some(items) => ordered_references_fault(items, None, entities),
                        },
                    } {
                        Some(f) => Some(f),
                        None => match crate::json::member(properties, "attributes"@) {
                            None => None,
                            Some(attributes) => match crate::json::as_items(attributes) {
                                None => Some(FaultView::Malformed),
                                Some(items) => attributes_fault(items, evidence),
                            },
                        },
                    },
                },
            },
        },
    }
}

/// Checks the references of one entity ([`entity_references_fault`]).
pub fn validate_entity_references(entity: &Json, entity_ids: &[String], evidence_ids: &[String]) -> (r: Option<
    crate::portable::Fault,
>)
    ensures
        crate::portable::fault_opt(r) == entity_references_fault(
            *entity,
            crate::portable::texts(entity_ids@),
            crate::portable::texts(evidence_ids@),
        ),
{
    let own = ["crate_id", "owner_id", "source_file_id", "subject_id", "trait_context_id"];
    assert(names_view(own@) =~= entity_reference_fields());
    match optional_references(entity, &own, entity_ids) {
        Some(f) => return Some(f),
        None => {},
    }
    let properties = match entity.get("properties") {
        Some(p) => p,
        None => return Some(crate::portable::Fault::Malformed),
    };
    let named = [
        "manifest_id",
        "materialized_crate_id",
        "owner_id",
        "package_id",
        "parent_fact_id",
        "resolved_target_id",
        "source_entity_id",
        "source_file_id",
        "trait_context_id",
        "workspace_reference_id",
    ];
    assert(names_view(named@) =~= property_entity_fields());
    match optional_references(properties, &named, entity_ids) {
        Some(f) => return Some(f),
        None => {},
    }
    let evidential = ["body_evidence_id", "declaration_evidence_id", "evidence_id"];
    assert(names_view(evidential@) =~= property_evidence_fields());
    match optional_references(properties, &evidential, evidence_ids) {
        Some(f) => return Some(f),
        None => {},
    }
    match properties.get("declaration_alternative_ids") {
        Some(alternatives) => match ordered_references(alternatives, entity_ids) {
            Some(f) => return Some(f),
            None => {},
        },
        None => {},
    }
    match properties.get("attributes") {
        Some(attributes) => {
            let items = match attributes.as_array() {
                Some(v) => v,
                None => return Some(crate::portable::Fault::Malformed),
            };
            let mut k: usize = 0;
            assert(items@.skip(0) =~= items@);
            assert(entity_references_fault(
                *entity,
                crate::portable::texts(entity_ids@),
                crate::portable::texts(evidence_ids@),
            ) == attributes_fault(items@, crate::portable::texts(evidence_ids@)));
            while k < items.len()
                invariant
                    k <= items.len(),
                    entity_references_fault(
                        *entity,
                        crate::portable::texts(entity_ids@),
                        crate::portable::texts(evidence_ids@),
                    ) == attributes_fault(items@, crate::portable::texts(evidence_ids@)),
                    attributes_fault(items@, crate::portable::texts(evidence_ids@)) == attributes_fault(
                        items@.skip(k as int),
                        crate::portable::texts(evidence_ids@),
                    ),
                decreases items.len() - k,
            {
                assert(items@.skip(k as int)[0] == items@[k as int]);
                assert(items@.skip(k as int).drop_first() =~= items@.skip(k + 1));
                match optional_reference(items[k].get("evidence_id"), evidence_ids) {
                    Some(f) => return Some(f),
                    None => {},
                }
                k += 1;
            }
            None
        },
        None => None,
    }
}


/// What is wrong with one R12 claim: it must name its subject and the
/// subject's kind (else `InvalidProjection`), the subject must be an entity
/// or relationship of that kind (else `ReferenceMismatch`), and its evidence
/// must be known.
pub open spec fn r12_claim_fault(
    c: Json,
    entities: Seq<Seq<char>>,
    relationships: Seq<Seq<char>>,
    evidence: Seq<Seq<char>>,
) -> Option<crate::s4_r13::PortableFault> {
    match (member_text(c, "subject_id"@), member_text(c, "subject_kind"@)) {
        (Some(subject), Some(kind)) => if (kind == "entity"@ && entities.contains(subject)) || (kind
            == "relationship"@ && relationships.contains(subject)) {
            crate::s4_r13::reference_fault_of(
                crate::portable::reference_list_outcome(c, "evidence_ids"@, evidence),
                "claims"@,
            )
        } else {
            Some(crate::s4_r13::PortableFault::ReferenceMismatch("claims"@, subject))
        },
        _ => Some(crate::s4_r13::PortableFault::InvalidProjection),
    }
}

/// The first R12 claim fault, in order.
pub open spec fn r12_claims_fault(
    cs: Seq<Json>,
    entities: Seq<Seq<char>>,
    relationships: Seq<Seq<char>>,
    evidence: Seq<Seq<char>>,
) -> Option<crate::s4_r13::PortableFault>
    decreases cs.len(),
{
    if cs.len() == 0 {
        None
    } else {
        crate::s4_r13::first_of(
            r12_claim_fault(cs[0], entities, relationships, evidence),
            r12_claims_fault(cs.drop_first(), entities, relationships, evidence),
        )
    }
}

fn reference_error_r12(fault: Option<crate::portable::Fault>, family: &'static str) -> (r: Result<(), R12ContractError>)
    ensures
        r is Err ==> !(r->Err_0.fault() is Other),
        match crate::s4_r13::reference_fault_of(crate::portable::fault_opt(fault), family@) {
            None => r is Ok,
            Some(f) => r is Err && r->Err_0.fault() == f,
        },
{
    match fault {
        None => Ok(()),
        Some(crate::portable::Fault::Malformed) => Err(R12ContractError::InvalidProjection),
        Some(crate::portable::Fault::Offending(id)) => Err(R12ContractError::ReferenceMismatch { family, id }),
    }
}

fn r12_claims(cs: &[Json], entity_ids: &[String], relationship_ids: &[String], evidence_ids: &[String]) -> (r:
    Result<(), R12ContractError>)
    ensures
        r is Err ==> !(r->Err_0.fault() is Other),
        match r12_claims_fault(
            cs@,
            crate::portable::texts(entity_ids@),
            crate::portable::texts(relationship_ids@),
            crate::portable::texts(evidence_ids@),
        ) {
            None => r is Ok,
            Some(f) => r is Err && r->Err_0.fault() == f,
        },
{
    let ghost es = crate::portable::texts(entity_ids@);
    let ghost rs = crate::portable::texts(relationship_ids@);
    let ghost evs = crate::portable::texts(evidence_ids@);
    let mut k: usize = 0;
    assert(cs@.skip(0) =~= cs@);
    while k < cs.len()
        invariant
            k <= cs.len(),
            es == crate::portable::texts(entity_ids@),
            rs == crate::portable::texts(relationship_ids@),
            evs == crate::portable::texts(evidence_ids@),
            r12_claims_fault(cs@, es, rs, evs) == r12_claims_fault(cs@.skip(k as int), es, rs, evs),
        decreases cs.len() - k,
    {
        assert(cs@.skip(k as int)[0] == cs@[k as int]);
        assert(cs@.skip(k as int).drop_first() =~= cs@.skip(k + 1));
        let subject = match cs[k].get_str("subject_id") {
            Some(t) => t,
            None => return Err(R12ContractError::InvalidProjection),
        };
        let kind = match cs[k].get_str("subject_kind") {
            Some(t) => t,
            None => return Err(R12ContractError::InvalidProjection),
        };
        let valid = if crate::text::text_eq(kind, "entity") {
            crate::portable::contains_text(entity_ids, subject)
        } else if crate::text::text_eq(kind, "relationship") {
            crate::portable::contains_text(relationship_ids, subject)
        } else {
            false
        };
        proof {
            reveal_strlit("entity");
            reveal_strlit("relationship");
            assert("entity"@.len() != "relationship"@.len());
        }
        if !valid {
            return Err(R12ContractError::ReferenceMismatch { family: "claims", id: subject.to_owned() });
        }
        reference_error_r12(crate::portable::reference_list_fault(&cs[k], "evidence_ids", evidence_ids), "claims")?;
        k += 1;
    }
    Ok(())
}

/// The first entity, in order, whose evidence list or references are wrong.
pub open spec fn r12_entities_fault(es: Seq<Json>, entities: Seq<Seq<char>>, evidence: Seq<Seq<char>>) -> Option<
    crate::s4_r13::PortableFault,
>
    decreases es.len(),
{
    if es.len() == 0 {
        None
    } else {
        crate::s4_r13::first_of(
            crate::s4_r13::reference_fault_of(
                crate::portable::reference_list_outcome(es[0], "evidence_ids"@, evidence),
                "entities"@,
            ),
            crate::s4_r13::first_of(
                crate::s4_r13::reference_fault_of(entity_references_fault(es[0], entities, evidence), "entities"@),
                r12_entities_fault(es.drop_first(), entities, evidence),
            ),
        )
    }
}

fn r12_entities(es: &[Json], entity_ids: &[String], evidence_ids: &[String]) -> (r: Result<(), R12ContractError>)
    ensures
        r is Err ==> !(r->Err_0.fault() is Other),
        match r12_entities_fault(es@, crate::portable::texts(entity_ids@), crate::portable::texts(evidence_ids@)) {
            None => r is Ok,
            Some(f) => r is Err && r->Err_0.fault() == f,
        },
{
    let ghost ents = crate::portable::texts(entity_ids@);
    let ghost evs = crate::portable::texts(evidence_ids@);
    let mut k: usize = 0;
    assert(es@.skip(0) =~= es@);
    while k < es.len()
        invariant
            k <= es.len(),
            ents == crate::portable::texts(entity_ids@),
            evs == crate::portable::texts(evidence_ids@),
            r12_entities_fault(es@, ents, evs) == r12_entities_fault(es@.skip(k as int), ents, evs),
        decreases es.len() - k,
    {
        assert(es@.skip(k as int)[0] == es@[k as int]);
        assert(es@.skip(k as int).drop_first() =~= es@.skip(k + 1));
        reference_error_r12(crate::portable::reference_list_fault(&es[k], "evidence_ids", evidence_ids), "entities")?;
        reference_error_r12(validate_entity_references(&es[k], entity_ids, evidence_ids), "entities")?;
        k += 1;
    }
    Ok(())
}

/// An R12 evidence record: a 40-digit lowercase hexadecimal blob and a
/// non-empty byte span.
pub open spec fn r12_evidence_ok(e: Json) -> bool {
    &&& member_text(e, "blob_oid"@) matches Some(blob) && blob.len() == 40 && crate::text::all_lower_hex(blob)
    &&& crate::json::member_u64(e, "start_byte"@) matches Some(start) && crate::json::member_u64(e, "end_byte"@)
        matches Some(end) && start < end
}

fn r12_evidence_records(records: &[Json]) -> (r: bool)
    ensures
        r == forall|k: int| 0 <= k < records.len() ==> r12_evidence_ok(#[trigger] records@[k]),
{
    let mut k: usize = 0;
    while k < records.len()
        invariant
            k <= records.len(),
            forall|m: int| 0 <= m < k ==> r12_evidence_ok(#[trigger] records@[m]),
        decreases records.len() - k,
    {
        let blob = match records[k].get_str("blob_oid") {
            Some(t) => t,
            None => return false,
        };
        let (start, end) = match (records[k].get_u64("start_byte"), records[k].get_u64("end_byte")) {
            (Some(a), Some(b)) => (a, b),
            _ => return false,
        };
        let cs = chars_of(blob);
        if cs.len() != 40 || !chars_all_lower_hex(cs.as_slice()) || start >= end {
            return false;
        }
        k += 1;
    }
    true
}

/// The subject an R12 diagnostic or coverage gap names: its `subject_id`
/// when present, else its `declaration_id`.
pub open spec fn named_subject(record: Json) -> Option<Seq<char>> {
    match crate::json::member(record, "subject_id"@) {
        Some(v) => crate::json::as_text(v),
        None => member_text(record, "declaration_id"@),
    }
}

/// What is wrong with one diagnostic or coverage gap of `family`: it must
/// have a known identifier (else `InvalidProjection`), known evidence, and
/// name an entity as its subject when it names one.
pub open spec fn r12_record_fault(
    record: Json,
    ids: Seq<Seq<char>>,
    entities: Seq<Seq<char>>,
    evidence: Seq<Seq<char>>,
    family: Seq<char>,
) -> Option<crate::s4_r13::PortableFault> {
    match member_text(record, "id"@) {
        None => Some(crate::s4_r13::PortableFault::InvalidProjection),
        Some(id) => if !ids.contains(id) {
            Some(crate::s4_r13::PortableFault::InvalidProjection)
        } else {
            crate::s4_r13::first_of(
                crate::s4_r13::reference_fault_of(
                    crate::portable::reference_list_outcome(record, "evidence_ids"@, evidence),
                    family,
                ),
                match named_subject(record) {
                    Some(subject) => if entities.contains(subject) {
                        None
                    } else {
                        Some(crate::s4_r13::PortableFault::ReferenceMismatch(family, subject))
                    },
                    None => None,
                },
            )
        },
    }
}

/// The first fault of the records of `family`, in order.
pub open spec fn r12_records_fault(
    records: Seq<Json>,
    ids: Seq<Seq<char>>,
    entities: Seq<Seq<char>>,
    evidence: Seq<Seq<char>>,
    family: Seq<char>,
) -> Option<crate::s4_r13::PortableFault>
    decreases records.len(),
{
    if records.len() == 0 {
        None
    } else {
        crate::s4_r13::first_of(
            r12_record_fault(records[0], ids, entities, evidence, family),
            r12_records_fault(records.drop_first(), ids, entities, evidence, family),
        )
    }
}

fn r12_records(
    records: &[Json],
    ids: &[String],
    entity_ids: &[String],
    evidence_ids: &[String],
    family: &'static str,
) -> (r: Result<(), R12ContractError>)
    ensures
        r is Err ==> !(r->Err_0.fault() is Other),
        match r12_records_fault(
            records@,
            crate::portable::texts(ids@),
            crate::portable::texts(entity_ids@),
            crate::portable::texts(evidence_ids@),
            family@,
        ) {
            None => r is Ok,
            Some(f) => r is Err && r->Err_0.fault() == f,
        },
{
    let ghost own = crate::portable::texts(ids@);
    let ghost ents = crate::portable::texts(entity_ids@);
    let ghost evs = crate::portable::texts(evidence_ids@);
    let mut k: usize = 0;
    assert(records@.skip(0) =~= records@);
    while k < records.len()
        invariant
            k <= records.len(),
            own == crate::portable::texts(ids@),
            ents == crate::portable::texts(entity_ids@),
            evs == crate::portable::texts(evidence_ids@),
            r12_records_fault(records@, own, ents, evs, family@) == r12_records_fault(
                records@.skip(k as int),
                own,
                ents,
                evs,
                family@,
            ),
        decreases records.len() - k,
    {
        assert(records@.skip(k as int)[0] == records@[k as int]);
        assert(records@.skip(k as int).drop_first() =~= records@.skip(k + 1));
        let record = &records[k];
        let id = match record.get_str("id") {
            Some(t) => t,
            None => return Err(R12ContractError::InvalidProjection),
        };
        if !crate::portable::contains_text(ids, id) {
            return Err(R12ContractError::InvalidProjection);
        }
        reference_error_r12(crate::portable::reference_list_fault(record, "evidence_ids", evidence_ids), family)?;
        let subject = match record.get("subject_id") {
            Some(v) => v.as_str(),
            None => record.get_str("declaration_id"),
        };
        match subject {
            Some(t) => if !crate::portable::contains_text(entity_ids, t) {
                return Err(R12ContractError::ReferenceMismatch { family, id: t.to_owned() });
            },
            None => {},
        }
        k += 1;
    }
    Ok(())
}

/// The first document, in order, whose `path` is a text that is not a safe
/// relative path.
pub open spec fn document_paths_fault(documents: Seq<Json>) -> Option<Seq<char>>
    decreases documents.len(),
{
    if documents.len() == 0 {
        None
    } else if member_text(documents[0], "path"@) matches Some(path) && !safe_relative_path_rule(path) {
        member_text(documents[0], "path"@)
    } else {
        document_paths_fault(documents.drop_first())
    }
}

/// What is wrong with the paths of an R12 graph: every evidence record must
/// have a safe relative path (missing: `InvalidProjection`; unsafe:
/// `unsafe_evidence_path`), then every document path must be safe
/// (`unsafe_document_path`).
pub open spec fn r12_paths_fault(evidence: Seq<Json>, documents: Seq<Json>) -> Option<crate::s4_r13::PortableFault> {
    match crate::s4_r16::evidence_paths_fault(evidence) {
        Some(FaultView::Malformed) => Some(crate::s4_r13::PortableFault::InvalidProjection),
        Some(FaultView::Offending(_)) => Some(crate::s4_r13::PortableFault::UnsafePayload("unsafe_evidence_path"@)),
        None => if document_paths_fault(documents) is Some {
            Some(crate::s4_r13::PortableFault::UnsafePayload("unsafe_document_path"@))
        } else {
            None
        },
    }
}

fn r12_paths(evidence: &[Json], documents: &[Json]) -> (r: Result<(), R12ContractError>)
    ensures
        r is Err ==> !(r->Err_0.fault() is Other),
        match r12_paths_fault(evidence@, documents@) {
            None => r is Ok,
            Some(f) => r is Err && r->Err_0.fault() == f,
        },
{
    let mut k: usize = 0;
    assert(evidence@.skip(0) =~= evidence@);
    while k < evidence.len()
        invariant
            k <= evidence.len(),
            crate::s4_r16::evidence_paths_fault(evidence@) == crate::s4_r16::evidence_paths_fault(
                evidence@.skip(k as int),
            ),
        decreases evidence.len() - k,
    {
        assert(evidence@.skip(k as int)[0] == evidence@[k as int]);
        assert(evidence@.skip(k as int).drop_first() =~= evidence@.skip(k + 1));
        let path = match evidence[k].get_str("path") {
            Some(p) => p,
            None => return Err(R12ContractError::InvalidProjection),
        };
        if !safe_relative_path(path) {
            return Err(R12ContractError::UnsafePayload { reason: "unsafe_evidence_path" });
        }
        k += 1;
    }
    let mut j: usize = 0;
    assert(documents@.skip(0) =~= documents@);
    while j < documents.len()
        invariant
            j <= documents.len(),
            crate::s4_r16::evidence_paths_fault(evidence@) is None,
            document_paths_fault(documents@) == document_paths_fault(documents@.skip(j as int)),
        decreases documents.len() - j,
    {
        assert(documents@.skip(j as int)[0] == documents@[j as int]);
        assert(documents@.skip(j as int).drop_first() =~= documents@.skip(j + 1));
        match documents[j].get_str("path") {
            Some(path) => if !safe_relative_path(path) {
                return Err(R12ContractError::UnsafePayload { reason: "unsafe_document_path" });
            },
            None => {},
        }
        j += 1;
    }
    Ok(())
}


/// The schema names of the R12 portable-graph profile, as the caller's
/// domain model declares them.
#[derive(Clone, Debug, PartialEq, Eq)]
pub struct PortableVersionsV5 {
    pub portable_graph: String,
    pub ontology: String,
    pub query: String,
    pub snapshot: String,
}

/// The member names of a V5 portable graph.
pub open spec fn portable_v5_keys() -> Seq<Seq<char>> {
    seq![
        "claims"@,
        "coverage_gaps"@,
        "diagnostics"@,
        "document_statements"@,
        "documents"@,
        "entities"@,
        "evidence"@,
        "ontology_version"@,
        "projection"@,
        "query_contract_version"@,
        "relationships"@,
        "repository"@,
        "repository_boundaries"@,
        "schema_version"@,
        "source_snapshot"@,
    ]
}

/// What is wrong with the envelope of a V5 portable graph, in the order the
/// checks run: nesting, private payloads, the member set, the schema, the
/// declared versions and profile, the repository boundaries, and the
/// repository identity.
pub open spec fn portable_v5_header_fault(value: Json, v: PortableVersionsV5) -> Option<crate::s4_r13::PortableFault> {
    if height(value) > MAX_R12_JSON_NESTING {
        Some(
            crate::s4_r13::PortableFault::LimitExceeded {
                limit: "json_nesting"@,
                maximum: MAX_R12_JSON_NESTING,
                observed: (MAX_R12_JSON_NESTING + 1) as u64,
            },
        )
    } else if first_finding(value, r12_private_fields(), false) is Some {
        match first_finding(value, r12_private_fields(), false) {
            Some(FindingView::DeniedField(_)) => Some(crate::s4_r13::PortableFault::UnsafePayload("private_field"@)),
            _ => Some(crate::s4_r13::PortableFault::UnsafePayload("raw_url"@)),
        }
    } else if !crate::portable::same_key_set(value, portable_v5_keys()) {
        Some(crate::s4_r13::PortableFault::InvalidProjection)
    } else {
        match member_text(value, "schema_version"@) {
            None => Some(crate::s4_r13::PortableFault::InvalidProjection),
            Some(schema) => if schema != v.portable_graph@ {
                Some(crate::s4_r13::PortableFault::UnsupportedPortableGraphSchema(take_scalars(schema, 256)))
            } else if member_text(value, "ontology_version"@) != Some(v.ontology@) || member_text(
                value,
                "query_contract_version"@,
            ) != Some(v.query@) || crate::s4_r13::pointer_text(value, "source_snapshot"@, "schema_version"@)
                != Some(v.snapshot@) || crate::s4_r13::pointer_text(value, "projection"@, "profile"@) != Some(
                "codenoesis.lossless-portable-projection/v5"@,
            ) {
                Some(crate::s4_r13::PortableFault::InvalidProjection)
            } else if boundary_projection_fault(crate::json::member(value, "repository_boundaries"@)->Some_0)
                is Some {
                match boundary_projection_fault(crate::json::member(value, "repository_boundaries"@)->Some_0) {
                    Some(FaultView::Offending(_)) => Some(
                        crate::s4_r13::PortableFault::UnsafePayload("unsafe_boundary_path"@),
                    ),
                    _ => Some(crate::s4_r13::PortableFault::InvalidProjection),
                }
            } else if !(crate::s4_r13::pointer_text(value, "repository"@, "identity"@) matches Some(id)
                && crate::text::starts_with(id, "urn:codenoesis:"@)) {
                Some(crate::s4_r13::PortableFault::InvalidProjection)
            } else {
                None
            },
        }
    }
}

fn check_portable_v5_header<'a>(value: &'a Json, versions: &PortableVersionsV5) -> (r: Result<
    &'a str,
    R12ContractError,
>)
    ensures
        r is Err ==> !(r->Err_0.fault() is Other),
        match portable_v5_header_fault(*value, *versions) {
            Some(f) => r is Err && r->Err_0.fault() == f,
            None => r matches Ok(id) && crate::s4_r13::pointer_text(*value, "repository"@, "identity"@) == Some(id@),
        },
        r is Ok ==> crate::json::member(*value, "repository_boundaries"@) is Some,
{
    ensure_nesting(value, 0)?;
    validate_private_fields(value)?;
    let keys = [
        "claims",
        "coverage_gaps",
        "diagnostics",
        "document_statements",
        "documents",
        "entities",
        "evidence",
        "ontology_version",
        "projection",
        "query_contract_version",
        "relationships",
        "repository",
        "repository_boundaries",
        "schema_version",
        "source_snapshot",
    ];

    assert(names_view(keys@) =~= portable_v5_keys());
    if !crate::portable::has_key_set(value, &keys) {
        return Err(R12ContractError::InvalidProjection);
    }
    let schema = match value.get_str("schema_version") {
        Some(t) => t,
        None => return Err(R12ContractError::InvalidProjection),
    };
    if !crate::text::text_eq(schema, versions.portable_graph.as_str()) {
        return Err(R12ContractError::UnsupportedPortableGraphSchema(bounded(schema, 256)));
    }
    let ontology_ok = match value.get_str("ontology_version") {
        Some(t) => crate::text::text_eq(t, versions.ontology.as_str()),
        None => false,
    };
    let query_ok = match value.get_str("query_contract_version") {
        Some(t) => crate::text::text_eq(t, versions.query.as_str()),
        None => false,
    };
    let snapshot_ok = match crate::s4_r13::pointer_str(value, "source_snapshot", "schema_version") {
        Some(t) => crate::text::text_eq(t, versions.snapshot.as_str()),
        None => false,
    };
    let profile_ok = match crate::s4_r13::pointer_str(value, "projection", "profile") {
        Some(t) => crate::text::text_eq(t, "codenoesis.lossless-portable-projection/v5"),
        None => false,
    };
    if !ontology_ok || !query_ok || !snapshot_ok || !profile_ok {
        return Err(R12ContractError::InvalidProjection);
    }
    proof {
        assert(portable_v5_keys()[12] == "repository_boundaries"@);
        crate::portable::lemma_key_set_member(*value, portable_v5_keys(), "repository_boundaries"@);
    }
    let boundaries = match value.get("repository_boundaries") {
        Some(b) => b,
        None => return Err(R12ContractError::InvalidProjection),
    };
    validate_boundary_projection(boundaries)?;
    match crate::s4_r13::pointer_str(value, "repository", "identity") {
        Some(id) => if crate::text::text_starts_with(id, "urn:codenoesis:") {
            Ok(id)
        } else {
            Err(R12ContractError::InvalidProjection)
        },
        None => Err(R12ContractError::InvalidProjection),
    }
}



/// The first document, in order, whose subject is not known.
pub open spec fn r12_documents_fault(documents: Seq<Json>, subjects: Seq<Seq<char>>) -> Option<
    crate::s4_r13::PortableFault,
>
    decreases documents.len(),
{
    if documents.len() == 0 {
        None
    } else {
        crate::s4_r13::first_of(
            crate::s4_r13::reference_fault_of(
                crate::portable::reference_outcome(documents[0], "subject_id"@, subjects),
                "documents"@,
            ),
            r12_documents_fault(documents.drop_first(), subjects),
        )
    }
}

fn r12_documents(documents: &[Json], subject_ids: &[String]) -> (r: Result<(), R12ContractError>)
    ensures
        r is Err ==> !(r->Err_0.fault() is Other),
        match r12_documents_fault(documents@, crate::portable::texts(subject_ids@)) {
            None => r is Ok,
            Some(f) => r is Err && r->Err_0.fault() == f,
        },
{
    let ghost subs = crate::portable::texts(subject_ids@);
    let mut k: usize = 0;
    assert(documents@.skip(0) =~= documents@);
    while k < documents.len()
        invariant
            k <= documents.len(),
            subs == crate::portable::texts(subject_ids@),
            r12_documents_fault(documents@, subs) == r12_documents_fault(documents@.skip(k as int), subs),
        decreases documents.len() - k,
    {
        assert(documents@.skip(k as int)[0] == documents@[k as int]);
        assert(documents@.skip(k as int).drop_first() =~= documents@.skip(k + 1));
        reference_error_r12(crate::portable::reference_fault(&documents[k], "subject_id", subject_ids), "documents")?;
        k += 1;
    }
    Ok(())
}

/// What is wrong with the references and paths of a V5 portable graph
/// whose families hold `f` and whose boundaries contribute `b`, in the order
/// the checks run.
pub open spec fn portable_v5_references_fault(
    value: Json,
    identity: Seq<char>,
    f: Seq<Seq<Seq<char>>>,
    b: (Seq<Seq<char>>, Seq<Seq<char>>, Seq<Seq<char>>),
) -> Option<crate::s4_r13::PortableFault> {
    let subjects = crate::s4_r13::subject_ids(identity, f) + b.0;
    let items = |family: Seq<char>| crate::s4_r13::items_of(value, family);
    crate::s4_r13::first_of(
        crate::s4_r13::relationships_fault(items("relationships"@), f[0], f[3]),
        crate::s4_r13::first_of(
            r12_claims_fault(items("claims"@), f[0], f[1], f[3]),
            crate::s4_r13::first_of(
                r12_entities_fault(items("entities"@), f[0], f[3]),
                crate::s4_r13::first_of(
                    if forall|k: int|
                        0 <= k < items("evidence"@).len() ==> r12_evidence_ok(#[trigger] items("evidence"@)[k]) {
                        None
                    } else {
                        Some(crate::s4_r13::PortableFault::InvalidProjection)
                    },
                    crate::s4_r13::first_of(
                        r12_records_fault(items("diagnostics"@), f[4], f[0], f[3], "diagnostics"@),
                        crate::s4_r13::first_of(
                            r12_records_fault(items("coverage_gaps"@), f[5], f[0], f[3], "coverage_gaps"@),
                            crate::s4_r13::first_of(
                                r12_documents_fault(items("documents"@), subjects),
                                crate::s4_r13::first_of(
                                    crate::s4_r13::statements_fault(
                                        items("document_statements"@),
                                        f[6],
                                        subjects,
                                        f[3] + b.1,
                                        f[5] + b.2,
                                    ),
                                    r12_paths_fault(items("evidence"@), items("documents"@)),
                                ),
                            ),
                        ),
                    ),
                ),
            ),
        ),
    )
}

/// What is wrong with a V5 portable graph before its family digests are
/// compared, in the order the checks run: the envelope (with its repository
/// boundaries), the eight identifier families, the identifiers the
/// boundaries contribute, then the references and paths.
pub open spec fn portable_v5_fault(value: Json, v: PortableVersionsV5) -> Option<crate::s4_r13::PortableFault> {
    match portable_v5_header_fault(value, v) {
        Some(f) => Some(f),
        None => {
            let identity = crate::s4_r13::pointer_text(value, "repository"@, "identity"@)->Some_0;
            match r12_family_step(value, "entities"@, "id"@) {
                Err(f) => Some(f),
                Ok(e) => match r12_family_step(value, "relationships"@, "id"@) {
                    Err(f) => Some(f),
                    Ok(r) => match r12_family_step(value, "claims"@, "id"@) {
                        Err(f) => Some(f),
                        Ok(c) => match r12_family_step(value, "evidence"@, "id"@) {
                            Err(f) => Some(f),
                            Ok(ev) => match r12_family_step(value, "diagnostics"@, "id"@) {
                                Err(f) => Some(f),
                                Ok(d) => match r12_family_step(value, "coverage_gaps"@, "id"@) {
                                    Err(f) => Some(f),
                                    Ok(cg) => match r12_family_step(value, "documents"@, "document_id"@) {
                                        Err(f) => Some(f),
                                        Ok(docs) => match r12_family_step(
                                            value,
                                            "document_statements"@,
                                            "statement_id"@,
                                        ) {
                                            Err(f) => Some(f),
                                            Ok(sts) => match boundary_reference_ids(
                                                crate::json::member(value, "repository_boundaries"@)->Some_0,
                                            ) {
                                                None => Some(crate::s4_r13::PortableFault::InvalidProjection),
                                                Some(b) => portable_v5_references_fault(
                                                    value,
                                                    identity,
                                                    seq![e, r, c, ev, d, cg, docs, sts],
                                                    b,
                                                ),
                                            },
                                        },
                                    },
                                },
                            },
                        },
                    },
                },
            }
        },
    }
}


fn validate_portable_v5_references(
    value: &Json,
    identity: &str,
    ids: &[Vec<String>; 8],
    boundary: &(Vec<String>, Vec<String>, Vec<String>),
) -> (res: Result<(), R12ContractError>)
    requires
        crate::json::member_items(*value, "entities"@) is Some,
        crate::json::member_items(*value, "relationships"@) is Some,
        crate::json::member_items(*value, "claims"@) is Some,
        crate::json::member_items(*value, "evidence"@) is Some,
        crate::json::member_items(*value, "diagnostics"@) is Some,
        crate::json::member_items(*value, "coverage_gaps"@) is Some,
        crate::json::member_items(*value, "documents"@) is Some,
        crate::json::member_items(*value, "document_statements"@) is Some,
    ensures
        res is Err ==> !(res->Err_0.fault() is Other),
        match portable_v5_references_fault(
            *value,
            identity@,
            seq![
                crate::portable::texts(ids[0]@),
                crate::portable::texts(ids[1]@),
                crate::portable::texts(ids[2]@),
                crate::portable::texts(ids[3]@),
                crate::portable::texts(ids[4]@),
                crate::portable::texts(ids[5]@),
                crate::portable::texts(ids[6]@),
                crate::portable::texts(ids[7]@),
            ],
            (crate::portable::texts(boundary.0@), crate::portable::texts(boundary.1@), crate::portable::texts(boundary.2@)),
        ) {
            None => res is Ok,
            Some(f) => res is Err && res->Err_0.fault() == f,
        },
{
    let ghost f = seq![
        crate::portable::texts(ids[0]@),
        crate::portable::texts(ids[1]@),
        crate::portable::texts(ids[2]@),
        crate::portable::texts(ids[3]@),
        crate::portable::texts(ids[4]@),
        crate::portable::texts(ids[5]@),
        crate::portable::texts(ids[6]@),
        crate::portable::texts(ids[7]@),
    ];
    let entities = match value.get_array("entities") {
        Some(v) => v,
        None => return Err(R12ContractError::InvalidProjection),
    };
    let relationships = match value.get_array("relationships") {
        Some(v) => v,
        None => return Err(R12ContractError::InvalidProjection),
    };
    let claims = match value.get_array("claims") {
        Some(v) => v,
        None => return Err(R12ContractError::InvalidProjection),
    };
    let evidence = match value.get_array("evidence") {
        Some(v) => v,
        None => return Err(R12ContractError::InvalidProjection),
    };
    let diagnostics = match value.get_array("diagnostics") {
        Some(v) => v,
        None => return Err(R12ContractError::InvalidProjection),
    };
    let gaps = match value.get_array("coverage_gaps") {
        Some(v) => v,
        None => return Err(R12ContractError::InvalidProjection),
    };
    let documents = match value.get_array("documents") {
        Some(v) => v,
        None => return Err(R12ContractError::InvalidProjection),
    };
    let statements = match value.get_array("document_statements") {
        Some(v) => v,
        None => return Err(R12ContractError::InvalidProjection),
    };
    let evidence_ids = ids[3].as_slice();
    checked_r13(
        crate::s4_r13::validate_relationship_references(relationships.as_slice(), ids[0].as_slice(), evidence_ids),
    )?;
    r12_claims(claims.as_slice(), ids[0].as_slice(), ids[1].as_slice(), evidence_ids)?;
    r12_entities(entities.as_slice(), ids[0].as_slice(), evidence_ids)?;
    if !r12_evidence_records(evidence.as_slice()) {
        return Err(R12ContractError::InvalidProjection);
    }
    r12_records(diagnostics.as_slice(), ids[4].as_slice(), ids[0].as_slice(), evidence_ids, "diagnostics")?;
    r12_records(gaps.as_slice(), ids[5].as_slice(), ids[0].as_slice(), evidence_ids, "coverage_gaps")?;
    let mut subjects: Vec<String> = Vec::new();
    subjects.push(identity.to_owned());
    let mut k: usize = 0;
    while k < 8
        invariant
            k <= 8,
            f == seq![
                crate::portable::texts(ids[0]@),
                crate::portable::texts(ids[1]@),
                crate::portable::texts(ids[2]@),
                crate::portable::texts(ids[3]@),
                crate::portable::texts(ids[4]@),
                crate::portable::texts(ids[5]@),
                crate::portable::texts(ids[6]@),
                crate::portable::texts(ids[7]@),
            ],
            crate::portable::texts(subjects@) == f.take(k as int).fold_left(seq![identity@], |acc: Seq<Seq<char>>, x: Seq<Seq<char>>| acc + x),
        decreases 8 - k,
    {
        crate::s4_r13::append_texts(&mut subjects, ids[k].as_slice());
        proof {
            assert(f.take(k + 1).drop_last() =~= f.take(k as int));
            assert(f[k as int] == crate::portable::texts(ids[k as int]@));
        }
        k += 1;
    }
    proof {
        assert(f.take(8) =~= f);
        reveal_with_fuel(vstd::seq::Seq::fold_left, 9);
        assert(crate::portable::texts(subjects@) =~= crate::s4_r13::subject_ids(identity@, f));
    }
    crate::s4_r13::append_texts(&mut subjects, boundary.0.as_slice());
    let mut statement_evidence: Vec<String> = Vec::new();
    assert(crate::portable::texts(statement_evidence@) =~= Seq::<Seq<char>>::empty());
    crate::s4_r13::append_texts(&mut statement_evidence, evidence_ids);
    crate::s4_r13::append_texts(&mut statement_evidence, boundary.1.as_slice());
    let mut statement_coverage: Vec<String> = Vec::new();
    assert(crate::portable::texts(statement_coverage@) =~= Seq::<Seq<char>>::empty());
    crate::s4_r13::append_texts(&mut statement_coverage, ids[5].as_slice());
    crate::s4_r13::append_texts(&mut statement_coverage, boundary.2.as_slice());
    proof {
        assert(Seq::<Seq<char>>::empty() + crate::portable::texts(ids[3]@) =~= crate::portable::texts(ids[3]@));
        assert(Seq::<Seq<char>>::empty() + crate::portable::texts(ids[5]@) =~= crate::portable::texts(ids[5]@));
    }
    r12_documents(documents.as_slice(), subjects.as_slice())?;
    checked_r13(
        crate::s4_r13::validate_statements(
            statements.as_slice(),
            ids[6].as_slice(),
            subjects.as_slice(),
            statement_evidence.as_slice(),
            statement_coverage.as_slice(),
        ),
    )?;
    r12_paths(evidence.as_slice(), documents.as_slice())
}

/// Checks everything of a V5 portable graph but its family digests: the
/// envelope with its repository boundaries, the eight identifier families,
/// the identifiers the boundaries contribute, every reference and every
/// path; the first failing check decides the error ([`portable_v5_fault`]).
pub fn validate_portable_v5_structure(value: &Json, versions: &PortableVersionsV5) -> (r: Result<
    (),
    R12ContractError,
>)
    ensures
        r is Err ==> !(r->Err_0.fault() is Other),
        match portable_v5_fault(*value, *versions) {
            None => r is Ok,
            Some(f) => r is Err && r->Err_0.fault() == f,
        },
{
    let identity = check_portable_v5_header(value, versions)?;
    let e = r12_family(value, "entities", "id")?;
    let r = r12_family(value, "relationships", "id")?;
    let c = r12_family(value, "claims", "id")?;
    let ev = r12_family(value, "evidence", "id")?;
    let d = r12_family(value, "diagnostics", "id")?;
    let cg = r12_family(value, "coverage_gaps", "id")?;
    let docs = r12_family(value, "documents", "document_id")?;
    let sts = r12_family(value, "document_statements", "statement_id")?;
    let boundaries = match value.get("repository_boundaries") {
        Some(b) => b,
        None => return Err(R12ContractError::InvalidProjection),
    };
    let boundary = match boundary_document_reference_ids(boundaries) {
        Ok(t) => t,
        Err(_) => return Err(R12ContractError::InvalidProjection),
    };
    let ids = [e, r, c, ev, d, cg, docs, sts];
    validate_portable_v5_references(value, identity, &ids, &boundary)
}


/// The families of a V5 portable graph, in the order their digests are
/// declared.
pub open spec fn portable_v5_families() -> Seq<Seq<char>> {
    seq![
        "entities"@,
        "relationships"@,
        "claims"@,
        "evidence"@,
        "diagnostics"@,
        "coverage_gaps"@,
        "documents"@,
        "document_statements"@,
    ]
}

/// A V5 portable graph whose envelope is valid holds all eight families.
proof fn lemma_v5_families_present(value: Json, versions: PortableVersionsV5)
    requires
        portable_v5_header_fault(value, versions) is None,
    ensures
        forall|k: int| 0 <= k < 8 ==> crate::json::member(value, #[trigger] portable_v5_families()[k]) is Some,
{
    assert forall|k: int| 0 <= k < 8 implies crate::json::member(value, #[trigger] portable_v5_families()[k]) is Some by {
        let keys = portable_v5_keys();
        let name = portable_v5_families()[k];
        if k == 0 {
            assert(keys[5] == name);
        } else if k == 1 {
            assert(keys[10] == name);
        } else if k == 2 {
            assert(keys[0] == name);
        } else if k == 3 {
            assert(keys[6] == name);
        } else if k == 4 {
            assert(keys[2] == name);
        } else if k == 5 {
            assert(keys[1] == name);
        } else if k == 6 {
            assert(keys[4] == name);
        } else {
            assert(keys[3] == name);
        }
        crate::portable::lemma_key_set_member(value, keys, name);
    }
}

/// Validates one V5 portable graph: its structure ([`portable_v8_fault`])
/// decides every error but the last check, which compares the declared
/// family digests with those `sha256` gives; a mismatch there is
/// `InvalidProjection`.
#[verifier::spinoff_prover]
pub fn validate_portable_value<F: Fn(&[u8]) -> String>(
    value: &Json,
    versions: &PortableVersionsV5,
    sha256: &F,
) -> (r: Result<(), R12ContractError>)
    requires
        crate::s4_r18::total_digest(*sha256),
    ensures
        r is Err ==> !(r->Err_0.fault() is Other),
        match portable_v5_fault(*value, *versions) {
            Some(f) => r is Err && r->Err_0.fault() == f,
            None => {
                &&& r is Ok ==> exists|ds: Seq<Seq<char>>|
                    crate::portable::family_digests_for(*sha256, *value, portable_v5_families(), ds)
                        && crate::portable::digests_declared_for(*value, portable_v5_families(), ds)
                &&& r is Err ==> (r matches Err(R12ContractError::InvalidProjection))
                &&& (forall|ds: Seq<Seq<char>>|
                    #[trigger] crate::portable::family_digests_for(*sha256, *value, portable_v5_families(), ds)
                        ==> crate::portable::digests_declared_for(*value, portable_v5_families(), ds)) ==> r is Ok
            },
        },
{
    validate_portable_v5_structure(value, versions)?;
    let names = [
        "entities",
        "relationships",
        "claims",
        "evidence",
        "diagnostics",
        "coverage_gaps",
        "documents",
        "document_statements",
    ];
    assert(names_view(names@) =~= portable_v5_families());
    proof {
        lemma_v5_families_present(*value, *versions);
    }
    let digests = match crate::portable::digests_of_families(value, &names, sha256) {
        Some(ds) => ds,
        None => {
            assert(false);
            return Err(R12ContractError::InvalidProjection);
        },
    };
    if !crate::portable::declared_digests_match(value, &names, digests.as_slice()) {
        return Err(R12ContractError::InvalidProjection);
    }
    Ok(())
}


/// What a V5 export needs of its inputs: the snapshot's ontology, the
/// manifest bound to the head, a knowledge graph object with all the record
/// families, documents the export can take, the repository, and
/// repository boundaries.
pub open spec fn v5_export_inputs(semantic: Json, head: LocalSnapshotHead, manifest: Json, versions: PortableVersionsV5) -> bool {
    &&& member_text(semantic, "ontology_version"@) == Some(versions.ontology@)
    &&& crate::export::documentation_bound(manifest, head)
    &&& member(semantic, "knowledge_graph"@) matches Some(g) && g is Object && {
        &&& member(g, "claims"@) is Some
        &&& member(g, "coverage"@) is Some
        &&& member(g, "diagnostics"@) is Some
        &&& member(g, "entities"@) is Some
        &&& member(g, "evidence"@) is Some
        &&& member(g, "relationships"@) is Some
    }
    &&& crate::export::manifest_documents(manifest) is Some
    &&& member(semantic, "repository"@) is Some
    &&& member(semantic, "repository_boundaries"@) matches Some(b) && crate::s4_r12::boundary_projection_fault(b) is None
}

/// The V5 portable projection of a snapshot, its head and documentation
/// manifest, member by member in key order: copies of the graph's record
/// families (coverage gaps from `coverage`), the manifest's documents and
/// statements, the versions, the projection profile with the digest `ds[k]`
/// of each family (an answer of `f` for that family's canonical bytes),
/// copies of the repository and of the repository boundaries, and the source snapshot.
pub open spec fn v5_projection<F: Fn(&[u8]) -> String>(
    v: Json,
    semantic: Json,
    head: LocalSnapshotHead,
    manifest: Json,
    versions: PortableVersionsV5,
    f: F,
    ds: Seq<Seq<char>>,
) -> bool {
    let g = member(semantic, "knowledge_graph"@).unwrap();
    let docs = crate::export::manifest_documents(manifest).unwrap();
    let b = member(semantic, "repository_boundaries"@);
    &&& member_count(v) == 15
    &&& crate::export::copy_member(v, 0, "claims"@, member(g, "claims"@))
    &&& crate::export::copy_member(v, 1, "coverage_gaps"@, member(g, "coverage"@))
    &&& crate::export::copy_member(v, 2, "diagnostics"@, member(g, "diagnostics"@))
    &&& crate::json::member_at(v, 3, "document_statements"@) matches Some(Json::Array(xs))
        && crate::export::portable_statements_of(xs@, docs)
    &&& crate::json::member_at(v, 4, "documents"@) matches Some(Json::Array(xs))
        && crate::export::portable_documents_of(xs@, docs)
    &&& crate::export::copy_member(v, 5, "entities"@, member(g, "entities"@))
    &&& crate::export::copy_member(v, 6, "evidence"@, member(g, "evidence"@))
    &&& crate::explorer::text_member(v, 7, "ontology_version"@, versions.ontology@)
    &&& crate::json::member_at(v, 8, "projection"@) matches Some(p) && {
        &&& member_count(p) == 2
        &&& crate::json::member_at(p, 0, "family_sha256"@) matches Some(fd) && {
            &&& member_count(fd) == 8
            &&& ds.len() == 8
            &&& crate::export::digest_member(fd, 0, "claims"@, ds[0], v, 0, f)
            &&& crate::export::digest_member(fd, 1, "coverage_gaps"@, ds[1], v, 1, f)
            &&& crate::export::digest_member(fd, 2, "diagnostics"@, ds[2], v, 2, f)
            &&& crate::export::digest_member(fd, 3, "document_statements"@, ds[3], v, 3, f)
            &&& crate::export::digest_member(fd, 4, "documents"@, ds[4], v, 4, f)
            &&& crate::export::digest_member(fd, 5, "entities"@, ds[5], v, 5, f)
            &&& crate::export::digest_member(fd, 6, "evidence"@, ds[6], v, 6, f)
            &&& crate::export::digest_member(fd, 7, "relationships"@, ds[7], v, 10, f)
        }
        &&& crate::explorer::text_member(p, 1, "profile"@, "codenoesis.lossless-portable-projection/v5"@)
    }
    &&& crate::explorer::text_member(v, 9, "query_contract_version"@, versions.query@)
    &&& crate::export::copy_member(v, 10, "relationships"@, member(g, "relationships"@))
    &&& crate::export::copy_member(v, 11, "repository"@, member(semantic, "repository"@))
    &&& crate::export::copy_member(v, 12, "repository_boundaries"@, b)
    &&& crate::explorer::text_member(v, 13, "schema_version"@, versions.portable_graph@)
    &&& crate::json::member_at(v, 14, "source_snapshot"@) matches Some(src) && {
        &&& member_count(src) == 3
        &&& crate::explorer::text_member(src, 0, "schema_version"@, versions.snapshot@)
        &&& crate::json::member_at(src, 1, "semantic_hash"@) matches Some(h) && member_count(h) == 2
            && crate::explorer::text_member(h, 0, "algorithm"@, head.semantic_hash_algorithm@)
            && crate::explorer::text_member(h, 1, "value"@, head.semantic_hash@)
        &&& crate::explorer::text_member(src, 2, "snapshot_id"@, head.snapshot_id@)
    }
}

/// A V5 document that validates whatever the digest function answers:
/// it has no structural fault and every digest the function can give is
/// the declared one.
pub open spec fn v5_value_accepted<F: Fn(&[u8]) -> String>(value: Json, versions: PortableVersionsV5, sha256: F) -> bool {
    &&& portable_v5_fault(value, versions) is None
    &&& forall|ds: Seq<Seq<char>>|
        #[trigger] crate::portable::family_digests_for(sha256, value, portable_v5_families(), ds)
            ==> crate::portable::digests_declared_for(value, portable_v5_families(), ds)
}

/// A validated V5 portable graph with its canonical compact JSON text and the
/// digest function it was checked with.
pub struct PortableGraphV5<F: Fn(&[u8]) -> String> {
    value: Json,
    canonical: Vec<u8>,
    sha256: F,
}

impl<F: Fn(&[u8]) -> String> PortableGraphV5<F> {
    /// The canonical bytes are the canonical text of the document.
    #[verifier::type_invariant]
    closed spec fn canonical_matches(&self) -> bool {
        self.canonical@ == crate::json::json_bytes(self.value)
    }

    /// The graph document.
    pub closed spec fn document(&self) -> Json {
        self.value
    }

    /// The canonical text of the document, without the final LF.
    pub closed spec fn canonical_bytes(&self) -> Seq<u8> {
        self.canonical@
    }

    /// The digest function the graph was checked with.
    pub closed spec fn digest_function(&self) -> F {
        self.sha256
    }

    /// Strictly re-imports one canonical LF-terminated V5 portable graph.
    /// `parsed` is the JSON parse of all of `bytes` (`None` when they do not
    /// parse).
    ///
    /// Above [`MAX_R12_PORTABLE_GRAPH_BYTES`] is `LimitExceeded`; a failed
    /// parse is `InvalidProjection`; the document must then validate
    /// ([`validate_portable_value`]); bytes that are not exactly its
    /// canonical text and one LF are `Noncanonical`, with the digests of the
    /// expected and the observed bytes.
    pub fn from_canonical_file(
        bytes: &[u8],
        parsed: Option<Json>,
        versions: &PortableVersionsV5,
        sha256: F,
    ) -> (r: Result<Self, R12ContractError>)
        requires
            crate::s4_r18::total_digest(sha256),
        ensures
            bytes@.len() > MAX_R12_PORTABLE_GRAPH_BYTES ==> (r matches Err(
                R12ContractError::LimitExceeded { limit, maximum, observed },
            ) && limit@ == "portable_graph_bytes"@ && maximum == MAX_R12_PORTABLE_GRAPH_BYTES
                && observed == bytes@.len()),
            bytes@.len() <= MAX_R12_PORTABLE_GRAPH_BYTES && parsed is None ==> (r matches Err(
                R12ContractError::InvalidProjection,
            )),
            bytes@.len() <= MAX_R12_PORTABLE_GRAPH_BYTES ==> (parsed matches Some(v) ==> (
            portable_v5_fault(v, *versions) matches Some(f) ==> r is Err && r->Err_0.fault() == f)),
            r matches Ok(g) ==> {
                &&& parsed == Some(g.document())
                &&& g.canonical_bytes() == crate::json::json_bytes(g.document())
                &&& bytes@ == g.canonical_bytes().push(10u8)
                &&& g.digest_function() == sha256
                &&& portable_v5_fault(g.document(), *versions) is None
                &&& exists|ds: Seq<Seq<char>>|
                    crate::portable::family_digests_for(sha256, g.document(), portable_v5_families(), ds)
                        && crate::portable::digests_declared_for(g.document(), portable_v5_families(), ds)
            },
            parsed matches Some(v) ==> (bytes@.len() <= MAX_R12_PORTABLE_GRAPH_BYTES && bytes@ == crate::json::json_bytes(v).push(10u8)
                && portable_v5_fault(v, *versions) is None && (forall|ds: Seq<Seq<char>>| #[trigger] crate::portable::family_digests_for(sha256, v, portable_v5_families(), ds) ==> crate::portable::digests_declared_for(v, portable_v5_families(), ds)) ==> (r matches Ok(g) && g.document() == v)),
            crate::s4_r18::deterministic_digest(sha256) ==> (r matches Ok(g) ==> v5_value_accepted(
                g.document(),
                *versions,
                sha256,
            )),
            r matches Err(R12ContractError::Noncanonical { expected_sha256, observed_sha256 }) ==> (
            parsed matches Some(v) && bytes@ != crate::json::json_bytes(v).push(10u8)
                && crate::s4_r18::digest_of(sha256, crate::json::json_bytes(v).push(10u8), expected_sha256@)
                && crate::s4_r18::digest_of(sha256, bytes@, observed_sha256@)),
    {
        enforce_portable_size(bytes.len())?;
        let value = match parsed {
            Some(v) => v,
            None => return Err(R12ContractError::InvalidProjection),
        };
        validate_portable_value(&value, versions, &sha256)?;
        let canonical = crate::json::to_bytes(&value);
        let mut expected = vstd::slice::slice_to_vec(canonical.as_slice());
        expected.push(10u8);
        if !crate::text::bytes_eq(expected.as_slice(), bytes) {
            let expected_slice = expected.as_slice();
            let expected_sha256 = sha256(expected_slice);
            let observed_sha256 = sha256(bytes);
            proof {
                assert(call_ensures(sha256, (expected_slice,), expected_sha256));
                assert(call_ensures(sha256, (bytes,), observed_sha256));
            }
            return Err(R12ContractError::Noncanonical { expected_sha256, observed_sha256 });
        }
        proof {
            if crate::s4_r18::deterministic_digest(sha256) {
                let ds = choose|ds: Seq<Seq<char>>|
                    crate::portable::family_digests_for(sha256, value, portable_v5_families(), ds)
                        && crate::portable::digests_declared_for(value, portable_v5_families(), ds);
                crate::portable::lemma_declared_for_every_answer(sha256, value, portable_v5_families(), ds);
            }
        }
        Ok(Self { value, canonical, sha256 })
    }

    /// Projects a snapshot whose stored payload and head the caller has
    /// validated (`stored_snapshot_valid`, else an invalid snapshot) and a
    /// documentation manifest into a V5 portable graph ([`v5_projection`]):
    /// the inputs must be usable ([`v5_export_inputs`], else an invalid
    /// snapshot; a boundary projection that does not validate gives its own error), and the projection must then validate
    /// ([`validate_portable_value`]) and fit the size limit with its final LF.
    pub fn from_validated_v14(
        semantic: &Json,
        head: &LocalSnapshotHead,
        documentation_manifest: &Json,
        stored_snapshot_valid: bool,
        versions: &PortableVersionsV5,
        sha256: F,
    ) -> (r: Result<Self, R12ContractError>)
        requires
            crate::s4_r18::total_digest(sha256),
        ensures
            !(stored_snapshot_valid && member_text(*semantic, "ontology_version"@) == Some(versions.ontology@)
                && crate::export::documentation_bound(*documentation_manifest, *head) && (member(*semantic, "knowledge_graph"@) matches Some(g) && g is Object)
                && member(*semantic, "repository_boundaries"@) is Some) ==> (r matches Err(R12ContractError::InvalidSnapshot)),
            stored_snapshot_valid && member_text(*semantic, "ontology_version"@) == Some(versions.ontology@)
                && crate::export::documentation_bound(*documentation_manifest, *head) && (member(*semantic, "knowledge_graph"@) matches Some(g) && g is Object)
                && member(*semantic, "repository_boundaries"@) is Some ==> match crate::s4_r12::boundary_projection_fault(member(*semantic, "repository_boundaries"@).unwrap()) {
                Some(FaultView::Malformed) => r matches Err(R12ContractError::InvalidProjection),
                Some(FaultView::Offending(_)) => r matches Err(R12ContractError::UnsafePayload { reason }) && reason@ == "unsafe_boundary_path"@,
                None => !v5_export_inputs(*semantic, *head, *documentation_manifest, *versions) ==> (r matches Err(R12ContractError::InvalidSnapshot)),
            },
            r matches Ok(g) ==> {
                &&& stored_snapshot_valid && v5_export_inputs(*semantic, *head, *documentation_manifest, *versions)
                &&& exists|ds: Seq<Seq<char>>|
                    #[trigger] v5_projection(g.document(), *semantic, *head, *documentation_manifest, *versions, sha256, ds)
                &&& g.canonical_bytes() == crate::json::json_bytes(g.document())
                &&& g.canonical_bytes().len() + 1 <= MAX_R12_PORTABLE_GRAPH_BYTES
                &&& g.digest_function() == sha256
                &&& portable_v5_fault(g.document(), *versions) is None
                &&& exists|ds: Seq<Seq<char>>|
                    crate::portable::family_digests_for(sha256, g.document(), portable_v5_families(), ds)
                        && crate::portable::digests_declared_for(g.document(), portable_v5_families(), ds)
            },
            crate::s4_r18::deterministic_digest(sha256) ==> (r matches Ok(g) ==> v5_value_accepted(
                g.document(),
                *versions,
                sha256,
            )),
            stored_snapshot_valid && v5_export_inputs(*semantic, *head, *documentation_manifest, *versions) && (forall|v: Json, ds: Seq<Seq<char>>|
                #[trigger] v5_projection(v, *semantic, *head, *documentation_manifest, *versions, sha256, ds) ==> v5_value_accepted(
                    v,
                    *versions,
                    sha256,
                ) && crate::json::json_bytes(v).len() + 1 <= MAX_R12_PORTABLE_GRAPH_BYTES) ==> r is Ok,
    {
        if !stored_snapshot_valid {
            return Err(R12ContractError::InvalidSnapshot);
        }
        let ontology_ok = match semantic.get_str("ontology_version") {
            Some(t) => crate::text::text_eq(t, versions.ontology.as_str()),
            None => false,
        };
        if !ontology_ok {
            return Err(R12ContractError::InvalidSnapshot);
        }
        if !crate::export::documentation_binding(documentation_manifest, head) {
            return Err(R12ContractError::InvalidSnapshot);
        }
        let graph = match semantic.get("knowledge_graph") {
            Some(g) => g,
            None => return Err(R12ContractError::InvalidSnapshot),
        };
        if graph.as_object().is_none() {
            return Err(R12ContractError::InvalidSnapshot);
        }
        let boundaries = match semantic.get("repository_boundaries") {
            Some(x) => x,
            None => return Err(R12ContractError::InvalidSnapshot),
        };
        crate::s4_r12::validate_boundary_projection(boundaries)?;
        let boundaries = json_copy(boundaries);
        let (documents, statements) = match crate::export::portable_documents(documentation_manifest) {
            Some(p) => p,
            None => return Err(R12ContractError::InvalidSnapshot),
        };
        let repository = match crate::export::copied_member(semantic, "repository") {
            Some(x) => x,
            None => return Err(R12ContractError::InvalidSnapshot),
        };
        let entities = match crate::export::copied_member(graph, "entities") {
            Some(x) => x,
            None => return Err(R12ContractError::InvalidSnapshot),
        };
        let relationships = match crate::export::copied_member(graph, "relationships") {
            Some(x) => x,
            None => return Err(R12ContractError::InvalidSnapshot),
        };
        let claims = match crate::export::copied_member(graph, "claims") {
            Some(x) => x,
            None => return Err(R12ContractError::InvalidSnapshot),
        };
        let evidence = match crate::export::copied_member(graph, "evidence") {
            Some(x) => x,
            None => return Err(R12ContractError::InvalidSnapshot),
        };
        let diagnostics = match crate::export::copied_member(graph, "diagnostics") {
            Some(x) => x,
            None => return Err(R12ContractError::InvalidSnapshot),
        };
        let coverage = match crate::export::copied_member(graph, "coverage") {
            Some(x) => x,
            None => return Err(R12ContractError::InvalidSnapshot),
        };
        let statements_value = Json::Array(statements);
        let documents_value = Json::Array(documents);
        let d0 = crate::export::digest_of_value(&claims, &sha256);
        let d1 = crate::export::digest_of_value(&coverage, &sha256);
        let d2 = crate::export::digest_of_value(&diagnostics, &sha256);
        let d3 = crate::export::digest_of_value(&statements_value, &sha256);
        let d4 = crate::export::digest_of_value(&documents_value, &sha256);
        let d5 = crate::export::digest_of_value(&entities, &sha256);
        let d6 = crate::export::digest_of_value(&evidence, &sha256);
        let d7 = crate::export::digest_of_value(&relationships, &sha256);
        let ghost ds = seq![d0@, d1@, d2@, d3@, d4@, d5@, d6@, d7@];
        let family_sha256 = Json::Object(
            vec![
                entry("claims", Json::Str(d0)),
                entry("coverage_gaps", Json::Str(d1)),
                entry("diagnostics", Json::Str(d2)),
                entry("document_statements", Json::Str(d3)),
                entry("documents", Json::Str(d4)),
                entry("entities", Json::Str(d5)),
                entry("evidence", Json::Str(d6)),
                entry("relationships", Json::Str(d7)),
            ],
        );
        let projection = Json::Object(
            vec![
                entry("family_sha256", family_sha256),
                entry("profile", Json::text("codenoesis.lossless-portable-projection/v5")),
            ],
        );
        let semantic_hash = Json::Object(
            vec![
                entry("algorithm", Json::text(head.semantic_hash_algorithm.as_str())),
                entry("value", Json::text(head.semantic_hash.as_str())),
            ],
        );
        let source_snapshot = Json::Object(
            vec![
                entry("schema_version", Json::text(versions.snapshot.as_str())),
                entry("semantic_hash", semantic_hash),
                entry("snapshot_id", Json::text(head.snapshot_id.as_str())),
            ],
        );
        let mut fields = vec![
            entry("claims", claims),
            entry("coverage_gaps", coverage),
            entry("diagnostics", diagnostics),
            entry("document_statements", statements_value),
            entry("documents", documents_value),
            entry("entities", entities),
            entry("evidence", evidence),
            entry("ontology_version", Json::text(versions.ontology.as_str())),
            entry("projection", projection),
            entry("query_contract_version", Json::text(versions.query.as_str())),
            entry("relationships", relationships),
            entry("repository", repository),
        ];
        fields.push(entry("repository_boundaries", boundaries));
        fields.push(entry("schema_version", Json::text(versions.portable_graph.as_str())));
        fields.push(entry("source_snapshot", source_snapshot));
        let value = Json::Object(fields);
        proof {
            assert(v5_projection(value, *semantic, *head, *documentation_manifest, *versions, sha256, ds));
        }
        validate_portable_value(&value, versions, &sha256)?;
        let canonical = crate::json::to_bytes(&value);
        let size = if canonical.len() < usize::MAX {
            canonical.len() + 1
        } else {
            usize::MAX
        };
        enforce_portable_size(size)?;
        proof {
            if crate::s4_r18::deterministic_digest(sha256) {
                let ds = choose|ds: Seq<Seq<char>>|
                    crate::portable::family_digests_for(sha256, value, portable_v5_families(), ds)
                        && crate::portable::digests_declared_for(value, portable_v5_families(), ds);
                crate::portable::lemma_declared_for_every_answer(sha256, value, portable_v5_families(), ds);
            }
        }
        Ok(Self { value, canonical, sha256 })
    }

    /// The graph document.
    pub fn value(&self) -> (r: &Json)
        ensures
            *r == self.document(),
    {
        &self.value
    }

    /// The canonical text followed by one LF.
    pub fn canonical_file(&self) -> (r: Vec<u8>)
        ensures
            r@ == self.canonical_bytes().push(10u8),
            r@ == crate::json::json_bytes(self.document()).push(10u8),
    {
        proof {
            use_type_invariant(self);
        }
        let mut bytes = vstd::slice::slice_to_vec(self.canonical.as_slice());
        bytes.push(10u8);
        bytes
    }

    /// The digest of the canonical file.
    pub fn canonical_sha256(&self) -> (r: String)
        requires
            crate::s4_r18::total_digest(self.digest_function()),
        ensures
            crate::s4_r18::digest_of(self.digest_function(), self.canonical_bytes().push(10u8), r@),
    {
        let bytes = self.canonical_file();
        let slice = bytes.as_slice();
        let digest = (self.sha256)(slice);
        proof {
            assert(call_ensures(self.sha256, (slice,), digest));
        }
        digest
    }
}

} // verus!
