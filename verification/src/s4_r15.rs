//! R15 portable-graph contract rules: size and nesting limits, privacy of
//! payloads, relative paths, local-flow kinds and reachability.
use vstd::prelude::*;
use crate::portable::{
    evidence_location, family_ids, family_outcome, locate_evidence, reference_fault,
    reference_list_fault, reference_list_outcome, reference_outcome, texts, EvidenceLocation, Fault,
    FaultView,
};
use crate::graph::{pair_views, reachable, reachable_from};
use crate::portable::{
    has_key_set, same_key_set, contains_text, find_last, is_live, live, lookup_last, string_array_outcome, string_items, text_items,
};
use crate::text::text_eq;
use crate::textset::{insert_text, lemma_sorted_same_members_equal, sorted_texts, texts_equal};
use crate::json::{as_items, as_text, member, member_items, member_u64, first_finding, find_unsafe, height, member_text, names_view, FindingView, Json};
use crate::text::{
    balanced_scripts, balanced_scripts_rule, one_of, patterns_view, strictly_increasing,
    strings_strictly_increasing, text_one_of,
    
    all_lower_hex, bounded_text, chars_all_lower_hex, chars_of, repeat_char, repeated,
    safe_relative_path_rule, safe_relative_path_text, take_scalars, utf8_len_at_most, utf8_len,
};

use crate::s4_r18::LocalSnapshotHead;
use crate::json::{entry, json_copy, member_count};

verus! {

pub const R15_PORTABLE_MARKER: &'static str = ".codenoesis-portable-graph-v8";
pub const R15_EXPLORER_MARKER: &'static str = ".codenoesis-local-explorer-v8";
pub const R15_EXPLORER_SECURITY_PROFILE: &'static str = "codenoesis.local-explorer-security/v8";
pub const MAX_R15_PORTABLE_GRAPH_BYTES: u64 = 268_435_456;
pub const MAX_R15_JSON_NESTING: u64 = 64;
pub const MAX_R15_TEXT_SEARCH_RESULTS: u64 = 100;
pub const R15_TRAVERSAL_DEPTH_DEFAULT: u64 = 1;
pub const MAX_R15_TRAVERSAL_DEPTH: u64 = 2;

/// Why an R15 portable graph or projection is refused.
#[derive(Clone, Debug, PartialEq, Eq)]
pub enum R15ContractError {
    InvalidSnapshot,
    UnsupportedSnapshotSchema(String),
    UnsupportedPortableGraphSchema(String),
    Noncanonical { expected_sha256: String, observed_sha256: String },
    IdentityConflict { family: &'static str, id: String },
    ReferenceMismatch { family: &'static str, id: String },
    LimitExceeded { limit: &'static str, maximum: u64, observed: u64 },
    UnsafePayload { reason: &'static str },
    AssetIntegrityMismatch,
    InvalidProjection,
    Internal,
}

impl R15ContractError {
    /// The human-readable message of the error.
    pub fn message(&self) -> (r: &'static str)
        ensures
            r@ == match self {
                R15ContractError::InvalidSnapshot => "invalid R15 snapshot"@,
                R15ContractError::UnsupportedSnapshotSchema(_) => "unsupported R15 snapshot schema"@,
                R15ContractError::UnsupportedPortableGraphSchema(_) => "unsupported portable graph schema"@,
                R15ContractError::Noncanonical { .. } => "noncanonical portable graph"@,
                R15ContractError::IdentityConflict { .. } => "portable graph identity conflict"@,
                R15ContractError::ReferenceMismatch { .. } => "portable graph reference mismatch"@,
                R15ContractError::LimitExceeded { .. } => "portable graph limit exceeded"@,
                R15ContractError::UnsafePayload { .. } => "unsafe portable payload"@,
                R15ContractError::AssetIntegrityMismatch => "explorer asset integrity mismatch"@,
                R15ContractError::InvalidProjection => "invalid portable graph projection"@,
                R15ContractError::Internal => "internal R15 contract failure"@,
            },
    {
        match self {
            R15ContractError::InvalidSnapshot => "invalid R15 snapshot",
            R15ContractError::UnsupportedSnapshotSchema(_) => "unsupported R15 snapshot schema",
            R15ContractError::UnsupportedPortableGraphSchema(_) => "unsupported portable graph schema",
            R15ContractError::Noncanonical { .. } => "noncanonical portable graph",
            R15ContractError::IdentityConflict { .. } => "portable graph identity conflict",
            R15ContractError::ReferenceMismatch { .. } => "portable graph reference mismatch",
            R15ContractError::LimitExceeded { .. } => "portable graph limit exceeded",
            R15ContractError::UnsafePayload { .. } => "unsafe portable payload",
            R15ContractError::AssetIntegrityMismatch => "explorer asset integrity mismatch",
            R15ContractError::InvalidProjection => "invalid portable graph projection",
            R15ContractError::Internal => "internal R15 contract failure",
        }
    }
}

/// A portable graph of `length` bytes is accepted exactly when it is at most
/// [`MAX_R15_PORTABLE_GRAPH_BYTES`] long.
pub fn enforce_portable_size(length: usize) -> (r: Result<(), R15ContractError>)
    ensures
        r is Ok <==> length <= MAX_R15_PORTABLE_GRAPH_BYTES,
        r is Err ==> (r matches Err(R15ContractError::LimitExceeded { limit, maximum, observed })
            && limit@ == "portable_graph_bytes"@ && maximum == MAX_R15_PORTABLE_GRAPH_BYTES
            && observed == length),
{
    let observed = length as u64;
    if observed > MAX_R15_PORTABLE_GRAPH_BYTES {
        return Err(
            R15ContractError::LimitExceeded {
                limit: "portable_graph_bytes",
                maximum: MAX_R15_PORTABLE_GRAPH_BYTES,
                observed,
            },
        );
    }
    Ok(())
}

/// A value entered at `depth` is accepted exactly when no member lies deeper
/// than [`MAX_R15_JSON_NESTING`]; the error reports the first depth observed
/// above the maximum.
pub fn ensure_nesting(value: &Json, depth: u64) -> (r: Result<(), R15ContractError>)
    ensures
        r is Ok <==> depth + height(*value) <= MAX_R15_JSON_NESTING,
        r is Err ==> (r matches Err(R15ContractError::LimitExceeded { limit, maximum, observed })
            && limit@ == "json_nesting"@ && maximum == MAX_R15_JSON_NESTING && observed == if depth
            > MAX_R15_JSON_NESTING {
            depth
        } else {
            (MAX_R15_JSON_NESTING + 1) as u64
        }),
{
    match crate::json::nesting_within(value, depth, MAX_R15_JSON_NESTING) {
        Ok(()) => Ok(()),
        Err(observed) => Err(
            R15ContractError::LimitExceeded {
                limit: "json_nesting",
                maximum: MAX_R15_JSON_NESTING,
                observed,
            },
        ),
    }
}

/// Member names that an R15 portable payload never holds.
pub open spec fn r15_private_fields() -> Seq<Seq<char>> {
    seq![
        "body_text"@,
        "condition_text"@,
        "expression_text"@,
        "initializer_text"@,
        "literal_lexeme"@,
        "source_contents"@,
        "source_snippet"@,
        "repository_root"@,
        "absolute_path"@,
        "raw_url"@,
        "credentials"@,
        "environment"@,
        "arguments"@,
        "telemetry"@,
    ]
}

/// A payload is accepted exactly when it holds no private member name and
/// no string with `://`; the first finding of an in-order walk decides the
/// reason.
pub fn validate_private_fields(value: &Json) -> (r: Result<(), R15ContractError>)
    ensures
        r is Ok <==> first_finding(*value, r15_private_fields(), true) is None,
        first_finding(*value, r15_private_fields(), true) matches Some(FindingView::DeniedField(_))
            ==> (r matches Err(R15ContractError::UnsafePayload { reason }) && reason@ == "private_field"@),
        first_finding(*value, r15_private_fields(), true) matches Some(FindingView::Url)
            ==> (r matches Err(R15ContractError::UnsafePayload { reason }) && reason@ == "raw_url"@),
{
    let denied = [
        "body_text",
        "condition_text",
        "expression_text",
        "initializer_text",
        "literal_lexeme",
        "source_contents",
        "source_snippet",
        "repository_root",
        "absolute_path",
        "raw_url",
        "credentials",
        "environment",
        "arguments",
        "telemetry",
    ];
    assert(names_view(denied@) =~= r15_private_fields());
    match find_unsafe(value, &denied, true) {
        None => Ok(()),
        Some(crate::json::Finding::DeniedField(_)) => Err(
            R15ContractError::UnsafePayload { reason: "private_field" },
        ),
        Some(crate::json::Finding::Url) => Err(R15ContractError::UnsafePayload { reason: "raw_url" }),
    }
}

/// Repository-relative output paths of the portable graph
/// ([`safe_relative_path_rule`]).
pub fn safe_relative_path(value: &str) -> (r: bool)
    ensures
        r == safe_relative_path_rule(value@),
{
    safe_relative_path_text(value)
}

/// The `id` of a record (`value.get("id").and_then(Value::as_str)`).
pub fn record_id(value: &Json) -> (r: Option<&str>)
    ensures
        match r {
            Some(t) => member_text(*value, "id"@) == Some(t@),
            None => member_text(*value, "id"@) is None,
        },
{
    value.get_str("id")
}

/// A lowercase hexadecimal SHA-256 digest: 64 lowercase hex digits.
pub open spec fn sha256_text(s: Seq<char>) -> bool {
    s.len() == 64 && all_lower_hex(s)
}

/// Whether `value` is a lowercase hexadecimal SHA-256 digest.
pub fn valid_sha256(value: &str) -> (r: bool)
    ensures
        r == sha256_text(value@),
{
    let cs = chars_of(value);
    cs.len() == 64 && chars_all_lower_hex(cs.as_slice())
}

/// The first `maximum` scalars of `value`.
pub fn bounded(value: &str, maximum: usize) -> (r: String)
    ensures
        r@ == take_scalars(value@, maximum as nat),
{
    bounded_text(value, maximum)
}

/// The first `maximum` scalars of `value`, or `fallback` when they are none.
pub fn bounded_nonempty(value: &str, maximum: usize, fallback: &str) -> (r: String)
    ensures
        r@ == if take_scalars(value@, maximum as nat).len() == 0 {
            fallback@
        } else {
            take_scalars(value@, maximum as nat)
        },
{
    let value = bounded(value, maximum);
    if value.as_str().is_empty() {
        fallback.to_owned()
    } else {
        value
    }
}

/// The identifiers of the records of `family` (each record's `id_field`),
/// which must be present, non-empty and strictly increasing.
pub fn validate_family(object: &Json, family: &'static str, id_field: &'static str) -> (r: Result<
    Vec<String>,
    R15ContractError,
>)
    ensures
        match family_outcome(*object, family@, id_field@) {
            Ok(ids) => r matches Ok(v) && texts(v@) == ids,
            Err(FaultView::Malformed) => r matches Err(R15ContractError::InvalidProjection),
            Err(FaultView::Offending(id)) => r matches Err(
                R15ContractError::IdentityConflict { family: f, id: i },
            ) && f == family && i@ == id,
        },
        r matches Ok(v) ==> crate::textset::sorted_texts(texts(v@)),
{
    match family_ids(object, family, id_field) {
        Ok(ids) => Ok(ids),
        Err(Fault::Malformed) => Err(R15ContractError::InvalidProjection),
        Err(Fault::Offending(id)) => Err(R15ContractError::IdentityConflict { family, id }),
    }
}

/// The reference under `field` of `record` names one of `identifiers`.
pub fn validate_reference(
    record: &Json,
    field: &'static str,
    identifiers: &[String],
    family: &'static str,
) -> (r: Result<(), R15ContractError>)
    ensures
        match reference_outcome(*record, field@, texts(identifiers@)) {
            None => r is Ok,
            Some(FaultView::Malformed) => r matches Err(R15ContractError::InvalidProjection),
            Some(FaultView::Offending(id)) => r matches Err(
                R15ContractError::ReferenceMismatch { family: f, id: i },
            ) && f == family && i@ == id,
        },
{
    match reference_fault(record, field, identifiers) {
        None => Ok(()),
        Some(Fault::Malformed) => Err(R15ContractError::InvalidProjection),
        Some(Fault::Offending(id)) => Err(R15ContractError::ReferenceMismatch { family, id }),
    }
}

/// Each reference listed under `field`, when the field is present, names one
/// of `identifiers`.
pub fn validate_reference_array_if_present(
    record: &Json,
    field: &'static str,
    identifiers: &[String],
    family: &'static str,
) -> (r: Result<(), R15ContractError>)
    ensures
        match reference_list_outcome(*record, field@, texts(identifiers@)) {
            None => r is Ok,
            Some(FaultView::Malformed) => r matches Err(R15ContractError::InvalidProjection),
            Some(FaultView::Offending(id)) => r matches Err(
                R15ContractError::ReferenceMismatch { family: f, id: i },
            ) && f == family && i@ == id,
        },
{
    match reference_list_fault(record, field, identifiers) {
        None => Ok(()),
        Some(Fault::Malformed) => Err(R15ContractError::InvalidProjection),
        Some(Fault::Offending(id)) => Err(R15ContractError::ReferenceMismatch { family, id }),
    }
}

/// An evidence record points at a safe repository path or at an artifact
/// ([`evidence_location`]).
pub fn validate_evidence_path(evidence: &Json) -> (r: Result<(), R15ContractError>)
    ensures
        match evidence_location(*evidence) {
            EvidenceLocation::Accepted => r is Ok,
            EvidenceLocation::UnsafeEvidencePath => r matches Err(
                R15ContractError::UnsafePayload { reason },
            ) && reason@ == "unsafe_evidence_path"@,
            EvidenceLocation::UnsafeDocumentPath => r matches Err(
                R15ContractError::UnsafePayload { reason },
            ) && reason@ == "unsafe_document_path"@,
            EvidenceLocation::Unanchored => r matches Err(R15ContractError::InvalidProjection),
        },
{
    match locate_evidence(evidence) {
        EvidenceLocation::Accepted => Ok(()),
        EvidenceLocation::UnsafeEvidencePath => Err(
            R15ContractError::UnsafePayload { reason: "unsafe_evidence_path" },
        ),
        EvidenceLocation::UnsafeDocumentPath => Err(
            R15ContractError::UnsafePayload { reason: "unsafe_document_path" },
        ),
        EvidenceLocation::Unanchored => Err(R15ContractError::InvalidProjection),
    }
}

/// Relationship kinds of the local-flow layer.
pub open spec fn local_flow_relationship_kinds() -> Seq<Seq<char>> {
    seq![
        "HAS_SYNTAX_BLOCK"@,
        "CONTAINS_FLOW_NODE"@,
        "HAS_CONDITION"@,
        "SYNTAX_NEXT"@,
        "SYNTAX_TRUE_BRANCH"@,
        "SYNTAX_FALSE_BRANCH"@,
        "SYNTAX_REACHES"@,
        "LEXICAL_MUST_REACHES_READ"@,
        "LEXICAL_MAY_REACHES_READ"@,
    ]
}

/// Whether `kind` is a local-flow relationship kind.
pub fn is_local_flow_relationship_kind(kind: &str) -> (r: bool)
    ensures
        r == one_of(kind@, local_flow_relationship_kinds()),
{
    let kinds = [
        "HAS_SYNTAX_BLOCK",
        "CONTAINS_FLOW_NODE",
        "HAS_CONDITION",
        "SYNTAX_NEXT",
        "SYNTAX_TRUE_BRANCH",
        "SYNTAX_FALSE_BRANCH",
        "SYNTAX_REACHES",
        "LEXICAL_MUST_REACHES_READ",
        "LEXICAL_MAY_REACHES_READ",
    ];
    assert(patterns_view(kinds@) =~= local_flow_relationship_kinds());
    text_one_of(kind, &kinds)
}

/// Whether every value is strictly greater than the one before it.
pub fn strictly_ordered(values: &[String]) -> (r: bool)
    ensures
        r == strictly_increasing(texts(values@)),
{
    strings_strictly_increasing(values)
}

/// The explorer page is UTF-8 and, ASCII-lowercased, holds as many
/// `</script>` closings as `<script` openings, and at least one
/// ([`balanced_scripts_rule`]).
pub fn balanced_script_elements(bytes: &[u8]) -> (r: bool)
    ensures
        r == balanced_scripts_rule(bytes@),
{
    balanced_scripts(bytes)
}

/// Everything reached from `start` along `adjacency` (pairs of source and
/// target) by one edge or more, in increasing order.
pub fn portable_reachable(start: &str, adjacency: &[(String, String)]) -> (r: Vec<String>)
    ensures
        sorted_texts(texts(r@)),
        forall|x: Seq<char>| #[trigger] texts(r@).contains(x) <==> reachable(pair_views(adjacency@), start@, x),
{
    reachable_from(start, adjacency)
}

/// Kinds of the direct syntax edges between flow nodes.
pub open spec fn syntax_edge_kinds() -> Seq<Seq<char>> {
    seq!["SYNTAX_NEXT"@, "SYNTAX_TRUE_BRANCH"@, "SYNTAX_FALSE_BRANCH"@]
}

/// A relationship is a direct syntax edge.
pub open spec fn is_syntax_edge(relationship: Json) -> bool {
    match member_text(relationship, "kind"@) {
        Some(kind) => one_of(kind, syntax_edge_kinds()),
        None => false,
    }
}

/// The direct syntax edges among `relationships`, in order.
pub open spec fn syntax_relationships(relationships: Seq<Json>) -> Seq<Json>
    decreases relationships.len(),
{
    if relationships.len() == 0 {
        Seq::empty()
    } else {
        let rest = syntax_relationships(relationships.drop_last());
        if is_syntax_edge(relationships.last()) {
            rest.push(relationships.last())
        } else {
            rest
        }
    }
}

/// The text under `field`, or the empty text.
pub open spec fn text_or_empty(record: Json, field: Seq<char>) -> Seq<char> {
    match member_text(record, field) {
        Some(t) => t,
        None => Seq::empty(),
    }
}

/// Every edge names its `source` and `target`.
pub open spec fn endpoints_present(direct: Seq<Json>) -> bool {
    forall|i: int|
        0 <= i < direct.len() ==> member_text(#[trigger] direct[i], "source"@) is Some
            && member_text(direct[i], "target"@) is Some
}

/// The (source, target) pairs of the edges.
pub open spec fn syntax_pairs(direct: Seq<Json>) -> Seq<(Seq<char>, Seq<char>)> {
    direct.map_values(|r: Json| (text_or_empty(r, "source"@), text_or_empty(r, "target"@)))
}

/// The pairs with source and target swapped.
pub open spec fn reversed_pairs(pairs: Seq<(Seq<char>, Seq<char>)>) -> Seq<(Seq<char>, Seq<char>)> {
    pairs.map_values(|e: (Seq<char>, Seq<char>)| (e.1, e.0))
}

/// A vertex of the derivation from `source` to `target`: either end, or a
/// node reached from `source` and, against the edges, from `target`.
pub open spec fn derivation_vertex(
    pairs: Seq<(Seq<char>, Seq<char>)>,
    source: Seq<char>,
    target: Seq<char>,
    x: Seq<char>,
) -> bool {
    x == source || x == target || (reachable(pairs, source, x) && reachable(
        reversed_pairs(pairs),
        target,
        x,
    ))
}

/// The identifiers of the edges whose ends are both derivation vertices, in
/// order; `None` when one of them has no identifier.
pub open spec fn derivation_ids(
    direct: Seq<Json>,
    pairs: Seq<(Seq<char>, Seq<char>)>,
    source: Seq<char>,
    target: Seq<char>,
) -> Option<Seq<Seq<char>>>
    decreases direct.len(),
{
    if direct.len() == 0 {
        Some(Seq::empty())
    } else {
        match derivation_ids(direct.drop_last(), pairs, source, target) {
            None => None,
            Some(rest) => {
                let r = direct.last();
                if derivation_vertex(pairs, source, target, text_or_empty(r, "source"@))
                    && derivation_vertex(pairs, source, target, text_or_empty(r, "target"@)) {
                    match member_text(r, "id"@) {
                        Some(id) => Some(rest.push(id)),
                        None => None,
                    }
                } else {
                    Some(rest)
                }
            },
        }
    }
}

/// The derivation of a syntax-reach claim from `source` to `target` lists
/// exactly the vertices on its paths, in increasing order, and exactly the
/// direct edges between them, in stored order.
pub open spec fn syntax_derivation_rule(
    source: Seq<char>,
    target: Seq<char>,
    input_entities: Seq<Seq<char>>,
    input_relationships: Seq<Seq<char>>,
    relationships: Seq<Json>,
) -> bool {
    let direct = syntax_relationships(relationships);
    let pairs = syntax_pairs(direct);
    &&& endpoints_present(direct)
    &&& sorted_texts(input_entities)
    &&& forall|x: Seq<char>|
        #[trigger] input_entities.contains(x) <==> derivation_vertex(pairs, source, target, x)
    &&& derivation_ids(direct, pairs, source, target) == Some(input_relationships)
}

fn is_syntax_edge_kind(relationship: &Json) -> (r: bool)
    ensures
        r == is_syntax_edge(*relationship),
{
    match relationship.get_str("kind") {
        Some(kind) => {
            let kinds = ["SYNTAX_NEXT", "SYNTAX_TRUE_BRANCH", "SYNTAX_FALSE_BRANCH"];
            assert(patterns_view(kinds@) =~= syntax_edge_kinds());
            text_one_of(kind, &kinds)
        },
        None => false,
    }
}

/// Checks the derivation of a syntax-reach claim ([`syntax_derivation_rule`]).
pub fn validate_portable_syntax_derivation(
    source: &str,
    target: &str,
    input_entities: &[String],
    input_relationships: &[String],
    relationships: &[Json],
) -> (r: Result<(), R15ContractError>)
    ensures
        r is Ok <==> syntax_derivation_rule(
            source@,
            target@,
            texts(input_entities@),
            texts(input_relationships@),
            relationships@,
        ),
        r is Err ==> r matches Err(R15ContractError::InvalidProjection),
{
    let ghost rels = relationships@;
    let mut direct: Vec<usize> = Vec::new();
    let ghost mut dv: Seq<Json> = Seq::empty();
    let mut edges: Vec<(String, String)> = Vec::new();
    let mut reverse: Vec<(String, String)> = Vec::new();
    let mut k: usize = 0;
    while k < relationships.len()
        invariant
            k <= relationships.len(),
            rels == relationships@,
            dv == syntax_relationships(rels.take(k as int)),
            endpoints_present(dv),
            direct@.len() == dv.len(),
            forall|j: int| 0 <= j < dv.len() ==> #[trigger] direct@[j] < rels.len() && dv[j] == rels[direct@[j] as int],
            pair_views(edges@) == syntax_pairs(dv),
            pair_views(reverse@) == reversed_pairs(syntax_pairs(dv)),
        decreases relationships.len() - k,
    {
        proof {
            assert(rels.take(k + 1).drop_last() =~= rels.take(k as int));
            assert(rels.take(k + 1).last() == rels[k as int]);
        }
        if is_syntax_edge_kind(&relationships[k]) {
            let edge_source = match relationships[k].get_str("source") {
                Some(t) => t,
                None => {
                    proof {
                        let d = syntax_relationships(rels);
                        lemma_syntax_prefix(rels, (k + 1) as int);
                        assert(syntax_relationships(rels.take(k + 1)) == dv.push(rels[k as int]));
                        assert(d.take(dv.len() + 1int) == dv.push(rels[k as int]));
                        assert(d.take(dv.len() + 1int)[dv.len() as int] == d[dv.len() as int]);
                        assert(d[dv.len() as int] == rels[k as int]);
                    }
                    return Err(R15ContractError::InvalidProjection);
                },
            };
            let edge_target = match relationships[k].get_str("target") {
                Some(t) => t,
                None => {
                    proof {
                        let d = syntax_relationships(rels);
                        lemma_syntax_prefix(rels, (k + 1) as int);
                        assert(d.take(dv.len() + 1int) == dv.push(rels[k as int]));
                        assert(d.take(dv.len() + 1int)[dv.len() as int] == d[dv.len() as int]);
                        assert(d[dv.len() as int] == rels[k as int]);
                    }
                    return Err(R15ContractError::InvalidProjection);
                },
            };
            let ghost before = dv;
            let ghost old_edges = edges@;
            let ghost old_reverse = reverse@;
            proof {
                dv = dv.push(rels[k as int]);
            }
            direct.push(k);
            edges.push((edge_source.to_owned(), edge_target.to_owned()));
            reverse.push((edge_target.to_owned(), edge_source.to_owned()));
            proof {
                let n = before.len() as int;
                assert(pair_views(old_reverse).len() == reversed_pairs(syntax_pairs(before)).len());
                assert(old_reverse.len() == n);
                assert(text_or_empty(rels[k as int], "source"@) == edge_source@);
                assert(text_or_empty(rels[k as int], "target"@) == edge_target@);
                assert(syntax_pairs(dv)[n] == (edge_source@, edge_target@));
                assert forall|i: int| 0 <= i < dv.len() implies #[trigger] pair_views(edges@)[i]
                    == syntax_pairs(dv)[i] by {
                    if i < n {
                        assert(dv[i] == before[i]);
                        assert(edges@[i] == old_edges[i]);
                        assert(pair_views(old_edges)[i] == syntax_pairs(before)[i]);
                    }
                }
                assert forall|i: int| 0 <= i < dv.len() implies #[trigger] pair_views(reverse@)[i]
                    == reversed_pairs(syntax_pairs(dv))[i] by {
                    if i < n {
                        assert(dv[i] == before[i]);
                        assert(reverse@[i] == old_reverse[i]);
                        assert(pair_views(old_reverse)[i] == reversed_pairs(syntax_pairs(before))[i]);
                    }
                }
                assert(pair_views(edges@) =~= syntax_pairs(dv));
                assert(pair_views(reverse@) =~= reversed_pairs(syntax_pairs(dv)));
                assert forall|j: int| 0 <= j < dv.len() implies #[trigger] direct@[j] < rels.len()
                    && dv[j] == rels[direct@[j] as int] by {
                    if j < before.len() {
                        assert(dv[j] == before[j]);
                    }
                }
            }
        }
        k += 1;
    }
    proof {
        assert(rels.take(k as int) =~= rels);
    }
    let ghost pairs = syntax_pairs(dv);
    let forward = reachable_from(source, edges.as_slice());
    let backward = reachable_from(target, reverse.as_slice());
    let mut vertices: Vec<String> = Vec::new();
    let mut i: usize = 0;
    while i < forward.len()
        invariant
            i <= forward.len(),
            sorted_texts(texts(vertices@)),
            forall|x: Seq<char>| #[trigger]
                texts(vertices@).contains(x) <==> (exists|j: int|
                    0 <= j < i && #[trigger] texts(forward@)[j] == x) && texts(backward@).contains(x),
        decreases forward.len() - i,
    {
        if contains_text(backward.as_slice(), forward[i].as_str()) {
            insert_text(&mut vertices, forward[i].as_str());
        }
        proof {
            assert(texts(forward@)[i as int] == forward@[i as int]@);
        }
        i += 1;
    }
    insert_text(&mut vertices, source);
    insert_text(&mut vertices, target);
    proof {
        assert forall|x: Seq<char>| #[trigger] texts(vertices@).contains(x) <==> derivation_vertex(
            pairs,
            source@,
            target@,
            x,
        ) by {
            if texts(forward@).contains(x) {
                let j = choose|j: int| 0 <= j < forward@.len() && texts(forward@)[j] == x;
                assert(texts(forward@)[j] == x);
            }
        }
    }
    let mut expected: Vec<String> = Vec::new();
    let mut j: usize = 0;
    while j < direct.len()
        invariant
            j <= direct.len(),
            direct@.len() == dv.len(),
            forall|m: int| 0 <= m < dv.len() ==> #[trigger] direct@[m] < rels.len() && dv[m] == rels[direct@[m] as int],
            rels == relationships@,
            dv == syntax_relationships(rels),
            endpoints_present(dv),
            pairs == syntax_pairs(dv),
            forall|x: Seq<char>| #[trigger] texts(vertices@).contains(x) <==> derivation_vertex(
                pairs,
                source@,
                target@,
                x,
            ),
            derivation_ids(dv.take(j as int), pairs, source@, target@) == Some(texts(expected@)),
        decreases direct.len() - j,
    {
        let relationship = &relationships[direct[j]];
        proof {
            assert(dv[j as int] == *relationship);
            assert(dv.take(j + 1).drop_last() =~= dv.take(j as int));
            assert(dv.take(j + 1).last() == dv[j as int]);
        }
        let edge_source = match relationship.get_str("source") {
            Some(t) => t,
            None => return Err(R15ContractError::InvalidProjection),
        };
        let edge_target = match relationship.get_str("target") {
            Some(t) => t,
            None => return Err(R15ContractError::InvalidProjection),
        };
        if contains_text(vertices.as_slice(), edge_source) && contains_text(
            vertices.as_slice(),
            edge_target,
        ) {
            let id = match relationship.get_str("id") {
                Some(id) => id,
                None => {
                    proof {
                        assert(text_or_empty(*relationship, "source"@) == edge_source@);
                        assert(text_or_empty(*relationship, "target"@) == edge_target@);
                        assert(derivation_ids(dv.take(j + 1), pairs, source@, target@) is None);
                        lemma_derivation_ids_prefix(dv, pairs, source@, target@, (j + 1) as int);
                    }
                    return Err(R15ContractError::InvalidProjection);
                },
            };
            let ghost before = expected@;
            expected.push(id.to_owned());
            proof {
                assert(text_or_empty(*relationship, "source"@) == edge_source@);
                assert(text_or_empty(*relationship, "target"@) == edge_target@);
                assert(texts(expected@) =~= texts(before).push(id@));
            }
        }
        j += 1;
    }
    proof {
        assert(dv.take(j as int) =~= dv);
    }
    let entities_match = texts_equal(input_entities, vertices.as_slice());
    let relationships_match = texts_equal(input_relationships, expected.as_slice());
    proof {
        if syntax_derivation_rule(
            source@,
            target@,
            texts(input_entities@),
            texts(input_relationships@),
            relationships@,
        ) {
            lemma_sorted_same_members_equal(texts(input_entities@), texts(vertices@));
        }
    }
    if !entities_match || !relationships_match {
        return Err(R15ContractError::InvalidProjection);
    }
    Ok(())
}

/// The direct edges of a prefix are a prefix of the direct edges.
proof fn lemma_syntax_prefix(relationships: Seq<Json>, n: int)
    requires
        0 <= n <= relationships.len(),
    ensures
        syntax_relationships(relationships).take(syntax_relationships(relationships.take(n)).len() as int)
            == syntax_relationships(relationships.take(n)),
        syntax_relationships(relationships.take(n)).len() <= syntax_relationships(relationships).len(),
    decreases relationships.len() - n,
{
    if n < relationships.len() {
        lemma_syntax_prefix(relationships, n + 1);
        assert(relationships.take(n + 1).drop_last() =~= relationships.take(n));
        let short = syntax_relationships(relationships.take(n));
        let long = syntax_relationships(relationships.take(n + 1));
        let all = syntax_relationships(relationships);
        assert(all.take(long.len() as int) == long);
        assert(all.take(short.len() as int) =~= long.take(short.len() as int));
        assert(long.take(short.len() as int) =~= short);
    } else {
        assert(relationships.take(n) =~= relationships);
        assert(syntax_relationships(relationships).take(syntax_relationships(relationships).len() as int)
            =~= syntax_relationships(relationships));
    }
}

/// A missing identifier in a prefix is missing in the whole.
proof fn lemma_derivation_ids_prefix(
    direct: Seq<Json>,
    pairs: Seq<(Seq<char>, Seq<char>)>,
    source: Seq<char>,
    target: Seq<char>,
    n: int,
)
    requires
        0 <= n <= direct.len(),
        derivation_ids(direct.take(n), pairs, source, target) is None,
    ensures
        derivation_ids(direct, pairs, source, target) is None,
    decreases direct.len() - n,
{
    if n < direct.len() {
        assert(direct.take(n + 1).drop_last() =~= direct.take(n));
        lemma_derivation_ids_prefix(direct, pairs, source, target, n + 1);
    } else {
        assert(direct.take(n) =~= direct);
    }
}

/// The relationships among the first `n` kept by a map keyed by `id` whose
/// `kind` and `source` are the given ones, in order.
pub open spec fn matching_edges(relationships: Seq<Json>, n: nat, kind: Seq<char>, source: Seq<char>) -> Seq<
    Json,
>
    decreases n,
{
    if n == 0 {
        Seq::empty()
    } else {
        let rest = matching_edges(relationships, (n - 1) as nat, kind, source);
        let r = relationships[n - 1];
        if member_text(r, "kind"@) == Some(kind) && member_text(r, "source"@) == Some(source) && live(
            relationships,
            n - 1,
        ) {
            rest.push(r)
        } else {
            rest
        }
    }
}

/// The byte where an entity starts.
pub open spec fn start_byte(entity: Json) -> Option<u64> {
    match member(entity, "locator"@) {
        Some(locator) => member_u64(locator, "start_byte"@),
        None => None,
    }
}

/// Relationship kinds that a lexical derivation may list between its
/// entities.
pub open spec fn lexical_structure_kinds() -> Seq<Seq<char>> {
    seq!["CONTAINS_FLOW_NODE"@, "SYNTAX_NEXT"@, "SYNTAX_TRUE_BRANCH"@, "SYNTAX_FALSE_BRANCH"@]
}

/// One listed relationship of a lexical derivation: the read of the
/// binding, a write of it by a listed entity, or structure between listed
/// entities.
pub open spec fn lexical_candidate_ok(
    id: Seq<char>,
    target: Seq<char>,
    binding: Seq<char>,
    input_entities: Seq<Seq<char>>,
    relationships: Seq<Json>,
) -> bool {
    match lookup_last(relationships, id) {
        Some(c) => match (member_text(c, "source"@), member_text(c, "target"@), member_text(c, "kind"@)) {
            (Some(cs), Some(ct), Some(kind)) => if kind == "READS"@ {
                cs == target && ct == binding
            } else if kind == "WRITES"@ {
                ct == binding && input_entities.contains(cs)
            } else if one_of(kind, lexical_structure_kinds()) {
                input_entities.contains(cs) && input_entities.contains(ct)
            } else {
                false
            },
            _ => false,
        },
        None => false,
    }
}

/// The derivation of a lexical reaching read from `source` (a write, or the
/// binding itself) to `target` (the read): exactly one read of one binding,
/// the write of that binding by `source` unless `source` is the binding, both
/// in the same callable with `source` starting first, both edges listed, and
/// every listed relationship allowed ([`lexical_candidate_ok`]).
pub open spec fn lexical_derivation_rule(
    source: Seq<char>,
    target: Seq<char>,
    input_entities: Seq<Seq<char>>,
    input_relationships: Seq<Seq<char>>,
    entities: Seq<Json>,
    relationships: Seq<Json>,
) -> bool {
    let reads = matching_edges(relationships, relationships.len(), "READS"@, target);
    let writes = matching_edges(relationships, relationships.len(), "WRITES"@, source);
    let se = lookup_last(entities, source);
    let te = lookup_last(entities, target);
    &&& se is Some
    &&& te is Some
    &&& reads.len() == 1
    &&& member_text(reads[0], "target"@) is Some
    &&& if member_text(se->Some_0, "kind"@) == Some("rust.pattern_binding"@) {
        source == member_text(reads[0], "target"@)->Some_0 && writes.len() == 0
    } else {
        writes.len() == 1 && member_text(writes[0], "target"@) == member_text(reads[0], "target"@)
    }
    &&& member_text(se->Some_0, "callable_id"@) == member_text(te->Some_0, "callable_id"@)
    &&& start_byte(se->Some_0) is Some
    &&& start_byte(te->Some_0) is Some
    &&& start_byte(se->Some_0)->Some_0 <= start_byte(te->Some_0)->Some_0
    &&& member_text(reads[0], "id"@) is Some
    &&& input_relationships.contains(member_text(reads[0], "id"@)->Some_0)
    &&& writes.len() > 0 ==> (member_text(writes[0], "id"@) is Some && input_relationships.contains(
        member_text(writes[0], "id"@)->Some_0,
    ))
    &&& forall|k: int|
        0 <= k < input_relationships.len() ==> lexical_candidate_ok(
            #[trigger] input_relationships[k],
            target,
            member_text(reads[0], "target"@)->Some_0,
            input_entities,
            relationships,
        )
}

/// The positions of [`matching_edges`] over all relationships.
fn matching_edge_positions(relationships: &[Json], kind: &str, source: &str) -> (r: Vec<usize>)
    ensures
        r@.len() == matching_edges(relationships@, relationships@.len(), kind@, source@).len(),
        forall|m: int|
            0 <= m < r@.len() ==> #[trigger] r@[m] < relationships.len() && relationships@[r@[m] as int]
                == matching_edges(relationships@, relationships@.len(), kind@, source@)[m],
{
    let mut positions: Vec<usize> = Vec::new();
    let mut k: usize = 0;
    while k < relationships.len()
        invariant
            k <= relationships.len(),
            positions@.len() == matching_edges(relationships@, k as nat, kind@, source@).len(),
            forall|m: int|
                0 <= m < positions@.len() ==> #[trigger] positions@[m] < relationships.len()
                    && relationships@[positions@[m] as int] == matching_edges(
                    relationships@,
                    k as nat,
                    kind@,
                    source@,
                )[m],
        decreases relationships.len() - k,
    {
        let r = &relationships[k];
        let matches = match (r.get_str("kind"), r.get_str("source")) {
            (Some(a), Some(b)) => text_eq(a, kind) && text_eq(b, source),
            _ => false,
        };
        let ghost before = positions@;
        if matches && is_live(relationships, k) {
            positions.push(k);
        }
        proof {
            let prev = matching_edges(relationships@, k as nat, kind@, source@);
            let next = matching_edges(relationships@, (k + 1) as nat, kind@, source@);
            assert forall|m: int| 0 <= m < positions@.len() implies #[trigger] positions@[m]
                < relationships.len() && relationships@[positions@[m] as int] == next[m] by {
                if m < before.len() {
                    assert(positions@[m] == before[m]);
                    assert(next[m] == prev[m]);
                }
            }
        }
        k += 1;
    }
    positions
}

/// Checks the derivation of a lexical reaching read
/// ([`lexical_derivation_rule`]); `entities` and `relationships` are read as
/// maps keyed by `id`.
pub fn validate_portable_lexical_derivation(
    source: &str,
    target: &str,
    input_entities: &[String],
    input_relationships: &[String],
    entities: &[Json],
    relationships: &[Json],
) -> (r: Result<(), R15ContractError>)
    ensures
        r is Ok <==> lexical_derivation_rule(
            source@,
            target@,
            texts(input_entities@),
            texts(input_relationships@),
            entities@,
            relationships@,
        ),
        r is Err ==> r matches Err(R15ContractError::InvalidProjection),
{
    let source_entity = match find_last(entities, source) {
        Some(k) => &entities[k],
        None => return Err(R15ContractError::InvalidProjection),
    };
    let target_entity = match find_last(entities, target) {
        Some(k) => &entities[k],
        None => return Err(R15ContractError::InvalidProjection),
    };
    let reads = matching_edge_positions(relationships, "READS", target);
    if reads.len() != 1 {
        return Err(R15ContractError::InvalidProjection);
    }
    let read = &relationships[reads[0]];
    let binding_id = match read.get_str("target") {
        Some(t) => t,
        None => return Err(R15ContractError::InvalidProjection),
    };
    let writes = matching_edge_positions(relationships, "WRITES", source);
    let pattern_binding = match source_entity.get_str("kind") {
        Some(kind) => text_eq(kind, "rust.pattern_binding"),
        None => false,
    };
    if pattern_binding {
        if !text_eq(source, binding_id) || writes.len() != 0 {
            return Err(R15ContractError::InvalidProjection);
        }
    } else {
        let write_ok = writes.len() == 1 && match relationships[writes[0]].get_str("target") {
            Some(t) => text_eq(t, binding_id),
            None => false,
        };
        if !write_ok {
            return Err(R15ContractError::InvalidProjection);
        }
    }
    let same_callable = match (source_entity.get_str("callable_id"), target_entity.get_str("callable_id")) {
        (Some(a), Some(b)) => text_eq(a, b),
        (None, None) => true,
        _ => false,
    };
    let source_start = match source_entity.get("locator") {
        Some(l) => l.get_u64("start_byte"),
        None => None,
    };
    let target_start = match target_entity.get("locator") {
        Some(l) => l.get_u64("start_byte"),
        None => None,
    };
    let ordered = match (source_start, target_start) {
        (Some(a), Some(b)) => a <= b,
        _ => false,
    };
    if !same_callable || !ordered {
        return Err(R15ContractError::InvalidProjection);
    }
    let read_id = match read.get_str("id") {
        Some(t) => t,
        None => return Err(R15ContractError::InvalidProjection),
    };
    let write_listed = if writes.len() > 0 {
        match relationships[writes[0]].get_str("id") {
            Some(t) => contains_text(input_relationships, t),
            None => false,
        }
    } else {
        true
    };
    if !contains_text(input_relationships, read_id) || !write_listed {
        return Err(R15ContractError::InvalidProjection);
    }
    let ghost ents = texts(input_entities@);
    let ghost rels = texts(input_relationships@);
    assert(relationships@[reads@[0] as int] == matching_edges(relationships@, relationships@.len(), "READS"@, target@)[0]);
    let mut k: usize = 0;
    while k < input_relationships.len()
        invariant
            k <= input_relationships.len(),
            ents == texts(input_entities@),
            rels == texts(input_relationships@),
            member_text(matching_edges(relationships@, relationships@.len(), "READS"@, target@)[0], "target"@)
                == Some(binding_id@),
            forall|m: int|
                0 <= m < k ==> lexical_candidate_ok(
                    #[trigger] rels[m],
                    target@,
                    binding_id@,
                    ents,
                    relationships@,
                ),
        decreases input_relationships.len() - k,
    {
        assert(rels[k as int] == input_relationships@[k as int]@);
        let candidate = match find_last(relationships, input_relationships[k].as_str()) {
            Some(j) => &relationships[j],
            None => return Err(R15ContractError::InvalidProjection),
        };
        let (cs, ct, kind) = match (
            candidate.get_str("source"),
            candidate.get_str("target"),
            candidate.get_str("kind"),
        ) {
            (Some(a), Some(b), Some(c)) => (a, b, c),
            _ => return Err(R15ContractError::InvalidProjection),
        };
        let structure = ["CONTAINS_FLOW_NODE", "SYNTAX_NEXT", "SYNTAX_TRUE_BRANCH", "SYNTAX_FALSE_BRANCH"];
        assert(patterns_view(structure@) =~= lexical_structure_kinds());
        let valid = if text_eq(kind, "READS") {
            text_eq(cs, target) && text_eq(ct, binding_id)
        } else if text_eq(kind, "WRITES") {
            text_eq(ct, binding_id) && contains_text(input_entities, cs)
        } else if text_one_of(kind, &structure) {
            contains_text(input_entities, cs) && contains_text(input_entities, ct)
        } else {
            false
        };
        if !valid {
            return Err(R15ContractError::InvalidProjection);
        }
        k += 1;
    }
    Ok(())
}

/// The strings of the array stored under `field` of `object`.
pub fn string_array(object: &Json, field: &'static str) -> (r: Result<Vec<String>, R15ContractError>)
    ensures
        match string_array_outcome(*object, field@) {
            Some(ts) => r matches Ok(v) && texts(v@) == ts,
            None => r matches Err(R15ContractError::InvalidProjection),
        },
{
    match string_items(object, field) {
        Some(values) => Ok(values),
        None => Err(R15ContractError::InvalidProjection),
    }
}

/// The evidence an entity references: its `evidence_id` and every string of
/// its `evidence_ids`; `None` when `evidence_ids` is not an array of strings.
pub open spec fn entity_evidence_refs(entity: Json) -> Option<Seq<Seq<char>>> {
    let single: Seq<Seq<char>> = match member_text(entity, "evidence_id"@) {
        Some(t) => seq![t],
        None => Seq::empty(),
    };
    match member(entity, "evidence_ids"@) {
        None => Some(single),
        Some(v) => match as_items(v) {
            Some(items) => match text_items(items) {
                Some(ts) => Some(single + ts),
                None => None,
            },
            None => None,
        },
    }
}

/// The evidence of an entity as an ordered set, which must not be empty
/// ([`entity_evidence_refs`]).
pub fn portable_entity_evidence(entity: &Json) -> (r: Result<Vec<String>, R15ContractError>)
    ensures
        match entity_evidence_refs(*entity) {
            Some(ids) => if ids.len() > 0 {
                r matches Ok(v) && sorted_texts(texts(v@)) && forall|x: Seq<char>|
                    #[trigger] texts(v@).contains(x) <==> ids.contains(x)
            } else {
                r matches Err(R15ContractError::InvalidProjection)
            },
            None => r matches Err(R15ContractError::InvalidProjection),
        },
{
    let mut evidence: Vec<String> = Vec::new();
    let ghost mut listed: Seq<Seq<char>> = Seq::empty();
    match entity.get_str("evidence_id") {
        Some(t) => {
            insert_text(&mut evidence, t);
            proof {
                listed = seq![t@];
                assert forall|x: Seq<char>| #[trigger] texts(evidence@).contains(x) <==> listed.contains(x) by {
                    if x == t@ {
                        assert(listed[0] == x);
                    }
                }
            }
        },
        None => {},
    }
    match entity.get("evidence_ids") {
        Some(v) => {
            let items = match v.as_array() {
                Some(items) => items,
                None => return Err(R15ContractError::InvalidProjection),
            };
            let ghost start = listed;
            let mut k: usize = 0;
            while k < items.len()
                invariant
                    k <= items.len(),
                    member(*entity, "evidence_ids"@) == Some(*v),
                    as_items(*v) == Some(items@),
                    start == match member_text(*entity, "evidence_id"@) {
                        Some(t) => seq![t],
                        None => Seq::<Seq<char>>::empty(),
                    },
                    sorted_texts(texts(evidence@)),
                    forall|m: int| 0 <= m < k ==> (#[trigger] as_text(items@[m])) is Some,
                    listed == start + items@.take(k as int).map_values(|j: Json| crate::portable::text_of(j)),
                    forall|x: Seq<char>| #[trigger] texts(evidence@).contains(x) <==> listed.contains(x),
                decreases items.len() - k,
            {
                let t = match items[k].as_str() {
                    Some(t) => t,
                    None => return Err(R15ContractError::InvalidProjection),
                };
                let ghost before = listed;
                insert_text(&mut evidence, t);
                proof {
                    listed = before.push(t@);
                    assert(start + items@.take(k + 1).map_values(|j: Json| crate::portable::text_of(j))
                        =~= before.push(t@));
                    assert forall|x: Seq<char>| #[trigger] texts(evidence@).contains(x) <==> listed.contains(x) by {
                        if before.contains(x) {
                            let i = choose|i: int| 0 <= i < before.len() && before[i] == x;
                            assert(listed[i] == x);
                        }
                        if listed.contains(x) && x != t@ {
                            let i = choose|i: int| 0 <= i < listed.len() && listed[i] == x;
                            assert(before[i] == x);
                        }
                        if x == t@ {
                            assert(listed[before.len() as int] == x);
                        }
                    }
                }
                k += 1;
            }
            proof {
                assert(items@.take(k as int) =~= items@);
                assert(text_items(items@) == Some(items@.map_values(|j: Json| crate::portable::text_of(j))));
                assert(listed == entity_evidence_refs(*entity)->Some_0);
            }
        },
        None => {
            assert(listed == entity_evidence_refs(*entity)->Some_0);
        },
    }
    if evidence.len() == 0 {
        proof {
            if listed.len() > 0 {
                assert(listed.contains(listed[0]));
                assert(texts(evidence@).contains(listed[0]));
                assert(texts(evidence@).len() == 0);
            }
        }
        return Err(R15ContractError::InvalidProjection);
    }
    proof {
        assert(texts(evidence@).contains(texts(evidence@)[0]));
    }
    Ok(evidence)
}

/// Every record has an `id`.
pub open spec fn all_identified(records: Seq<Json>) -> bool {
    forall|k: int| 0 <= k < records.len() ==> (#[trigger] member_text(records[k], "id"@)) is Some
}

/// Every listed entity is known and references evidence.
pub open spec fn entities_have_evidence(ids: Seq<Seq<char>>, entities: Seq<Json>) -> bool {
    forall|k: int|
        0 <= k < ids.len() ==> {
            let e = lookup_last(entities, #[trigger] ids[k]);
            &&& e is Some
            &&& entity_evidence_refs(e->Some_0) is Some
            &&& entity_evidence_refs(e->Some_0)->Some_0.len() > 0
        }
}

/// `x` is evidence of one of the listed entities.
pub open spec fn evidence_of_entities(ids: Seq<Seq<char>>, entities: Seq<Json>, x: Seq<char>) -> bool {
    exists|k: int|
        0 <= k < ids.len() && entity_evidence_refs(lookup_last(entities, #[trigger] ids[k])->Some_0)->Some_0.contains(
            x,
        )
}

/// The semantics of one derivation: its relationship is known, both of its
/// ends are listed entities, its evidence is exactly the evidence of the
/// listed entities (as an ordered set, not empty), and the derivation rule
/// of its kind holds.
pub open spec fn derivation_semantics_rule(derivation: Json, entities: Seq<Json>, relationships: Seq<Json>) -> bool {
    let input_entities = string_array_outcome(derivation, "input_entity_ids"@);
    let input_relationships = string_array_outcome(derivation, "input_relationship_ids"@);
    let input_evidence = string_array_outcome(derivation, "input_evidence_ids"@);
    let relationship = match member_text(derivation, "relationship_id"@) {
        Some(id) => lookup_last(relationships, id),
        None => None,
    };
    &&& all_identified(entities)
    &&& all_identified(relationships)
    &&& derivation is Object
    &&& relationship is Some
    &&& input_entities is Some
    &&& input_relationships is Some
    &&& input_evidence is Some
    &&& member_text(relationship->Some_0, "source"@) is Some
    &&& member_text(relationship->Some_0, "target"@) is Some
    &&& {
        let source = member_text(relationship->Some_0, "source"@)->Some_0;
        let target = member_text(relationship->Some_0, "target"@)->Some_0;
        let ents = input_entities->Some_0;
        let rels = input_relationships->Some_0;
        let evidence = input_evidence->Some_0;
        &&& ents.contains(source)
        &&& ents.contains(target)
        &&& entities_have_evidence(ents, entities)
        &&& evidence.len() > 0
        &&& sorted_texts(evidence)
        &&& forall|x: Seq<char>| #[trigger] evidence.contains(x) <==> evidence_of_entities(ents, entities, x)
        &&& match member_text(relationship->Some_0, "kind"@) {
            Some(kind) => if kind == "SYNTAX_REACHES"@ {
                syntax_derivation_rule(source, target, ents, rels, relationships)
            } else if kind == "LEXICAL_MUST_REACHES_READ"@ || kind == "LEXICAL_MAY_REACHES_READ"@ {
                lexical_derivation_rule(source, target, ents, rels, entities, relationships)
            } else {
                false
            },
            None => false,
        }
    }
}

fn all_records_identified(records: &[Json]) -> (r: bool)
    ensures
        r == all_identified(records@),
{
    let mut k: usize = 0;
    while k < records.len()
        invariant
            k <= records.len(),
            forall|m: int| 0 <= m < k ==> (#[trigger] member_text(records@[m], "id"@)) is Some,
        decreases records.len() - k,
    {
        if records[k].get_str("id").is_none() {
            return false;
        }
        k += 1;
    }
    true
}

/// Checks the semantics of one derivation ([`derivation_semantics_rule`]).
pub fn validate_portable_derivation_semantics(derivation: &Json, entities: &[Json], relationships: &[Json]) -> (r:
    Result<(), R15ContractError>)
    ensures
        r is Ok <==> derivation_semantics_rule(*derivation, entities@, relationships@),
        r is Err ==> r matches Err(R15ContractError::InvalidProjection),
{
    if !all_records_identified(entities) || !all_records_identified(relationships) {
        return Err(R15ContractError::InvalidProjection);
    }
    if derivation.as_object().is_none() {
        return Err(R15ContractError::InvalidProjection);
    }
    let relationship_id = match derivation.get_str("relationship_id") {
        Some(t) => t,
        None => return Err(R15ContractError::InvalidProjection),
    };
    let relationship = match find_last(relationships, relationship_id) {
        Some(k) => &relationships[k],
        None => return Err(R15ContractError::InvalidProjection),
    };
    let input_entities = string_array(derivation, "input_entity_ids")?;
    let input_relationships = string_array(derivation, "input_relationship_ids")?;
    let input_evidence = string_array(derivation, "input_evidence_ids")?;
    let source = match relationship.get_str("source") {
        Some(t) => t,
        None => return Err(R15ContractError::InvalidProjection),
    };
    let target = match relationship.get_str("target") {
        Some(t) => t,
        None => return Err(R15ContractError::InvalidProjection),
    };
    if !contains_text(input_entities.as_slice(), source) || !contains_text(
        input_entities.as_slice(),
        target,
    ) {
        return Err(R15ContractError::InvalidProjection);
    }
    let ghost ents = texts(input_entities@);
    let mut expected: Vec<String> = Vec::new();
    let mut k: usize = 0;
    while k < input_entities.len()
        invariant
            k <= input_entities.len(),
            ents == texts(input_entities@),
            string_array_outcome(*derivation, "input_entity_ids"@) == Some(ents),
            sorted_texts(texts(expected@)),
            forall|m: int|
                0 <= m < k ==> {
                    let e = lookup_last(entities@, #[trigger] ents[m]);
                    &&& e is Some
                    &&& entity_evidence_refs(e->Some_0) is Some
                    &&& entity_evidence_refs(e->Some_0)->Some_0.len() > 0
                },
            forall|x: Seq<char>| #[trigger] texts(expected@).contains(x) <==> exists|m: int|
                0 <= m < k && entity_evidence_refs(lookup_last(entities@, #[trigger] ents[m])->Some_0)->Some_0.contains(x),
        decreases input_entities.len() - k,
    {
        assert(ents[k as int] == input_entities@[k as int]@);
        let entity = match find_last(entities, input_entities[k].as_str()) {
            Some(j) => &entities[j],
            None => return Err(R15ContractError::InvalidProjection),
        };
        let own = portable_entity_evidence(entity)?;
        let ghost before = texts(expected@);
        let ghost own_refs = entity_evidence_refs(*entity)->Some_0;
        let mut i: usize = 0;
        while i < own.len()
            invariant
                i <= own.len(),
                sorted_texts(texts(expected@)),
                forall|x: Seq<char>| #[trigger] texts(expected@).contains(x) <==> (before.contains(x) || exists|j: int|
                    0 <= j < i && #[trigger] texts(own@)[j] == x),
            decreases own.len() - i,
        {
            let ghost prior = texts(expected@);
            insert_text(&mut expected, own[i].as_str());
            proof {
                assert(texts(own@)[i as int] == own@[i as int]@);
                assert forall|x: Seq<char>| #[trigger] texts(expected@).contains(x) <==> (before.contains(x) || exists|j: int|
                    0 <= j < i + 1 && #[trigger] texts(own@)[j] == x) by {
                    if prior.contains(x) && !before.contains(x) {
                        let j = choose|j: int| 0 <= j < i && #[trigger] texts(own@)[j] == x;
                        assert(texts(own@)[j] == x);
                    }
                }
            }
            i += 1;
        }
        proof {
            assert forall|x: Seq<char>| #[trigger] texts(expected@).contains(x) <==> exists|m: int|
                0 <= m < k + 1 && entity_evidence_refs(lookup_last(entities@, #[trigger] ents[m])->Some_0)->Some_0.contains(x) by {
                if texts(expected@).contains(x) && !before.contains(x) {
                    let j = choose|j: int| 0 <= j < own@.len() && #[trigger] texts(own@)[j] == x;
                    assert(texts(own@).contains(x));
                    assert(own_refs.contains(x));
                    assert(entity_evidence_refs(lookup_last(entities@, ents[k as int])->Some_0)->Some_0.contains(x));
                }
                if exists|m: int| 0 <= m < k + 1 && entity_evidence_refs(lookup_last(entities@, #[trigger] ents[m])->Some_0)->Some_0.contains(x) {
                    let m = choose|m: int| 0 <= m < k + 1 && entity_evidence_refs(lookup_last(entities@, #[trigger] ents[m])->Some_0)->Some_0.contains(x);
                    if m == k {
                        assert(own_refs.contains(x));
                        assert(texts(own@).contains(x));
                        let j = choose|j: int| 0 <= j < own@.len() && texts(own@)[j] == x;
                        assert(texts(own@)[j] == x);
                    }
                }
            }
        }
        k += 1;
    }
    proof {
        let evidence = texts(input_evidence@);
        if derivation_semantics_rule(*derivation, entities@, relationships@) {
            assert forall|x: Seq<char>| #[trigger] evidence.contains(x) <==> texts(expected@).contains(x) by {
                if evidence_of_entities(ents, entities@, x) {
                    let m = choose|m: int| 0 <= m < ents.len() && entity_evidence_refs(lookup_last(entities@, #[trigger] ents[m])->Some_0)->Some_0.contains(x);
                    assert(entity_evidence_refs(lookup_last(entities@, ents[m])->Some_0)->Some_0.contains(x));
                }
                if texts(expected@).contains(x) {
                    let m = choose|m: int| 0 <= m < k && entity_evidence_refs(lookup_last(entities@, #[trigger] ents[m])->Some_0)->Some_0.contains(x);
                    assert(evidence_of_entities(ents, entities@, x));
                }
            }
            lemma_sorted_same_members_equal(evidence, texts(expected@));
        }
    }
    if expected.len() == 0 || !texts_equal(input_evidence.as_slice(), expected.as_slice()) {
        proof {
            if derivation_semantics_rule(*derivation, entities@, relationships@) {
                let evidence = texts(input_evidence@);
                assert(evidence.contains(evidence[0]));
            }
        }
        return Err(R15ContractError::InvalidProjection);
    }
    proof {
        assert forall|x: Seq<char>| #[trigger] texts(input_evidence@).contains(x) <==> evidence_of_entities(
            ents,
            entities@,
            x,
        ) by {
            if evidence_of_entities(ents, entities@, x) {
                let m = choose|m: int| 0 <= m < ents.len() && entity_evidence_refs(lookup_last(entities@, #[trigger] ents[m])->Some_0)->Some_0.contains(x);
                assert(entity_evidence_refs(lookup_last(entities@, ents[m])->Some_0)->Some_0.contains(x));
            }
            if texts(expected@).contains(x) {
                let m = choose|m: int| 0 <= m < k && entity_evidence_refs(lookup_last(entities@, #[trigger] ents[m])->Some_0)->Some_0.contains(x);
                assert(evidence_of_entities(ents, entities@, x));
            }
        }
    }
    let kind = match relationship.get_str("kind") {
        Some(t) => t,
        None => return Err(R15ContractError::InvalidProjection),
    };
    if text_eq(kind, "SYNTAX_REACHES") {
        validate_portable_syntax_derivation(
            source,
            target,
            input_entities.as_slice(),
            input_relationships.as_slice(),
            relationships,
        )
    } else if text_eq(kind, "LEXICAL_MUST_REACHES_READ") || text_eq(kind, "LEXICAL_MAY_REACHES_READ") {
        validate_portable_lexical_derivation(
            source,
            target,
            input_entities.as_slice(),
            input_relationships.as_slice(),
            entities,
            relationships,
        )
    } else {
        Err(R15ContractError::InvalidProjection)
    }
}

/// The schema names and limits of the local-flow index, as the caller's
/// domain model declares them.
#[derive(Clone, Debug, PartialEq, Eq)]
pub struct LocalFlowProfile {
    pub index_version: String,
    pub rule_version: String,
    pub max_relationships: u64,
    pub max_derivation_inputs: u64,
}

/// The identifiers, in order, of the records whose `kind` is one of `kinds`
/// (records without an identifier are passed over).
pub open spec fn ids_of_kinds(records: Seq<Json>, kinds: Seq<Seq<char>>) -> Seq<Seq<char>>
    decreases records.len(),
{
    if records.len() == 0 {
        Seq::empty()
    } else {
        let rest = ids_of_kinds(records.drop_last(), kinds);
        let r = records.last();
        if (member_text(r, "kind"@) matches Some(kind) && one_of(kind, kinds)) && member_text(r, "id"@) is Some {
            rest.push(member_text(r, "id"@)->Some_0)
        } else {
            rest
        }
    }
}

fn ids_of_kinds_exec(records: &[Json], kinds: &[&str]) -> (r: Vec<String>)
    ensures
        texts(r@) == ids_of_kinds(records@, patterns_view(kinds@)),
{
    let mut out: Vec<String> = Vec::new();
    let mut k: usize = 0;
    while k < records.len()
        invariant
            k <= records.len(),
            texts(out@) == ids_of_kinds(records@.take(k as int), patterns_view(kinds@)),
        decreases records.len() - k,
    {
        proof {
            assert(records@.take(k + 1).drop_last() =~= records@.take(k as int));
            assert(records@.take(k + 1).last() == records@[k as int]);
        }
        let keep = match records[k].get_str("kind") {
            Some(kind) => text_one_of(kind, kinds),
            None => false,
        };
        if keep {
            match records[k].get_str("id") {
                Some(id) => {
                    let ghost before = out@;
                    out.push(id.to_owned());
                    assert(texts(out@) =~= texts(before).push(id@));
                },
                None => {},
            }
        }
        k += 1;
    }
    assert(records@.take(k as int) =~= records@);
    out
}

/// The members of the local-flow index.
pub open spec fn local_flow_index_keys() -> Seq<Seq<char>> {
    seq![
        "block_entity_ids"@,
        "completed_callable_ids"@,
        "condition_relationship_ids"@,
        "derivations"@,
        "direct_syntax_relationship_ids"@,
        "flow_node_relationship_ids"@,
        "may_reach_relationship_ids"@,
        "must_reach_relationship_ids"@,
        "reachability_relationship_ids"@,
        "rule_version"@,
        "schema_version"@,
    ]
}

/// Each relationship list of the index lists exactly the relationships of
/// its kinds, in stored order, and the block list the basic-block entities.
pub open spec fn index_lists_rule(index: Json, entities: Seq<Json>, relationships: Seq<Json>) -> bool {
    &&& string_array_outcome(index, "block_entity_ids"@) == Some(
        ids_of_kinds(entities, seq!["rust.syntax_basic_block"@]),
    )
    &&& string_array_outcome(index, "flow_node_relationship_ids"@) == Some(
        ids_of_kinds(relationships, seq!["CONTAINS_FLOW_NODE"@]),
    )
    &&& string_array_outcome(index, "condition_relationship_ids"@) == Some(
        ids_of_kinds(relationships, seq!["HAS_CONDITION"@]),
    )
    &&& string_array_outcome(index, "direct_syntax_relationship_ids"@) == Some(
        ids_of_kinds(relationships, syntax_edge_kinds()),
    )
    &&& string_array_outcome(index, "reachability_relationship_ids"@) == Some(
        ids_of_kinds(relationships, seq!["SYNTAX_REACHES"@]),
    )
    &&& string_array_outcome(index, "must_reach_relationship_ids"@) == Some(
        ids_of_kinds(relationships, seq!["LEXICAL_MUST_REACHES_READ"@]),
    )
    &&& string_array_outcome(index, "may_reach_relationship_ids"@) == Some(
        ids_of_kinds(relationships, seq!["LEXICAL_MAY_REACHES_READ"@]),
    )
}

/// The kinds of the derived relationships.
pub open spec fn derived_kinds() -> Seq<Seq<char>> {
    seq!["SYNTAX_REACHES"@, "LEXICAL_MUST_REACHES_READ"@, "LEXICAL_MAY_REACHES_READ"@]
}

/// The inputs listed under `field`: not empty, strictly increasing, each
/// one of `ids`.
pub open spec fn derivation_inputs_rule(derivation: Json, field: Seq<char>, ids: Seq<Seq<char>>) -> bool {
    match string_array_outcome(derivation, field) {
        Some(values) => values.len() > 0 && strictly_increasing(values) && forall|k: int|
            0 <= k < values.len() ==> ids.contains(#[trigger] values[k]),
        None => false,
    }
}

/// One derivation of the index: the rule version, a relationship, inputs
/// drawn from the graph, and derivation semantics that hold.
pub open spec fn derivation_entry_rule(
    derivation: Json,
    rule_version: Seq<char>,
    entity_ids: Seq<Seq<char>>,
    relationship_ids: Seq<Seq<char>>,
    evidence_ids: Seq<Seq<char>>,
    entities: Seq<Json>,
    relationships: Seq<Json>,
) -> bool {
    &&& member_text(derivation, "rule_version"@) == Some(rule_version)
    &&& member_text(derivation, "relationship_id"@) is Some
    &&& derivation_inputs_rule(derivation, "input_entity_ids"@, entity_ids)
    &&& derivation_inputs_rule(derivation, "input_relationship_ids"@, relationship_ids)
    &&& derivation_inputs_rule(derivation, "input_evidence_ids"@, evidence_ids)
    &&& derivation_semantics_rule(derivation, entities, relationships)
}

/// The number of inputs of one derivation.
pub open spec fn input_count_of(derivation: Json) -> int {
    let count = |f: Seq<char>| match string_array_outcome(derivation, f) {
        Some(values) => values.len() as int,
        None => 0int,
    };
    count("input_entity_ids"@) + count("input_relationship_ids"@) + count("input_evidence_ids"@)
}

/// The number of inputs of all derivations.
pub open spec fn total_inputs(derivations: Seq<Json>) -> int
    decreases derivations.len(),
{
    if derivations.len() == 0 {
        0
    } else {
        total_inputs(derivations.drop_last()) + input_count_of(derivations.last())
    }
}

/// A count as a saturating `u64` counter holds it.
pub open spec fn saturated(n: int) -> int {
    if n > u64::MAX {
        u64::MAX as int
    } else {
        n
    }
}

/// The relationships that the derivations derive, in order.
pub open spec fn derived_ids(derivations: Seq<Json>) -> Seq<Seq<char>> {
    derivations.map_values(|d: Json| text_or_empty(d, "relationship_id"@))
}

/// What the local-flow index check finds.
pub enum LocalFlowOutcome {
    Accepted,
    InvalidProjection,
    TooManyDerivations,
    TooManyInputs(int),
}

/// The local-flow index of a portable graph: its exact members and
/// versions, lists that match the graph, completed callables among the
/// entities, at most `max_relationships` derivations (else too many), each a
/// valid entry, deriving exactly the derived relationships in order, with at
/// most `max_derivation_inputs` inputs in all (else too many).
pub open spec fn local_flow_index_outcome(
    object: Json,
    entity_ids: Seq<Seq<char>>,
    relationship_ids: Seq<Seq<char>>,
    evidence_ids: Seq<Seq<char>>,
    index_version: Seq<char>,
    rule_version: Seq<char>,
    max_relationships: u64,
    max_derivation_inputs: u64,
) -> LocalFlowOutcome {
    match member(object, "local_flow_index"@) {
        None => LocalFlowOutcome::InvalidProjection,
        Some(index) => if !(index is Object && same_key_set(index, local_flow_index_keys())
            && member_text(index, "schema_version"@) == Some(index_version) && member_text(
            index,
            "rule_version"@,
        ) == Some(rule_version)) {
            LocalFlowOutcome::InvalidProjection
        } else {
            match (member_items(object, "entities"@), member_items(object, "relationships"@)) {
                (Some(entities), Some(relationships)) => if !index_lists_rule(
                    index,
                    entities,
                    relationships,
                ) {
                    LocalFlowOutcome::InvalidProjection
                } else {
                    match string_array_outcome(index, "completed_callable_ids"@) {
                        None => LocalFlowOutcome::InvalidProjection,
                        Some(completed) => if !completed_rule(completed, entity_ids) {
                            LocalFlowOutcome::InvalidProjection
                        } else {
                            match member_items(index, "derivations"@) {
                                None => LocalFlowOutcome::InvalidProjection,
                                Some(derivations) => derivations_outcome(
                                    derivations,
                                    entity_ids,
                                    relationship_ids,
                                    evidence_ids,
                                    rule_version,
                                    entities,
                                    relationships,
                                    max_relationships,
                                    max_derivation_inputs,
                                ),
                            }
                        },
                    }
                },
                _ => LocalFlowOutcome::InvalidProjection,
            }
        },
    }
}

/// The completed callables are strictly increasing entities.
pub open spec fn completed_rule(completed: Seq<Seq<char>>, entity_ids: Seq<Seq<char>>) -> bool {
    strictly_increasing(completed) && forall|k: int|
        0 <= k < completed.len() ==> entity_ids.contains(#[trigger] completed[k])
}

/// Every derivation is a valid entry.
pub open spec fn entries_rule(
    derivations: Seq<Json>,
    rule_version: Seq<char>,
    entity_ids: Seq<Seq<char>>,
    relationship_ids: Seq<Seq<char>>,
    evidence_ids: Seq<Seq<char>>,
    entities: Seq<Json>,
    relationships: Seq<Json>,
) -> bool {
    forall|k: int|
        0 <= k < derivations.len() ==> derivation_entry_rule(
            #[trigger] derivations[k],
            rule_version,
            entity_ids,
            relationship_ids,
            evidence_ids,
            entities,
            relationships,
        )
}

/// The outcome over the derivations of the index.
pub open spec fn derivations_outcome(
    derivations: Seq<Json>,
    entity_ids: Seq<Seq<char>>,
    relationship_ids: Seq<Seq<char>>,
    evidence_ids: Seq<Seq<char>>,
    rule_version: Seq<char>,
    entities: Seq<Json>,
    relationships: Seq<Json>,
    max_relationships: u64,
    max_derivation_inputs: u64,
) -> LocalFlowOutcome {
    if derivations.len() > max_relationships {
        LocalFlowOutcome::TooManyDerivations
    } else if !entries_rule(
        derivations,
        rule_version,
        entity_ids,
        relationship_ids,
        evidence_ids,
        entities,
        relationships,
    ) || derived_ids(derivations) != ids_of_kinds(relationships, derived_kinds()) {
        LocalFlowOutcome::InvalidProjection
    } else if saturated(total_inputs(derivations)) > max_derivation_inputs {
        LocalFlowOutcome::TooManyInputs(saturated(total_inputs(derivations)))
    } else {
        LocalFlowOutcome::Accepted
    }
}

fn all_contained(values: &[String], ids: &[String]) -> (r: bool)
    ensures
        r == forall|k: int| 0 <= k < values@.len() ==> texts(ids@).contains(#[trigger] texts(values@)[k]),
{
    let mut c: usize = 0;
    while c < values.len()
        invariant
            c <= values.len(),
            forall|m: int| 0 <= m < c ==> texts(ids@).contains(#[trigger] texts(values@)[m]),
        decreases values.len() - c,
    {
        if !contains_text(ids, values[c].as_str()) {
            assert(texts(values@)[c as int] == values@[c as int]@);
            return false;
        }
        c += 1;
    }
    true
}

fn list_matches(index: &Json, field: &'static str, expected: &Vec<String>) -> (r: Result<(), R15ContractError>)
    ensures
        r is Ok <==> string_array_outcome(*index, field@) == Some(texts(expected@)),
        r is Err ==> r matches Err(R15ContractError::InvalidProjection),
{
    let values = string_array(index, field)?;
    if !texts_equal(values.as_slice(), expected.as_slice()) {
        return Err(R15ContractError::InvalidProjection);
    }
    Ok(())
}

fn inputs_valid(derivation: &Json, field: &'static str, ids: &[String]) -> (r: Result<usize, R15ContractError>)
    ensures
        r is Ok <==> derivation_inputs_rule(*derivation, field@, texts(ids@)),
        r matches Ok(n) ==> n == string_array_outcome(*derivation, field@)->Some_0.len(),
        r is Err ==> r matches Err(R15ContractError::InvalidProjection),
{
    let values = string_array(derivation, field)?;
    if values.len() == 0 || !strictly_ordered(values.as_slice()) {
        return Err(R15ContractError::InvalidProjection);
    }
    let mut k: usize = 0;
    while k < values.len()
        invariant
            k <= values.len(),
            string_array_outcome(*derivation, field@) == Some(texts(values@)),
            forall|m: int| 0 <= m < k ==> texts(ids@).contains(#[trigger] texts(values@)[m]),
        decreases values.len() - k,
    {
        if !contains_text(ids, values[k].as_str()) {
            assert(texts(values@)[k as int] == values@[k as int]@);
            return Err(R15ContractError::InvalidProjection);
        }
        k += 1;
    }
    Ok(values.len())
}

/// Checks the local-flow index of a portable graph
/// ([`local_flow_index_outcome`]).
pub fn validate_portable_local_flow_index(
    object: &Json,
    entity_ids: &[String],
    relationship_ids: &[String],
    evidence_ids: &[String],
    profile: &LocalFlowProfile,
) -> (r: Result<(), R15ContractError>)
    ensures
        match local_flow_index_outcome(
            *object,
            texts(entity_ids@),
            texts(relationship_ids@),
            texts(evidence_ids@),
            profile.index_version@,
            profile.rule_version@,
            profile.max_relationships,
            profile.max_derivation_inputs,
        ) {
            LocalFlowOutcome::Accepted => r is Ok,
            LocalFlowOutcome::InvalidProjection => r matches Err(R15ContractError::InvalidProjection),
            LocalFlowOutcome::TooManyDerivations => r matches Err(
                R15ContractError::LimitExceeded { limit, maximum, observed },
            ) && limit@ == "local_flow_derivations"@ && maximum == profile.max_relationships
                && observed == profile.max_relationships.saturating_add(1),
            LocalFlowOutcome::TooManyInputs(count) => r matches Err(
                R15ContractError::LimitExceeded { limit, maximum, observed },
            ) && limit@ == "derivation_input_references"@ && maximum == profile.max_derivation_inputs
                && observed == if count < profile.max_derivation_inputs.saturating_add(1) {
                count
            } else {
                profile.max_derivation_inputs.saturating_add(1) as int
            },
        },
{
    let index = match object.get("local_flow_index") {
        Some(index) => index,
        None => return Err(R15ContractError::InvalidProjection),
    };
    if index.as_object().is_none() {
        return Err(R15ContractError::InvalidProjection);
    }
    let keys = [
        "block_entity_ids",
        "completed_callable_ids",
        "condition_relationship_ids",
        "derivations",
        "direct_syntax_relationship_ids",
        "flow_node_relationship_ids",
        "may_reach_relationship_ids",
        "must_reach_relationship_ids",
        "reachability_relationship_ids",
        "rule_version",
        "schema_version",
    ];
    assert(names_view(keys@) =~= local_flow_index_keys());
    let schema_ok = match index.get_str("schema_version") {
        Some(v) => text_eq(v, profile.index_version.as_str()),
        None => false,
    };
    let rule_ok = match index.get_str("rule_version") {
        Some(v) => text_eq(v, profile.rule_version.as_str()),
        None => false,
    };
    let keys_ok = has_key_set(index, &keys);
    if !keys_ok || !schema_ok || !rule_ok {
        return Err(R15ContractError::InvalidProjection);
    }
    let entities = match object.get_array("entities") {
        Some(items) => items,
        None => return Err(R15ContractError::InvalidProjection),
    };
    let relationships = match object.get_array("relationships") {
        Some(items) => items,
        None => return Err(R15ContractError::InvalidProjection),
    };
    let block_kinds = ["rust.syntax_basic_block"];
    let flow_kinds = ["CONTAINS_FLOW_NODE"];
    let condition_kinds = ["HAS_CONDITION"];
    let syntax_kinds = ["SYNTAX_NEXT", "SYNTAX_TRUE_BRANCH", "SYNTAX_FALSE_BRANCH"];
    let reach_kinds = ["SYNTAX_REACHES"];
    let must_kinds = ["LEXICAL_MUST_REACHES_READ"];
    let may_kinds = ["LEXICAL_MAY_REACHES_READ"];
    proof {
        assert(patterns_view(block_kinds@) =~= seq!["rust.syntax_basic_block"@]);
        assert(patterns_view(flow_kinds@) =~= seq!["CONTAINS_FLOW_NODE"@]);
        assert(patterns_view(condition_kinds@) =~= seq!["HAS_CONDITION"@]);
        assert(patterns_view(syntax_kinds@) =~= syntax_edge_kinds());
        assert(patterns_view(reach_kinds@) =~= seq!["SYNTAX_REACHES"@]);
        assert(patterns_view(must_kinds@) =~= seq!["LEXICAL_MUST_REACHES_READ"@]);
        assert(patterns_view(may_kinds@) =~= seq!["LEXICAL_MAY_REACHES_READ"@]);
    }
    let blocks = ids_of_kinds_exec(entities.as_slice(), &block_kinds);
    let flow_nodes = ids_of_kinds_exec(relationships.as_slice(), &flow_kinds);
    let conditions = ids_of_kinds_exec(relationships.as_slice(), &condition_kinds);
    let direct = ids_of_kinds_exec(relationships.as_slice(), &syntax_kinds);
    let reaches = ids_of_kinds_exec(relationships.as_slice(), &reach_kinds);
    let must = ids_of_kinds_exec(relationships.as_slice(), &must_kinds);
    let may = ids_of_kinds_exec(relationships.as_slice(), &may_kinds);
    list_matches(index, "block_entity_ids", &blocks)?;
    list_matches(index, "flow_node_relationship_ids", &flow_nodes)?;
    list_matches(index, "condition_relationship_ids", &conditions)?;
    list_matches(index, "direct_syntax_relationship_ids", &direct)?;
    list_matches(index, "reachability_relationship_ids", &reaches)?;
    list_matches(index, "must_reach_relationship_ids", &must)?;
    list_matches(index, "may_reach_relationship_ids", &may)?;
    let completed = string_array(index, "completed_callable_ids")?;
    if !strictly_ordered(completed.as_slice()) {
        return Err(R15ContractError::InvalidProjection);
    }
    if !all_contained(completed.as_slice(), entity_ids) {
        return Err(R15ContractError::InvalidProjection);
    }
    let derived_kind_names = ["SYNTAX_REACHES", "LEXICAL_MUST_REACHES_READ", "LEXICAL_MAY_REACHES_READ"];
    assert(patterns_view(derived_kind_names@) =~= derived_kinds());
    let expected_derived = ids_of_kinds_exec(relationships.as_slice(), &derived_kind_names);
    let derivations = match index.get_array("derivations") {
        Some(items) => items,
        None => return Err(R15ContractError::InvalidProjection),
    };
    if derivations.len() as u64 > profile.max_relationships {
        return Err(
            R15ContractError::LimitExceeded {
                limit: "local_flow_derivations",
                maximum: profile.max_relationships,
                observed: profile.max_relationships.saturating_add(1),
            },
        );
    }
    let ghost ents = texts(entity_ids@);
    let ghost rels = texts(relationship_ids@);
    let ghost evs = texts(evidence_ids@);
    assert(local_flow_index_outcome(
        *object,
        ents,
        rels,
        evs,
        profile.index_version@,
        profile.rule_version@,
        profile.max_relationships,
        profile.max_derivation_inputs,
    ) == derivations_outcome(
        derivations@,
        ents,
        rels,
        evs,
        profile.rule_version@,
        entities@,
        relationships@,
        profile.max_relationships,
        profile.max_derivation_inputs,
    ));
    let mut observed: Vec<String> = Vec::new();
    let mut input_count: u64 = 0;
    let mut k: usize = 0;
    while k < derivations.len()
        invariant
            k <= derivations.len(),
            ents == texts(entity_ids@),
            rels == texts(relationship_ids@),
            evs == texts(evidence_ids@),
            derivations@.len() <= profile.max_relationships,
            local_flow_index_outcome(
                *object,
                ents,
                rels,
                evs,
                profile.index_version@,
                profile.rule_version@,
                profile.max_relationships,
                profile.max_derivation_inputs,
            ) == derivations_outcome(
                derivations@,
                ents,
                rels,
                evs,
                profile.rule_version@,
                entities@,
                relationships@,
                profile.max_relationships,
                profile.max_derivation_inputs,
            ),
            forall|m: int|
                0 <= m < k ==> derivation_entry_rule(
                    #[trigger] derivations@[m],
                    profile.rule_version@,
                    ents,
                    rels,
                    evs,
                    entities@,
                    relationships@,
                ),
            texts(observed@) == derived_ids(derivations@.take(k as int)),
            input_count == saturated(total_inputs(derivations@.take(k as int))),
            total_inputs(derivations@.take(k as int)) >= 0,
        decreases derivations.len() - k,
    {
        let derivation = &derivations[k];
        proof {
            assert(derivations@.take(k + 1).drop_last() =~= derivations@.take(k as int));
            assert(derivations@.take(k + 1).last() == derivations@[k as int]);
        }
        let rule_ok = match derivation.get_str("rule_version") {
            Some(v) => text_eq(v, profile.rule_version.as_str()),
            None => false,
        };
        if !rule_ok {
            return Err(R15ContractError::InvalidProjection);
        }
        let relationship_id = match derivation.get_str("relationship_id") {
            Some(t) => t,
            None => return Err(R15ContractError::InvalidProjection),
        };
        let ghost before = observed@;
        observed.push(relationship_id.to_owned());
        proof {
            assert(text_or_empty(derivations@[k as int], "relationship_id"@) == relationship_id@);
            assert(derived_ids(derivations@.take(k + 1)) =~= derived_ids(derivations@.take(k as int)).push(
                relationship_id@,
            ));
            assert(texts(observed@) =~= texts(before).push(relationship_id@));
        }
        let ghost prior = total_inputs(derivations@.take(k as int));
        let n_entities = inputs_valid(derivation, "input_entity_ids", entity_ids)?;
        input_count = input_count.saturating_add(n_entities as u64);
        let n_relationships = inputs_valid(derivation, "input_relationship_ids", relationship_ids)?;
        input_count = input_count.saturating_add(n_relationships as u64);
        let n_evidence = inputs_valid(derivation, "input_evidence_ids", evidence_ids)?;
        input_count = input_count.saturating_add(n_evidence as u64);
        proof {
            assert(input_count_of(*derivation) == n_entities + n_relationships + n_evidence);
            assert(total_inputs(derivations@.take(k + 1)) == prior + n_entities + n_relationships + n_evidence);
        }
        validate_portable_derivation_semantics(derivation, entities.as_slice(), relationships.as_slice())?;
        k += 1;
    }
    proof {
        assert(derivations@.take(k as int) =~= derivations@);
    }
    if !texts_equal(observed.as_slice(), expected_derived.as_slice()) {
        return Err(R15ContractError::InvalidProjection);
    }
    if input_count > profile.max_derivation_inputs {
        let cap = profile.max_derivation_inputs.saturating_add(1);
        return Err(
            R15ContractError::LimitExceeded {
                limit: "derivation_input_references",
                maximum: profile.max_derivation_inputs,
                observed: if input_count < cap {
                    input_count
                } else {
                    cap
                },
            },
        );
    }
    Ok(())
}


impl R15ContractError {
    /// The error as the contracts see it.
    pub open spec fn fault(self) -> crate::s4_r13::PortableFault {
        match self {
            R15ContractError::InvalidSnapshot => crate::s4_r13::PortableFault::InvalidSnapshot,
            R15ContractError::LimitExceeded { limit, maximum, observed } => crate::s4_r13::PortableFault::LimitExceeded {
                limit: limit@,
                maximum,
                observed,
            },
            R15ContractError::UnsafePayload { reason } => crate::s4_r13::PortableFault::UnsafePayload(reason@),
            R15ContractError::InvalidProjection => crate::s4_r13::PortableFault::InvalidProjection,
            R15ContractError::UnsupportedPortableGraphSchema(s) => crate::s4_r13::PortableFault::UnsupportedPortableGraphSchema(
                s@,
            ),
            R15ContractError::IdentityConflict { family, id } => crate::s4_r13::PortableFault::IdentityConflict(
                family@,
                id@,
            ),
            R15ContractError::ReferenceMismatch { family, id } => crate::s4_r13::PortableFault::ReferenceMismatch(
                family@,
                id@,
            ),
            _ => crate::s4_r13::PortableFault::Other,
        }
    }
}

/// An R13 reference or path error, raised by the shared portable checks, as
/// an R15 error.
fn from_r13(e: crate::s4_r13::R13ContractError) -> (r: R15ContractError)
    ensures
        r.fault() == e.fault(),
{
    match e {
        crate::s4_r13::R13ContractError::InvalidSnapshot => R15ContractError::InvalidSnapshot,
        crate::s4_r13::R13ContractError::UnsupportedSnapshotSchema(s) => R15ContractError::UnsupportedSnapshotSchema(s),
        crate::s4_r13::R13ContractError::UnsupportedPortableGraphSchema(s) => R15ContractError::UnsupportedPortableGraphSchema(
            s,
        ),
        crate::s4_r13::R13ContractError::Noncanonical { expected_sha256, observed_sha256 } => R15ContractError::Noncanonical {
            expected_sha256,
            observed_sha256,
        },
        crate::s4_r13::R13ContractError::IdentityConflict { family, id } => R15ContractError::IdentityConflict {
            family,
            id,
        },
        crate::s4_r13::R13ContractError::ReferenceMismatch { family, id } => R15ContractError::ReferenceMismatch {
            family,
            id,
        },
        crate::s4_r13::R13ContractError::LimitExceeded { limit, maximum, observed } => R15ContractError::LimitExceeded {
            limit,
            maximum,
            observed,
        },
        crate::s4_r13::R13ContractError::UnsafePayload { reason } => R15ContractError::UnsafePayload { reason },
        crate::s4_r13::R13ContractError::AssetIntegrityMismatch => R15ContractError::AssetIntegrityMismatch,
        crate::s4_r13::R13ContractError::InvalidProjection => R15ContractError::InvalidProjection,
        crate::s4_r13::R13ContractError::Internal => R15ContractError::Internal,
    }
}

/// The schema names of the R15 portable-graph profile, as the caller's
/// domain model declares them.
#[derive(Clone, Debug, PartialEq, Eq)]
pub struct PortableVersionsV8 {
    pub portable_graph: String,
    pub ontology: String,
    pub query: String,
    pub snapshot: String,
}

/// The member names of a V8 portable graph.
pub open spec fn portable_v8_keys() -> Seq<Seq<char>> {
    seq![
        "claims"@,
        "coverage_gaps"@,
        "diagnostics"@,
        "document_statements"@,
        "documents"@,
        "entities"@,
        "evidence"@,
        "local_flow_index"@,
        "ontology_version"@,
        "projection"@,
        "query_contract_version"@,
        "relationships"@,
        "repository"@,
        "schema_version"@,
        "source_snapshot"@,
    ]
}

/// What is wrong with the envelope of a V8 portable graph, in the order the
/// checks run: nesting, private payloads, the member set, the schema, the
/// declared versions and profile, and the repository identity.
pub open spec fn portable_v8_header_fault(value: Json, v: PortableVersionsV8) -> Option<crate::s4_r13::PortableFault> {
    if height(value) > MAX_R15_JSON_NESTING {
        Some(
            crate::s4_r13::PortableFault::LimitExceeded {
                limit: "json_nesting"@,
                maximum: MAX_R15_JSON_NESTING,
                observed: (MAX_R15_JSON_NESTING + 1) as u64,
            },
        )
    } else if first_finding(value, r15_private_fields(), true) is Some {
        match first_finding(value, r15_private_fields(), true) {
            Some(FindingView::DeniedField(_)) => Some(crate::s4_r13::PortableFault::UnsafePayload("private_field"@)),
            _ => Some(crate::s4_r13::PortableFault::UnsafePayload("raw_url"@)),
        }
    } else if !same_key_set(value, portable_v8_keys()) {
        Some(crate::s4_r13::PortableFault::InvalidProjection)
    } else {
        match member_text(value, "schema_version"@) {
            None => Some(crate::s4_r13::PortableFault::InvalidProjection),
            Some(schema) => if schema != v.portable_graph@ {
                Some(crate::s4_r13::PortableFault::UnsupportedPortableGraphSchema(take_scalars(schema, 256)))
            } else if member_text(value, "ontology_version"@) != Some(v.ontology@) || member_text(
                value,
                "query_contract_version"@,
            ) != Some(v.query@) || crate::s4_r13::pointer_text(value, "source_snapshot"@, "schema_version"@)
                != Some(v.snapshot@) || crate::s4_r13::pointer_text(value, "projection"@, "profile"@) != Some(
                "codenoesis.lossless-portable-projection/v8"@,
            ) {
                Some(crate::s4_r13::PortableFault::InvalidProjection)
            } else if !(crate::s4_r13::pointer_text(value, "repository"@, "identity"@) matches Some(id)
                && crate::text::starts_with(id, "urn:codenoesis:"@)) {
                Some(crate::s4_r13::PortableFault::InvalidProjection)
            } else {
                None
            },
        }
    }
}

fn check_portable_v8_header<'a>(value: &'a Json, versions: &PortableVersionsV8) -> (r: Result<
    &'a str,
    R15ContractError,
>)
    ensures
        r is Err ==> !(r->Err_0.fault() is Other),
        match portable_v8_header_fault(*value, *versions) {
            Some(f) => r is Err && r->Err_0.fault() == f,
            None => r matches Ok(id) && crate::s4_r13::pointer_text(*value, "repository"@, "identity"@) == Some(id@),
        },
{
    ensure_nesting(value, 0)?;
    validate_private_fields(value)?;
    let keys = [
        "claims",
        "coverage_gaps",
        "diagnostics",
        "document_statements",
        "documents",
        "entities",
        "evidence",
        "local_flow_index",
        "ontology_version",
        "projection",
        "query_contract_version",
        "relationships",
        "repository",
        "schema_version",
        "source_snapshot",
    ];
    assert(names_view(keys@) =~= portable_v8_keys());
    if !has_key_set(value, &keys) {
        return Err(R15ContractError::InvalidProjection);
    }
    let schema = match value.get_str("schema_version") {
        Some(t) => t,
        None => return Err(R15ContractError::InvalidProjection),
    };
    if !text_eq(schema, versions.portable_graph.as_str()) {
        return Err(R15ContractError::UnsupportedPortableGraphSchema(bounded(schema, 256)));
    }
    let ontology_ok = match value.get_str("ontology_version") {
        Some(t) => text_eq(t, versions.ontology.as_str()),
        None => false,
    };
    let query_ok = match value.get_str("query_contract_version") {
        Some(t) => text_eq(t, versions.query.as_str()),
        None => false,
    };
    let snapshot_ok = match crate::s4_r13::pointer_str(value, "source_snapshot", "schema_version") {
        Some(t) => text_eq(t, versions.snapshot.as_str()),
        None => false,
    };
    let profile_ok = match crate::s4_r13::pointer_str(value, "projection", "profile") {
        Some(t) => text_eq(t, "codenoesis.lossless-portable-projection/v8"),
        None => false,
    };
    if !ontology_ok || !query_ok || !snapshot_ok || !profile_ok {
        return Err(R15ContractError::InvalidProjection);
    }
    match crate::s4_r13::pointer_str(value, "repository", "identity") {
        Some(id) => if crate::text::text_starts_with(id, "urn:codenoesis:") {
            Ok(id)
        } else {
            Err(R15ContractError::InvalidProjection)
        },
        None => Err(R15ContractError::InvalidProjection),
    }
}


/// What is wrong with the evidence links of one record of `family`: its
/// evidence list, then its single `evidence_id`, must name known evidence.
pub open spec fn evidence_link_fault(record: Json, evidence: Seq<Seq<char>>, family: Seq<char>) -> Option<
    crate::s4_r13::PortableFault,
> {
    crate::s4_r13::first_of(
        crate::s4_r13::reference_fault_of(reference_list_outcome(record, "evidence_ids"@, evidence), family),
        match member_text(record, "evidence_id"@) {
            Some(id) => if evidence.contains(id) {
                None
            } else {
                Some(crate::s4_r13::PortableFault::ReferenceMismatch(family, id))
            },
            None => None,
        },
    )
}

/// The first evidence-link fault of the records of `family`, in order.
pub open spec fn evidence_links_fault(records: Seq<Json>, evidence: Seq<Seq<char>>, family: Seq<char>) -> Option<
    crate::s4_r13::PortableFault,
>
    decreases records.len(),
{
    if records.len() == 0 {
        None
    } else {
        crate::s4_r13::first_of(
            evidence_link_fault(records[0], evidence, family),
            evidence_links_fault(records.drop_first(), evidence, family),
        )
    }
}

/// Checks the evidence links of every record of `family`
/// ([`evidence_links_fault`]).
pub fn validate_evidence_links(records: &[Json], evidence_ids: &[String], family: &'static str) -> (r: Result<
    (),
    R15ContractError,
>)
    ensures
        r is Err ==> !(r->Err_0.fault() is Other),
        match evidence_links_fault(records@, texts(evidence_ids@), family@) {
            None => r is Ok,
            Some(f) => r is Err && r->Err_0.fault() == f,
        },
{
    let ghost evs = texts(evidence_ids@);
    let mut k: usize = 0;
    assert(records@.skip(0) =~= records@);
    while k < records.len()
        invariant
            k <= records.len(),
            evs == texts(evidence_ids@),
            evidence_links_fault(records@, evs, family@) == evidence_links_fault(records@.skip(k as int), evs, family@),
        decreases records.len() - k,
    {
        assert(records@.skip(k as int)[0] == records@[k as int]);
        assert(records@.skip(k as int).drop_first() =~= records@.skip(k + 1));
        validate_reference_array_if_present(&records[k], "evidence_ids", evidence_ids, family)?;
        match records[k].get_str("evidence_id") {
            Some(id) => if !contains_text(evidence_ids, id) {
                return Err(R15ContractError::ReferenceMismatch { family, id: id.to_owned() });
            },
            None => {},
        }
        k += 1;
    }
    Ok(())
}

/// What is wrong with where one evidence record of a V8 graph points.
pub open spec fn location_fault_v8(e: Json) -> Option<crate::s4_r13::PortableFault> {
    match evidence_location(e) {
        EvidenceLocation::Accepted => None,
        EvidenceLocation::UnsafeEvidencePath => Some(crate::s4_r13::PortableFault::UnsafePayload("unsafe_evidence_path"@)),
        EvidenceLocation::UnsafeDocumentPath => Some(crate::s4_r13::PortableFault::UnsafePayload("unsafe_document_path"@)),
        EvidenceLocation::Unanchored => Some(crate::s4_r13::PortableFault::InvalidProjection),
    }
}

/// The first evidence record, in order, that points nowhere safe.
pub open spec fn locations_fault_v8(records: Seq<Json>) -> Option<crate::s4_r13::PortableFault>
    decreases records.len(),
{
    if records.len() == 0 {
        None
    } else {
        crate::s4_r13::first_of(location_fault_v8(records[0]), locations_fault_v8(records.drop_first()))
    }
}

/// Checks where every evidence record points ([`locations_fault_v8`]).
pub fn validate_locations_v8(records: &[Json]) -> (r: Result<(), R15ContractError>)
    ensures
        r is Err ==> !(r->Err_0.fault() is Other),
        match locations_fault_v8(records@) {
            None => r is Ok,
            Some(f) => r is Err && r->Err_0.fault() == f,
        },
{
    let mut k: usize = 0;
    assert(records@.skip(0) =~= records@);
    while k < records.len()
        invariant
            k <= records.len(),
            locations_fault_v8(records@) == locations_fault_v8(records@.skip(k as int)),
        decreases records.len() - k,
    {
        assert(records@.skip(k as int)[0] == records@[k as int]);
        assert(records@.skip(k as int).drop_first() =~= records@.skip(k + 1));
        validate_evidence_path(&records[k])?;
        k += 1;
    }
    Ok(())
}

/// The local-flow outcome as a portable fault.
pub open spec fn local_flow_fault(outcome: LocalFlowOutcome, profile: LocalFlowProfile) -> Option<
    crate::s4_r13::PortableFault,
> {
    match outcome {
        LocalFlowOutcome::Accepted => None,
        LocalFlowOutcome::InvalidProjection => Some(crate::s4_r13::PortableFault::InvalidProjection),
        LocalFlowOutcome::TooManyDerivations => Some(
            crate::s4_r13::PortableFault::LimitExceeded {
                limit: "local_flow_derivations"@,
                maximum: profile.max_relationships,
                observed: profile.max_relationships.saturating_add(1),
            },
        ),
        LocalFlowOutcome::TooManyInputs(count) => Some(
            crate::s4_r13::PortableFault::LimitExceeded {
                limit: "derivation_input_references"@,
                maximum: profile.max_derivation_inputs,
                observed: if count < profile.max_derivation_inputs.saturating_add(1) {
                    count as u64
                } else {
                    profile.max_derivation_inputs.saturating_add(1)
                },
            },
        ),
    }
}


fn family_checked_v8(object: &Json, family: &'static str, id_field: &'static str) -> (r: Result<
    Vec<String>,
    R15ContractError,
>)
    ensures
        r is Err ==> !(r->Err_0.fault() is Other),
        match crate::s4_r13::family_step(*object, family@, id_field@) {
            Ok(ids) => r matches Ok(v) && texts(v@) == ids,
            Err(f) => r is Err && r->Err_0.fault() == f,
        },
        r is Ok ==> member_items(*object, family@) is Some,
{
    validate_family(object, family, id_field)
}

/// What is wrong with the references of a V8 portable graph whose families
/// hold `f` (entities, relationships, claims, evidence, diagnostics,
/// coverage gaps, documents, statements), in the order the checks run,
/// ending with its local-flow index.
pub open spec fn portable_v8_references_fault(
    value: Json,
    identity: Seq<char>,
    f: Seq<Seq<Seq<char>>>,
    profile: LocalFlowProfile,
) -> Option<crate::s4_r13::PortableFault> {
    let subjects = crate::s4_r13::subject_ids(identity, f);
    let items = |family: Seq<char>| crate::s4_r13::items_of(value, family);
    crate::s4_r13::first_of(
        crate::s4_r13::relationships_fault(items("relationships"@), f[0], f[3]),
        crate::s4_r13::first_of(
            crate::s4_r13::claims_fault(items("claims"@), f[0], f[1], f[3]),
            crate::s4_r13::first_of(
                evidence_links_fault(items("entities"@), f[3], "entities"@),
                crate::s4_r13::first_of(
                    evidence_links_fault(items("diagnostics"@), f[3], "diagnostics"@),
                    crate::s4_r13::first_of(
                        evidence_links_fault(items("coverage_gaps"@), f[3], "coverage_gaps"@),
                        crate::s4_r13::first_of(
                            locations_fault_v8(items("evidence"@)),
                            crate::s4_r13::first_of(
                                crate::s4_r13::documents_fault(items("documents"@), subjects),
                                crate::s4_r13::first_of(
                                    crate::s4_r13::statements_fault(
                                        items("document_statements"@),
                                        f[6],
                                        subjects,
                                        f[3],
                                        f[5],
                                    ),
                                    local_flow_fault(
                                        local_flow_index_outcome(
                                            value,
                                            f[0],
                                            f[1],
                                            f[3],
                                            profile.index_version@,
                                            profile.rule_version@,
                                            profile.max_relationships,
                                            profile.max_derivation_inputs,
                                        ),
                                        profile,
                                    ),
                                ),
                            ),
                        ),
                    ),
                ),
            ),
        ),
    )
}

/// What is wrong with a V8 portable graph before its family digests are
/// compared, in the order the checks run: the envelope, the eight
/// identifier families, then the references and the local-flow index.
pub open spec fn portable_v8_fault(value: Json, v: PortableVersionsV8, profile: LocalFlowProfile) -> Option<
    crate::s4_r13::PortableFault,
> {
    match portable_v8_header_fault(value, v) {
        Some(f) => Some(f),
        None => {
            let identity = crate::s4_r13::pointer_text(value, "repository"@, "identity"@)->Some_0;
            match crate::s4_r13::family_step(value, "entities"@, "id"@) {
                Err(f) => Some(f),
                Ok(e) => match crate::s4_r13::family_step(value, "relationships"@, "id"@) {
                    Err(f) => Some(f),
                    Ok(r) => match crate::s4_r13::family_step(value, "claims"@, "id"@) {
                        Err(f) => Some(f),
                        Ok(c) => match crate::s4_r13::family_step(value, "evidence"@, "id"@) {
                            Err(f) => Some(f),
                            Ok(ev) => match crate::s4_r13::family_step(value, "diagnostics"@, "id"@) {
                                Err(f) => Some(f),
                                Ok(d) => match crate::s4_r13::family_step(value, "coverage_gaps"@, "id"@) {
                                    Err(f) => Some(f),
                                    Ok(cg) => match crate::s4_r13::family_step(
                                        value,
                                        "documents"@,
                                        "document_id"@,
                                    ) {
                                        Err(f) => Some(f),
                                        Ok(docs) => match crate::s4_r13::family_step(
                                            value,
                                            "document_statements"@,
                                            "statement_id"@,
                                        ) {
                                            Err(f) => Some(f),
                                            Ok(sts) => portable_v8_references_fault(
                                                value,
                                                identity,
                                                seq![e, r, c, ev, d, cg, docs, sts],
                                                profile,
                                            ),
                                        },
                                    },
                                },
                            },
                        },
                    },
                },
            }
        },
    }
}


fn r13_checked(r: Result<(), crate::s4_r13::R13ContractError>) -> (res: Result<(), R15ContractError>)
    ensures
        r is Ok ==> res is Ok,
        r is Err ==> res is Err && res->Err_0.fault() == r->Err_0.fault(),
{
    match r {
        Ok(()) => Ok(()),
        Err(e) => Err(from_r13(e)),
    }
}

fn validate_portable_v8_references(
    value: &Json,
    identity: &str,
    ids: &[Vec<String>; 8],
    profile: &LocalFlowProfile,
) -> (res: Result<(), R15ContractError>)
    requires
        member_items(*value, "entities"@) is Some,
        member_items(*value, "relationships"@) is Some,
        member_items(*value, "claims"@) is Some,
        member_items(*value, "evidence"@) is Some,
        member_items(*value, "diagnostics"@) is Some,
        member_items(*value, "coverage_gaps"@) is Some,
        member_items(*value, "documents"@) is Some,
        member_items(*value, "document_statements"@) is Some,
    ensures
        res is Err ==> !(res->Err_0.fault() is Other),
        match portable_v8_references_fault(
            *value,
            identity@,
            seq![
                texts(ids[0]@),
                texts(ids[1]@),
                texts(ids[2]@),
                texts(ids[3]@),
                texts(ids[4]@),
                texts(ids[5]@),
                texts(ids[6]@),
                texts(ids[7]@),
            ],
            *profile,
        ) {
            None => res is Ok,
            Some(f) => res is Err && res->Err_0.fault() == f,
        },
{
    let ghost f = seq![
        texts(ids[0]@),
        texts(ids[1]@),
        texts(ids[2]@),
        texts(ids[3]@),
        texts(ids[4]@),
        texts(ids[5]@),
        texts(ids[6]@),
        texts(ids[7]@),
    ];
    let entities = match value.get_array("entities") {
        Some(v) => v,
        None => return Err(R15ContractError::InvalidProjection),
    };
    let relationships = match value.get_array("relationships") {
        Some(v) => v,
        None => return Err(R15ContractError::InvalidProjection),
    };
    let claims = match value.get_array("claims") {
        Some(v) => v,
        None => return Err(R15ContractError::InvalidProjection),
    };
    let evidence = match value.get_array("evidence") {
        Some(v) => v,
        None => return Err(R15ContractError::InvalidProjection),
    };
    let diagnostics = match value.get_array("diagnostics") {
        Some(v) => v,
        None => return Err(R15ContractError::InvalidProjection),
    };
    let gaps = match value.get_array("coverage_gaps") {
        Some(v) => v,
        None => return Err(R15ContractError::InvalidProjection),
    };
    let documents = match value.get_array("documents") {
        Some(v) => v,
        None => return Err(R15ContractError::InvalidProjection),
    };
    let statements = match value.get_array("document_statements") {
        Some(v) => v,
        None => return Err(R15ContractError::InvalidProjection),
    };
    let evidence_ids = ids[3].as_slice();
    r13_checked(
        crate::s4_r13::validate_relationship_references(relationships.as_slice(), ids[0].as_slice(), evidence_ids),
    )?;
    r13_checked(
        crate::s4_r13::validate_claim_references(
            claims.as_slice(),
            ids[0].as_slice(),
            ids[1].as_slice(),
            evidence_ids,
        ),
    )?;
    validate_evidence_links(entities.as_slice(), evidence_ids, "entities")?;
    validate_evidence_links(diagnostics.as_slice(), evidence_ids, "diagnostics")?;
    validate_evidence_links(gaps.as_slice(), evidence_ids, "coverage_gaps")?;
    validate_locations_v8(evidence.as_slice())?;
    let mut subjects: Vec<String> = Vec::new();
    subjects.push(identity.to_owned());
    let mut k: usize = 0;
    while k < 8
        invariant
            k <= 8,
            f == seq![
                texts(ids[0]@),
                texts(ids[1]@),
                texts(ids[2]@),
                texts(ids[3]@),
                texts(ids[4]@),
                texts(ids[5]@),
                texts(ids[6]@),
                texts(ids[7]@),
            ],
            texts(subjects@) == f.take(k as int).fold_left(seq![identity@], |acc: Seq<Seq<char>>, x: Seq<Seq<char>>| acc + x),
        decreases 8 - k,
    {
        crate::s4_r13::append_texts(&mut subjects, ids[k].as_slice());
        proof {
            assert(f.take(k + 1).drop_last() =~= f.take(k as int));
            assert(f[k as int] == texts(ids[k as int]@));
        }
        k += 1;
    }
    proof {
        assert(f.take(8) =~= f);
        reveal_with_fuel(vstd::seq::Seq::fold_left, 9);
        assert(texts(subjects@) =~= crate::s4_r13::subject_ids(identity@, f));
    }
    r13_checked(crate::s4_r13::validate_documents(documents.as_slice(), subjects.as_slice()))?;
    r13_checked(
        crate::s4_r13::validate_statements(
            statements.as_slice(),
            ids[6].as_slice(),
            subjects.as_slice(),
            evidence_ids,
            ids[5].as_slice(),
        ),
    )?;
    validate_portable_local_flow_index(value, ids[0].as_slice(), ids[1].as_slice(), evidence_ids, profile)
}

/// Checks everything of a V8 portable graph but its family digests: the
/// envelope, the eight identifier families, every reference and the
/// local-flow index; the first failing check decides the error
/// ([`portable_v8_fault`]).
pub fn validate_portable_v8_structure(value: &Json, versions: &PortableVersionsV8, profile: &LocalFlowProfile) -> (r:
    Result<(), R15ContractError>)
    ensures
        r is Err ==> !(r->Err_0.fault() is Other),
        match portable_v8_fault(*value, *versions, *profile) {
            None => r is Ok,
            Some(f) => r is Err && r->Err_0.fault() == f,
        },
{
    let identity = check_portable_v8_header(value, versions)?;
    let e = family_checked_v8(value, "entities", "id")?;
    let r = family_checked_v8(value, "relationships", "id")?;
    let c = family_checked_v8(value, "claims", "id")?;
    let ev = family_checked_v8(value, "evidence", "id")?;
    let d = family_checked_v8(value, "diagnostics", "id")?;
    let cg = family_checked_v8(value, "coverage_gaps", "id")?;
    let docs = family_checked_v8(value, "documents", "document_id")?;
    let sts = family_checked_v8(value, "document_statements", "statement_id")?;
    let ids = [e, r, c, ev, d, cg, docs, sts];
    validate_portable_v8_references(value, identity, &ids, profile)
}


/// The families of a V8 portable graph, in the order their digests are
/// declared.
pub open spec fn portable_v8_families() -> Seq<Seq<char>> {
    seq![
        "entities"@,
        "relationships"@,
        "claims"@,
        "evidence"@,
        "diagnostics"@,
        "coverage_gaps"@,
        "documents"@,
        "document_statements"@,
        "local_flow_index"@,
    ]
}

/// A V8 portable graph whose envelope is valid holds all nine families.
proof fn lemma_v8_families_present(value: Json, versions: PortableVersionsV8)
    requires
        portable_v8_header_fault(value, versions) is None,
    ensures
        forall|k: int| 0 <= k < 9 ==> member(value, #[trigger] portable_v8_families()[k]) is Some,
{
    assert forall|k: int| 0 <= k < 9 implies member(value, #[trigger] portable_v8_families()[k]) is Some by {
        let keys = portable_v8_keys();
        let name = portable_v8_families()[k];
        if k == 0 {
            assert(keys[5] == name);
        } else if k == 1 {
            assert(keys[11] == name);
        } else if k == 2 {
            assert(keys[0] == name);
        } else if k == 3 {
            assert(keys[6] == name);
        } else if k == 4 {
            assert(keys[2] == name);
        } else if k == 5 {
            assert(keys[1] == name);
        } else if k == 6 {
            assert(keys[4] == name);
        } else if k == 7 {
            assert(keys[3] == name);
        } else {
            assert(keys[7] == name);
        }
        crate::portable::lemma_key_set_member(value, keys, name);
    }
}

/// Validates one V8 portable graph: its structure ([`portable_v8_fault`])
/// decides every error but the last check, which compares the declared
/// family digests with those `sha256` gives; a mismatch there is
/// `InvalidProjection`.
#[verifier::spinoff_prover]
pub fn validate_portable_value<F: Fn(&[u8]) -> String>(
    value: &Json,
    versions: &PortableVersionsV8,
    profile: &LocalFlowProfile,
    sha256: &F,
) -> (r: Result<(), R15ContractError>)
    requires
        crate::s4_r18::total_digest(*sha256),
    ensures
        r is Err ==> !(r->Err_0.fault() is Other),
        match portable_v8_fault(*value, *versions, *profile) {
            Some(f) => r is Err && r->Err_0.fault() == f,
            None => {
                &&& r is Ok ==> exists|ds: Seq<Seq<char>>|
                    crate::portable::family_digests_for(*sha256, *value, portable_v8_families(), ds)
                        && crate::portable::digests_declared_for(*value, portable_v8_families(), ds)
                &&& r is Err ==> (r matches Err(R15ContractError::InvalidProjection))
                &&& (forall|ds: Seq<Seq<char>>|
                    #[trigger] crate::portable::family_digests_for(*sha256, *value, portable_v8_families(), ds)
                        ==> crate::portable::digests_declared_for(*value, portable_v8_families(), ds)) ==> r is Ok
            },
        },
{
    validate_portable_v8_structure(value, versions, profile)?;
    let names = [
        "entities",
        "relationships",
        "claims",
        "evidence",
        "diagnostics",
        "coverage_gaps",
        "documents",
        "document_statements",
        "local_flow_index",
    ];
    assert(names_view(names@) =~= portable_v8_families());
    proof {
        lemma_v8_families_present(*value, *versions);
    }
    let digests = match crate::portable::digests_of_families(value, &names, sha256) {
        Some(ds) => ds,
        None => {
            assert(false);
            return Err(R15ContractError::InvalidProjection);
        },
    };
    if !crate::portable::declared_digests_match(value, &names, digests.as_slice()) {
        return Err(R15ContractError::InvalidProjection);
    }
    Ok(())
}


/// What a V8 export needs of its inputs: the snapshot's ontology, the
/// manifest bound to the head, a knowledge graph object with all the record
/// families, documents the export can take, the repository.
pub open spec fn v8_export_inputs(semantic: Json, head: LocalSnapshotHead, manifest: Json, versions: PortableVersionsV8) -> bool {
    &&& member_text(semantic, "ontology_version"@) == Some(versions.ontology@)
    &&& crate::export::documentation_bound(manifest, head)
    &&& member(semantic, "knowledge_graph"@) matches Some(g) && g is Object && {
        &&& member(g, "claims"@) is Some
        &&& member(g, "coverage"@) is Some
        &&& member(g, "diagnostics"@) is Some
        &&& member(g, "entities"@) is Some
        &&& member(g, "evidence"@) is Some
        &&& member(g, "local_flow_index"@) is Some
        &&& member(g, "relationships"@) is Some
    }
    &&& crate::export::manifest_documents(manifest) is Some
    &&& member(semantic, "repository"@) is Some
}

/// The V8 portable projection of a snapshot, its head and documentation
/// manifest, member by member in key order: copies of the graph's record
/// families (coverage gaps from `coverage`), the manifest's documents and
/// statements, the versions, the projection profile with the digest `ds[k]`
/// of each family (an answer of `f` for that family's canonical bytes),
/// copies of the repository, and the source snapshot.
pub open spec fn v8_projection<F: Fn(&[u8]) -> String>(
    v: Json,
    semantic: Json,
    head: LocalSnapshotHead,
    manifest: Json,
    versions: PortableVersionsV8,
    f: F,
    ds: Seq<Seq<char>>,
) -> bool {
    let g = member(semantic, "knowledge_graph"@).unwrap();
    let docs = crate::export::manifest_documents(manifest).unwrap();
    &&& member_count(v) == 15
    &&& crate::export::copy_member(v, 0, "claims"@, member(g, "claims"@))
    &&& crate::export::copy_member(v, 1, "coverage_gaps"@, member(g, "coverage"@))
    &&& crate::export::copy_member(v, 2, "diagnostics"@, member(g, "diagnostics"@))
    &&& crate::json::member_at(v, 3, "document_statements"@) matches Some(Json::Array(xs))
        && crate::export::portable_statements_of(xs@, docs)
    &&& crate::json::member_at(v, 4, "documents"@) matches Some(Json::Array(xs))
        && crate::export::portable_documents_of(xs@, docs)
    &&& crate::export::copy_member(v, 5, "entities"@, member(g, "entities"@))
    &&& crate::export::copy_member(v, 6, "evidence"@, member(g, "evidence"@))
    &&& crate::export::copy_member(v, 7, "local_flow_index"@, member(g, "local_flow_index"@))
    &&& crate::explorer::text_member(v, 8, "ontology_version"@, versions.ontology@)
    &&& crate::json::member_at(v, 9, "projection"@) matches Some(p) && {
        &&& member_count(p) == 2
        &&& crate::json::member_at(p, 0, "family_sha256"@) matches Some(fd) && {
            &&& member_count(fd) == 9
            &&& ds.len() == 9
            &&& crate::export::digest_member(fd, 0, "claims"@, ds[0], v, 0, f)
            &&& crate::export::digest_member(fd, 1, "coverage_gaps"@, ds[1], v, 1, f)
            &&& crate::export::digest_member(fd, 2, "diagnostics"@, ds[2], v, 2, f)
            &&& crate::export::digest_member(fd, 3, "document_statements"@, ds[3], v, 3, f)
            &&& crate::export::digest_member(fd, 4, "documents"@, ds[4], v, 4, f)
            &&& crate::export::digest_member(fd, 5, "entities"@, ds[5], v, 5, f)
            &&& crate::export::digest_member(fd, 6, "evidence"@, ds[6], v, 6, f)
            &&& crate::export::digest_member(fd, 7, "local_flow_index"@, ds[7], v, 7, f)
            &&& crate::export::digest_member(fd, 8, "relationships"@, ds[8], v, 11, f)
        }
        &&& crate::explorer::text_member(p, 1, "profile"@, "codenoesis.lossless-portable-projection/v8"@)
    }
    &&& crate::explorer::text_member(v, 10, "query_contract_version"@, versions.query@)
    &&& crate::export::copy_member(v, 11, "relationships"@, member(g, "relationships"@))
    &&& crate::export::copy_member(v, 12, "repository"@, member(semantic, "repository"@))
    &&& crate::explorer::text_member(v, 13, "schema_version"@, versions.portable_graph@)
    &&& crate::json::member_at(v, 14, "source_snapshot"@) matches Some(src) && {
        &&& member_count(src) == 3
        &&& crate::explorer::text_member(src, 0, "schema_version"@, versions.snapshot@)
        &&& crate::json::member_at(src, 1, "semantic_hash"@) matches Some(h) && member_count(h) == 2
            && crate::explorer::text_member(h, 0, "algorithm"@, head.semantic_hash_algorithm@)
            && crate::explorer::text_member(h, 1, "value"@, head.semantic_hash@)
        &&& crate::explorer::text_member(src, 2, "snapshot_id"@, head.snapshot_id@)
    }
}

/// A V8 document that validates whatever the digest function answers:
/// it has no structural fault and every digest the function can give is
/// the declared one.
pub open spec fn v8_value_accepted<F: Fn(&[u8]) -> String>(value: Json, versions: PortableVersionsV8, profile: LocalFlowProfile, sha256: F) -> bool {
    &&& portable_v8_fault(value, versions, profile) is None
    &&& forall|ds: Seq<Seq<char>>|
        #[trigger] crate::portable::family_digests_for(sha256, value, portable_v8_families(), ds)
            ==> crate::portable::digests_declared_for(value, portable_v8_families(), ds)
}

/// A validated V8 portable graph with its canonical compact JSON text and the
/// digest function it was checked with.
pub struct PortableGraphV8<F: Fn(&[u8]) -> String> {
    value: Json,
    canonical: Vec<u8>,
    sha256: F,
}

impl<F: Fn(&[u8]) -> String> PortableGraphV8<F> {
    /// The canonical bytes are the canonical text of the document.
    #[verifier::type_invariant]
    closed spec fn canonical_matches(&self) -> bool {
        self.canonical@ == crate::json::json_bytes(self.value)
    }

    /// The graph document.
    pub closed spec fn document(&self) -> Json {
        self.value
    }

    /// The canonical text of the document, without the final LF.
    pub closed spec fn canonical_bytes(&self) -> Seq<u8> {
        self.canonical@
    }

    /// The digest function the graph was checked with.
    pub closed spec fn digest_function(&self) -> F {
        self.sha256
    }

    /// Strictly re-imports one canonical LF-terminated V8 portable graph.
    /// `parsed` is the JSON parse of all of `bytes` (`None` when they do not
    /// parse).
    ///
    /// Above [`MAX_R15_PORTABLE_GRAPH_BYTES`] is `LimitExceeded`; a failed
    /// parse is `InvalidProjection`; the document must then validate
    /// ([`validate_portable_value`]); bytes that are not exactly its
    /// canonical text and one LF are `Noncanonical`, with the digests of the
    /// expected and the observed bytes.
    pub fn from_canonical_file(
        bytes: &[u8],
        parsed: Option<Json>,
        versions: &PortableVersionsV8,
        profile: &LocalFlowProfile,
        sha256: F,
    ) -> (r: Result<Self, R15ContractError>)
        requires
            crate::s4_r18::total_digest(sha256),
        ensures
            bytes@.len() > MAX_R15_PORTABLE_GRAPH_BYTES ==> (r matches Err(
                R15ContractError::LimitExceeded { limit, maximum, observed },
            ) && limit@ == "portable_graph_bytes"@ && maximum == MAX_R15_PORTABLE_GRAPH_BYTES
                && observed == bytes@.len()),
            bytes@.len() <= MAX_R15_PORTABLE_GRAPH_BYTES && parsed is None ==> (r matches Err(
                R15ContractError::InvalidProjection,
            )),
            bytes@.len() <= MAX_R15_PORTABLE_GRAPH_BYTES ==> (parsed matches Some(v) ==> (
            portable_v8_fault(v, *versions, *profile) matches Some(f) ==> r is Err && r->Err_0.fault() == f)),
            r matches Ok(g) ==> {
                &&& parsed == Some(g.document())
                &&& g.canonical_bytes() == crate::json::json_bytes(g.document())
                &&& bytes@ == g.canonical_bytes().push(10u8)
                &&& g.digest_function() == sha256
                &&& portable_v8_fault(g.document(), *versions, *profile) is None
                &&& exists|ds: Seq<Seq<char>>|
                    crate::portable::family_digests_for(sha256, g.document(), portable_v8_families(), ds)
                        && crate::portable::digests_declared_for(g.document(), portable_v8_families(), ds)
            },
            parsed matches Some(v) ==> (bytes@.len() <= MAX_R15_PORTABLE_GRAPH_BYTES && bytes@ == crate::json::json_bytes(v).push(10u8)
                && portable_v8_fault(v, *versions, *profile) is None && (forall|ds: Seq<Seq<char>>| #[trigger] crate::portable::family_digests_for(sha256, v, portable_v8_families(), ds) ==> crate::portable::digests_declared_for(v, portable_v8_families(), ds)) ==> (r matches Ok(g) && g.document() == v)),
            crate::s4_r18::deterministic_digest(sha256) ==> (r matches Ok(g) ==> v8_value_accepted(
                g.document(),
                *versions, *profile,
                sha256,
            )),
            r matches Err(R15ContractError::Noncanonical { expected_sha256, observed_sha256 }) ==> (
            parsed matches Some(v) && bytes@ != crate::json::json_bytes(v).push(10u8)
                && crate::s4_r18::digest_of(sha256, crate::json::json_bytes(v).push(10u8), expected_sha256@)
                && crate::s4_r18::digest_of(sha256, bytes@, observed_sha256@)),
    {
        enforce_portable_size(bytes.len())?;
        let value = match parsed {
            Some(v) => v,
            None => return Err(R15ContractError::InvalidProjection),
        };
        validate_portable_value(&value, versions, profile, &sha256)?;
        let canonical = crate::json::to_bytes(&value);
        let mut expected = vstd::slice::slice_to_vec(canonical.as_slice());
        expected.push(10u8);
        if !crate::text::bytes_eq(expected.as_slice(), bytes) {
            let expected_slice = expected.as_slice();
            let expected_sha256 = sha256(expected_slice);
            let observed_sha256 = sha256(bytes);
            proof {
                assert(call_ensures(sha256, (expected_slice,), expected_sha256));
                assert(call_ensures(sha256, (bytes,), observed_sha256));
            }
            return Err(R15ContractError::Noncanonical { expected_sha256, observed_sha256 });
        }
        proof {
            if crate::s4_r18::deterministic_digest(sha256) {
                let ds = choose|ds: Seq<Seq<char>>|
                    crate::portable::family_digests_for(sha256, value, portable_v8_families(), ds)
                        && crate::portable::digests_declared_for(value, portable_v8_families(), ds);
                crate::portable::lemma_declared_for_every_answer(sha256, value, portable_v8_families(), ds);
            }
        }
        Ok(Self { value, canonical, sha256 })
    }

    /// Projects a snapshot whose stored payload and head the caller has
    /// validated (`stored_snapshot_valid`, else an invalid snapshot) and a
    /// documentation manifest into a V8 portable graph ([`v8_projection`]):
    /// the inputs must be usable ([`v8_export_inputs`], else an invalid
    /// snapshot), and the projection must then validate
    /// ([`validate_portable_value`]) and fit the size limit with its final LF.
    pub fn from_validated_v17(
        semantic: &Json,
        head: &LocalSnapshotHead,
        documentation_manifest: &Json,
        stored_snapshot_valid: bool,
        versions: &PortableVersionsV8,
        profile: &LocalFlowProfile,
        sha256: F,
    ) -> (r: Result<Self, R15ContractError>)
        requires
            crate::s4_r18::total_digest(sha256),
        ensures
            !(stored_snapshot_valid && v8_export_inputs(*semantic, *head, *documentation_manifest, *versions)) ==> (r matches Err(
                R15ContractError::InvalidSnapshot,
            )),
            r matches Ok(g) ==> {
                &&& stored_snapshot_valid && v8_export_inputs(*semantic, *head, *documentation_manifest, *versions)
                &&& exists|ds: Seq<Seq<char>>|
                    #[trigger] v8_projection(g.document(), *semantic, *head, *documentation_manifest, *versions, sha256, ds)
                &&& g.canonical_bytes() == crate::json::json_bytes(g.document())
                &&& g.canonical_bytes().len() + 1 <= MAX_R15_PORTABLE_GRAPH_BYTES
                &&& g.digest_function() == sha256
                &&& portable_v8_fault(g.document(), *versions, *profile) is None
                &&& exists|ds: Seq<Seq<char>>|
                    crate::portable::family_digests_for(sha256, g.document(), portable_v8_families(), ds)
                        && crate::portable::digests_declared_for(g.document(), portable_v8_families(), ds)
            },
            crate::s4_r18::deterministic_digest(sha256) ==> (r matches Ok(g) ==> v8_value_accepted(
                g.document(),
                *versions, *profile,
                sha256,
            )),
            stored_snapshot_valid && v8_export_inputs(*semantic, *head, *documentation_manifest, *versions) && (forall|v: Json, ds: Seq<Seq<char>>|
                #[trigger] v8_projection(v, *semantic, *head, *documentation_manifest, *versions, sha256, ds) ==> v8_value_accepted(
                    v,
                    *versions, *profile,
                    sha256,
                ) && crate::json::json_bytes(v).len() + 1 <= MAX_R15_PORTABLE_GRAPH_BYTES) ==> r is Ok,
    {
        if !stored_snapshot_valid {
            return Err(R15ContractError::InvalidSnapshot);
        }
        let ontology_ok = match semantic.get_str("ontology_version") {
            Some(t) => crate::text::text_eq(t, versions.ontology.as_str()),
            None => false,
        };
        if !ontology_ok {
            return Err(R15ContractError::InvalidSnapshot);
        }
        if !crate::export::documentation_binding(documentation_manifest, head) {
            return Err(R15ContractError::InvalidSnapshot);
        }
        let graph = match semantic.get("knowledge_graph") {
            Some(g) => g,
            None => return Err(R15ContractError::InvalidSnapshot),
        };
        if graph.as_object().is_none() {
            return Err(R15ContractError::InvalidSnapshot);
        }
        let (documents, statements) = match crate::export::portable_documents(documentation_manifest) {
            Some(p) => p,
            None => return Err(R15ContractError::InvalidSnapshot),
        };
        let repository = match crate::export::copied_member(semantic, "repository") {
            Some(x) => x,
            None => return Err(R15ContractError::InvalidSnapshot),
        };
        let local_flow = match crate::export::copied_member(graph, "local_flow_index") {
            Some(x) => x,
            None => return Err(R15ContractError::InvalidSnapshot),
        };
        let entities = match crate::export::copied_member(graph, "entities") {
            Some(x) => x,
            None => return Err(R15ContractError::InvalidSnapshot),
        };
        let relationships = match crate::export::copied_member(graph, "relationships") {
            Some(x) => x,
            None => return Err(R15ContractError::InvalidSnapshot),
        };
        let claims = match crate::export::copied_member(graph, "claims") {
            Some(x) => x,
            None => return Err(R15ContractError::InvalidSnapshot),
        };
        let evidence = match crate::export::copied_member(graph, "evidence") {
            Some(x) => x,
            None => return Err(R15ContractError::InvalidSnapshot),
        };
        let diagnostics = match crate::export::copied_member(graph, "diagnostics") {
            Some(x) => x,
            None => return Err(R15ContractError::InvalidSnapshot),
        };
        let coverage = match crate::export::copied_member(graph, "coverage") {
            Some(x) => x,
            None => return Err(R15ContractError::InvalidSnapshot),
        };
        let statements_value = Json::Array(statements);
        let documents_value = Json::Array(documents);
        let d0 = crate::export::digest_of_value(&claims, &sha256);
        let d1 = crate::export::digest_of_value(&coverage, &sha256);
        let d2 = crate::export::digest_of_value(&diagnostics, &sha256);
        let d3 = crate::export::digest_of_value(&statements_value, &sha256);
        let d4 = crate::export::digest_of_value(&documents_value, &sha256);
        let d5 = crate::export::digest_of_value(&entities, &sha256);
        let d6 = crate::export::digest_of_value(&evidence, &sha256);
        let d7 = crate::export::digest_of_value(&local_flow, &sha256);
        let d8 = crate::export::digest_of_value(&relationships, &sha256);
        let ghost ds = seq![d0@, d1@, d2@, d3@, d4@, d5@, d6@, d7@, d8@];
        let family_sha256 = Json::Object(
            vec![
                entry("claims", Json::Str(d0)),
                entry("coverage_gaps", Json::Str(d1)),
                entry("diagnostics", Json::Str(d2)),
                entry("document_statements", Json::Str(d3)),
                entry("documents", Json::Str(d4)),
                entry("entities", Json::Str(d5)),
                entry("evidence", Json::Str(d6)),
                entry("local_flow_index", Json::Str(d7)),
                entry("relationships", Json::Str(d8)),
            ],
        );
        let projection = Json::Object(
            vec![
                entry("family_sha256", family_sha256),
                entry("profile", Json::text("codenoesis.lossless-portable-projection/v8")),
            ],
        );
        let semantic_hash = Json::Object(
            vec![
                entry("algorithm", Json::text(head.semantic_hash_algorithm.as_str())),
                entry("value", Json::text(head.semantic_hash.as_str())),
            ],
        );
        let source_snapshot = Json::Object(
            vec![
                entry("schema_version", Json::text(versions.snapshot.as_str())),
                entry("semantic_hash", semantic_hash),
                entry("snapshot_id", Json::text(head.snapshot_id.as_str())),
            ],
        );
        let mut fields = vec![
            entry("claims", claims),
            entry("coverage_gaps", coverage),
            entry("diagnostics", diagnostics),
            entry("document_statements", statements_value),
            entry("documents", documents_value),
            entry("entities", entities),
            entry("evidence", evidence),
            entry("local_flow_index", local_flow),
            entry("ontology_version", Json::text(versions.ontology.as_str())),
            entry("projection", projection),
            entry("query_contract_version", Json::text(versions.query.as_str())),
            entry("relationships", relationships),
            entry("repository", repository),
        ];
        fields.push(entry("schema_version", Json::text(versions.portable_graph.as_str())));
        fields.push(entry("source_snapshot", source_snapshot));
        let value = Json::Object(fields);
        proof {
            assert(v8_projection(value, *semantic, *head, *documentation_manifest, *versions, sha256, ds));
        }
        validate_portable_value(&value, versions, profile, &sha256)?;
        let canonical = crate::json::to_bytes(&value);
        let size = if canonical.len() < usize::MAX {
            canonical.len() + 1
        } else {
            usize::MAX
        };
        enforce_portable_size(size)?;
        proof {
            if crate::s4_r18::deterministic_digest(sha256) {
                let ds = choose|ds: Seq<Seq<char>>|
                    crate::portable::family_digests_for(sha256, value, portable_v8_families(), ds)
                        && crate::portable::digests_declared_for(value, portable_v8_families(), ds);
                crate::portable::lemma_declared_for_every_answer(sha256, value, portable_v8_families(), ds);
            }
        }
        Ok(Self { value, canonical, sha256 })
    }

    /// The graph document.
    pub fn value(&self) -> (r: &Json)
        ensures
            *r == self.document(),
    {
        &self.value
    }

    /// The canonical text followed by one LF.
    pub fn canonical_file(&self) -> (r: Vec<u8>)
        ensures
            r@ == self.canonical_bytes().push(10u8),
            r@ == crate::json::json_bytes(self.document()).push(10u8),
    {
        proof {
            use_type_invariant(self);
        }
        let mut bytes = vstd::slice::slice_to_vec(self.canonical.as_slice());
        bytes.push(10u8);
        bytes
    }

    /// The digest of the canonical file.
    pub fn canonical_sha256(&self) -> (r: String)
        requires
            crate::s4_r18::total_digest(self.digest_function()),
        ensures
            crate::s4_r18::digest_of(self.digest_function(), self.canonical_bytes().push(10u8), r@),
    {
        let bytes = self.canonical_file();
        let slice = bytes.as_slice();
        let digest = (self.sha256)(slice);
        proof {
            assert(call_ensures(self.sha256, (slice,), digest));
        }
        digest
    }
}


/// The versions a stored R15 semantic snapshot declares, as the caller's
/// domain model names them.
#[derive(Clone, Debug, PartialEq, Eq)]
pub struct SemanticVersionsV15 {
    pub pipeline: String,
    pub ontology: String,
    pub configuration: String,
    pub flow_profile: String,
    pub extractor: String,
    pub graph: String,
}

/// The snapshot declares the pipeline, ontology, configuration schema and
/// flow profile, and lists the extractor among its extractor versions.
pub open spec fn semantic_header_ok(semantic: Json, v: SemanticVersionsV15) -> bool {
    &&& member_text(semantic, "pipeline_version"@) == Some(v.pipeline@)
    &&& member_text(semantic, "ontology_version"@) == Some(v.ontology@)
    &&& crate::s4_r13::pointer_text(semantic, "configuration"@, "schema_version"@) == Some(v.configuration@)
    &&& crate::s4_r13::pointer_text(semantic, "configuration"@, "rust_flow_profile"@) == Some(v.flow_profile@)
    &&& member_items(semantic, "extractor_versions"@) matches Some(items) && exists|k: int|
        0 <= k < items.len() && as_text(#[trigger] items[k]) == Some(v.extractor@)
}

pub(crate) fn lists_text(items: &Vec<Json>, wanted: &str) -> (r: bool)
    ensures
        r == exists|k: int| 0 <= k < items@.len() && as_text(#[trigger] items@[k]) == Some(wanted@),
{
    let mut k: usize = 0;
    while k < items.len()
        invariant
            k <= items.len(),
            forall|m: int| 0 <= m < k ==> as_text(#[trigger] items@[m]) != Some(wanted@),
        decreases items.len() - k,
    {
        match items[k].as_str() {
            Some(t) => if text_eq(t, wanted) {
                return true;
            },
            None => {},
        }
        k += 1;
    }
    false
}

/// What is wrong with one claim of a stored graph: it must name its subject
/// (else `InvalidSnapshot`), the subject must be an entity or relationship
/// of its kind (else `ReferenceMismatch`), and its evidence must be known.
pub open spec fn stored_claim_fault(
    c: Json,
    entities: Seq<Seq<char>>,
    relationships: Seq<Seq<char>>,
    evidence: Seq<Seq<char>>,
) -> Option<crate::s4_r13::PortableFault> {
    match member_text(c, "subject_id"@) {
        None => Some(crate::s4_r13::PortableFault::InvalidSnapshot),
        Some(_) => crate::s4_r13::claim_fault(c, entities, relationships, evidence),
    }
}

/// The first stored-claim fault, in order.
pub open spec fn stored_claims_fault(
    cs: Seq<Json>,
    entities: Seq<Seq<char>>,
    relationships: Seq<Seq<char>>,
    evidence: Seq<Seq<char>>,
) -> Option<crate::s4_r13::PortableFault>
    decreases cs.len(),
{
    if cs.len() == 0 {
        None
    } else {
        crate::s4_r13::first_of(
            stored_claim_fault(cs[0], entities, relationships, evidence),
            stored_claims_fault(cs.drop_first(), entities, relationships, evidence),
        )
    }
}

fn stored_claims(cs: &[Json], entity_ids: &[String], relationship_ids: &[String], evidence_ids: &[String]) -> (r:
    Result<(), R15ContractError>)
    ensures
        r is Err ==> !(r->Err_0.fault() is Other),
        match stored_claims_fault(cs@, texts(entity_ids@), texts(relationship_ids@), texts(evidence_ids@)) {
            None => r is Ok,
            Some(f) => r is Err && r->Err_0.fault() == f,
        },
{
    let ghost es = texts(entity_ids@);
    let ghost rs = texts(relationship_ids@);
    let ghost evs = texts(evidence_ids@);
    let mut k: usize = 0;
    assert(cs@.skip(0) =~= cs@);
    while k < cs.len()
        invariant
            k <= cs.len(),
            es == texts(entity_ids@),
            rs == texts(relationship_ids@),
            evs == texts(evidence_ids@),
            stored_claims_fault(cs@, es, rs, evs) == stored_claims_fault(cs@.skip(k as int), es, rs, evs),
        decreases cs.len() - k,
    {
        assert(cs@.skip(k as int)[0] == cs@[k as int]);
        assert(cs@.skip(k as int).drop_first() =~= cs@.skip(k + 1));
        let subject = match cs[k].get_str("subject_id") {
            Some(t) => t,
            None => return Err(R15ContractError::InvalidSnapshot),
        };
        let valid = match cs[k].get_str("subject_kind") {
            Some(kind) => if text_eq(kind, "entity") {
                contains_text(entity_ids, subject)
            } else if text_eq(kind, "relationship") {
                contains_text(relationship_ids, subject)
            } else {
                false
            },
            None => false,
        };
        proof {
            reveal_strlit("entity");
            reveal_strlit("relationship");
            assert("entity"@.len() != "relationship"@.len());
        }
        if !valid {
            return Err(R15ContractError::ReferenceMismatch { family: "claims", id: subject.to_owned() });
        }
        validate_reference_array_if_present(&cs[k], "evidence_ids", evidence_ids, "claims")?;
        k += 1;
    }
    Ok(())
}


/// What is wrong with a stored R15 semantic snapshot, in the order the
/// checks run: its declared versions and its knowledge graph's schema
/// (`InvalidSnapshot`); the graph's six families; the references of its
/// relationships, entities, claims, diagnostics and coverage; and its
/// local-flow index.
pub open spec fn stored_r15_fault(semantic: Json, v: SemanticVersionsV15, profile: LocalFlowProfile) -> Option<
    crate::s4_r13::PortableFault,
> {
    if !semantic_header_ok(semantic, v) {
        Some(crate::s4_r13::PortableFault::InvalidSnapshot)
    } else {
        match member(semantic, "knowledge_graph"@) {
            Some(graph) => if !(graph is Object) || member_text(graph, "schema_version"@) != Some(v.graph@)
                || member_text(graph, "ontology_version"@) != Some(v.ontology@) {
                Some(crate::s4_r13::PortableFault::InvalidSnapshot)
            } else {
                let items = |family: Seq<char>| crate::s4_r13::items_of(graph, family);
                match crate::s4_r13::family_step(graph, "entities"@, "id"@) {
                    Err(f) => Some(f),
                    Ok(e) => match crate::s4_r13::family_step(graph, "relationships"@, "id"@) {
                        Err(f) => Some(f),
                        Ok(r) => match crate::s4_r13::family_step(graph, "evidence"@, "id"@) {
                            Err(f) => Some(f),
                            Ok(ev) => match crate::s4_r13::family_step(graph, "claims"@, "id"@) {
                                Err(f) => Some(f),
                                Ok(_) => match crate::s4_r13::family_step(graph, "diagnostics"@, "id"@) {
                                    Err(f) => Some(f),
                                    Ok(_) => match crate::s4_r13::family_step(graph, "coverage"@, "id"@) {
                                        Err(f) => Some(f),
                                        Ok(_) => crate::s4_r13::first_of(
                                            crate::s4_r13::relationships_fault(items("relationships"@), e, ev),
                                            crate::s4_r13::first_of(
                                                evidence_links_fault(items("entities"@), ev, "entities"@),
                                                crate::s4_r13::first_of(
                                                    stored_claims_fault(items("claims"@), e, r, ev),
                                                    crate::s4_r13::first_of(
                                                        crate::s4_r13::evidence_lists_fault(
                                                            items("diagnostics"@),
                                                            ev,
                                                            "diagnostics"@,
                                                        ),
                                                        crate::s4_r13::first_of(
                                                            crate::s4_r13::evidence_lists_fault(
                                                                items("coverage"@),
                                                                ev,
                                                                "coverage"@,
                                                            ),
                                                            local_flow_fault(
                                                                local_flow_index_outcome(
                                                                    graph,
                                                                    e,
                                                                    r,
                                                                    ev,
                                                                    profile.index_version@,
                                                                    profile.rule_version@,
                                                                    profile.max_relationships,
                                                                    profile.max_derivation_inputs,
                                                                ),
                                                                profile,
                                                            ),
                                                        ),
                                                    ),
                                                ),
                                            ),
                                        ),
                                    },
                                },
                            },
                        },
                    },
                }
            },
            None => Some(crate::s4_r13::PortableFault::InvalidSnapshot),
        }
    }
}

/// Validates a stored R15 semantic snapshot; the first failing check
/// decides the error ([`stored_r15_fault`]).
pub fn validate_stored_r15_semantic(semantic: &Json, versions: &SemanticVersionsV15, profile: &LocalFlowProfile) -> (r:
    Result<(), R15ContractError>)
    ensures
        r is Err ==> !(r->Err_0.fault() is Other),
        match stored_r15_fault(*semantic, *versions, *profile) {
            None => r is Ok,
            Some(f) => r is Err && r->Err_0.fault() == f,
        },
{
    let pipeline_ok = match semantic.get_str("pipeline_version") {
        Some(t) => text_eq(t, versions.pipeline.as_str()),
        None => false,
    };
    let ontology_ok = match semantic.get_str("ontology_version") {
        Some(t) => text_eq(t, versions.ontology.as_str()),
        None => false,
    };
    let configuration_ok = match crate::s4_r13::pointer_str(semantic, "configuration", "schema_version") {
        Some(t) => text_eq(t, versions.configuration.as_str()),
        None => false,
    };
    let profile_ok = match crate::s4_r13::pointer_str(semantic, "configuration", "rust_flow_profile") {
        Some(t) => text_eq(t, versions.flow_profile.as_str()),
        None => false,
    };
    let extractor_ok = match semantic.get_array("extractor_versions") {
        Some(items) => lists_text(items, versions.extractor.as_str()),
        None => false,
    };
    if !pipeline_ok || !ontology_ok || !configuration_ok || !profile_ok || !extractor_ok {
        return Err(R15ContractError::InvalidSnapshot);
    }
    let graph = match semantic.get("knowledge_graph") {
        Some(g) => g,
        None => return Err(R15ContractError::InvalidSnapshot),
    };
    if graph.as_object().is_none() {
        return Err(R15ContractError::InvalidSnapshot);
    }
    let schema_ok = match graph.get_str("schema_version") {
        Some(t) => text_eq(t, versions.graph.as_str()),
        None => false,
    };
    let graph_ontology_ok = match graph.get_str("ontology_version") {
        Some(t) => text_eq(t, versions.ontology.as_str()),
        None => false,
    };
    if !schema_ok || !graph_ontology_ok {
        return Err(R15ContractError::InvalidSnapshot);
    }
    let e = family_checked_v8(graph, "entities", "id")?;
    let r = family_checked_v8(graph, "relationships", "id")?;
    let ev = family_checked_v8(graph, "evidence", "id")?;
    family_checked_v8(graph, "claims", "id")?;
    family_checked_v8(graph, "diagnostics", "id")?;
    family_checked_v8(graph, "coverage", "id")?;
    let relationships = match graph.get_array("relationships") {
        Some(v) => v,
        None => return Err(R15ContractError::InvalidSnapshot),
    };
    r13_checked(crate::s4_r13::validate_relationship_references(relationships.as_slice(), e.as_slice(), ev.as_slice()))?;
    let entities = match graph.get_array("entities") {
        Some(v) => v,
        None => return Err(R15ContractError::InvalidSnapshot),
    };
    validate_evidence_links(entities.as_slice(), ev.as_slice(), "entities")?;
    let claims = match graph.get_array("claims") {
        Some(v) => v,
        None => return Err(R15ContractError::InvalidSnapshot),
    };
    stored_claims(claims.as_slice(), e.as_slice(), r.as_slice(), ev.as_slice())?;
    let diagnostics = match graph.get_array("diagnostics") {
        Some(v) => v,
        None => return Err(R15ContractError::InvalidSnapshot),
    };
    r13_checked(crate::s4_r13::validate_evidence_lists(diagnostics.as_slice(), ev.as_slice(), "diagnostics"))?;
    let coverage = match graph.get_array("coverage") {
        Some(v) => v,
        None => return Err(R15ContractError::InvalidSnapshot),
    };
    r13_checked(crate::s4_r13::validate_evidence_lists(coverage.as_slice(), ev.as_slice(), "coverage"))?;
    validate_portable_local_flow_index(graph, e.as_slice(), r.as_slice(), ev.as_slice(), profile)
}

} // verus!
