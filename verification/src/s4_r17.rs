//! R17 function-context contract rules: cardinality and output limits, the
//! declared display signature, privacy of the projected payload and the
//! safety of the offline explorer assets.
use vstd::prelude::*;
use crate::json::{
    as_bool, as_text, find_unsafe, first_finding, member, member_text, names_view, to_bytes,
    json_bytes, FindingView, Json,
};
use vstd::string::StringExecFns;
use crate::json::{as_items, at_path, entry, member_at, text_at, member_bool, member_count, member_items};
use crate::portable::{contains_text, texts, FaultView};
use crate::textset::{insert_text, sorted_texts};
use crate::text::{chars_contain_none, contains_none, ends_with, lowered_chars, lowered_text, patterns_view, text_starts_with, text_contains};
use crate::text::{
    blank, normalize_whitespace, normalized, text_is_blank,
    ascii_lower_text, chars_contains, chars_count_matches, chars_of, chars_starts_with, contains,
    count_matches, lower_ascii, push_char, starts_with, string_from_chars, text_eq, utf8_text,
};

verus! {

pub const R17_CONTEXT_PROFILE: &'static str = "rust-function-context-v1";
pub const R17_FUNCTION_CONTEXT_VERSION: &'static str = "codenoesis.function-context/v1";
pub const R17_LOCAL_EXPLORER_VERSION: &'static str = "codenoesis.local-explorer/v10";
pub const R17_EXPLORER_SECURITY_PROFILE: &'static str = "codenoesis.local-explorer-security/v10";
pub const R17_EXPLORER_MARKER: &'static str = ".codenoesis-local-explorer-v10";
pub const MAX_R17_CONTEXT_OUTPUT_BYTES: u64 = 4_194_304;
pub const MAX_R17_FUNCTION_PARAMETERS: u64 = 256;
pub const MAX_R17_LINKED_SUBJECTS: u64 = 256;
pub const MAX_R17_LINKED_RELATIONSHIPS: u64 = 512;
pub const MAX_R17_LINKED_CLAIMS: u64 = 2_048;
pub const MAX_R17_LINKED_EVIDENCE: u64 = 2_048;
pub const MAX_R17_UNCERTAINTY_RECORDS: u64 = 1_024;
pub const MAX_R17_FUNCTION_SEARCH_RESULTS: u64 = 100;
pub const MAX_R17_NAVIGATION_HISTORY: u64 = 128;

/// The observed cardinalities of one function context.
#[derive(Clone, Copy, Debug, Default, PartialEq, Eq)]
pub struct FunctionContextCounts {
    pub parameters: u64,
    pub linked_subjects: u64,
    pub linked_relationships: u64,
    pub linked_claims: u64,
    pub linked_evidence: u64,
    pub uncertainty_records: u64,
}

/// Why a function context could not be projected.
#[derive(Clone, Debug, PartialEq, Eq)]
pub enum FunctionContextError {
    InvalidSnapshot,
    NotFound,
    InvalidRootKind,
    MissingSignature,
    DuplicateSignature,
    InvalidRelationship,
    InvalidParameterOrdinal,
    DanglingReference(String),
    LimitExceeded { limit: &'static str, maximum: u64, observed: u64 },
    UnsafePayload(String),
    Serialization,
}

impl FunctionContextError {
    /// The human-readable message of the error.
    pub fn message(&self) -> (r: &'static str)
        ensures
            r@ == match self {
                FunctionContextError::InvalidSnapshot => "invalid R17 source snapshot"@,
                FunctionContextError::NotFound => "R17 function context root not found"@,
                FunctionContextError::InvalidRootKind => "invalid R17 function context root kind"@,
                FunctionContextError::MissingSignature => "R17 callable signature is missing"@,
                FunctionContextError::DuplicateSignature => "R17 callable signature is ambiguous"@,
                FunctionContextError::InvalidRelationship => "invalid R17 function context relationship"@,
                FunctionContextError::InvalidParameterOrdinal => "invalid R17 parameter ordinal"@,
                FunctionContextError::DanglingReference(_) => "dangling R17 function context reference"@,
                FunctionContextError::LimitExceeded { .. } => "R17 function context limit exceeded"@,
                FunctionContextError::UnsafePayload(_) => "unsafe R17 function context payload"@,
                FunctionContextError::Serialization => "R17 function context serialization failed"@,
            },
    {
        match self {
            FunctionContextError::InvalidSnapshot => "invalid R17 source snapshot",
            FunctionContextError::NotFound => "R17 function context root not found",
            FunctionContextError::InvalidRootKind => "invalid R17 function context root kind",
            FunctionContextError::MissingSignature => "R17 callable signature is missing",
            FunctionContextError::DuplicateSignature => "R17 callable signature is ambiguous",
            FunctionContextError::InvalidRelationship => "invalid R17 function context relationship",
            FunctionContextError::InvalidParameterOrdinal => "invalid R17 parameter ordinal",
            FunctionContextError::DanglingReference(_) => "dangling R17 function context reference",
            FunctionContextError::LimitExceeded { .. } => "R17 function context limit exceeded",
            FunctionContextError::UnsafePayload(_) => "unsafe R17 function context payload",
            FunctionContextError::Serialization => "R17 function context serialization failed",
        }
    }
}

/// `r` is the limit error for `limit`, `maximum` and `observed`.
pub open spec fn is_limit_error(
    r: Result<(), FunctionContextError>,
    limit: Seq<char>,
    maximum: u64,
    observed: u64,
) -> bool {
    r matches Err(FunctionContextError::LimitExceeded { limit: l, maximum: m, observed: o }) && l@
        == limit && m == maximum && o == observed
}

/// `observed` is accepted exactly when it is at most `maximum`.
pub fn enforce_limit(limit: &'static str, maximum: u64, observed: u64) -> (r: Result<
    (),
    FunctionContextError,
>)
    ensures
        r is Ok <==> observed <= maximum,
        r is Err ==> is_limit_error(r, limit@, maximum, observed),
{
    if observed > maximum {
        Err(FunctionContextError::LimitExceeded { limit, maximum, observed })
    } else {
        Ok(())
    }
}

/// A collection length as `u64`, saturating.
pub fn length(value: usize) -> (r: u64)
    ensures
        r == value,
{
    value as u64
}

/// Validates the bounded cardinalities of one function context: each count
/// is checked against its maximum in the order parameters, linked subjects,
/// relationships, claims, evidence, uncertainty records, and the first one
/// above its maximum is reported.
pub fn validate_function_context_limits(counts: FunctionContextCounts) -> (r: Result<
    (),
    FunctionContextError,
>)
    ensures
        r is Ok <==> {
            &&& counts.parameters <= MAX_R17_FUNCTION_PARAMETERS
            &&& counts.linked_subjects <= MAX_R17_LINKED_SUBJECTS
            &&& counts.linked_relationships <= MAX_R17_LINKED_RELATIONSHIPS
            &&& counts.linked_claims <= MAX_R17_LINKED_CLAIMS
            &&& counts.linked_evidence <= MAX_R17_LINKED_EVIDENCE
            &&& counts.uncertainty_records <= MAX_R17_UNCERTAINTY_RECORDS
        },
        counts.parameters > MAX_R17_FUNCTION_PARAMETERS ==> is_limit_error(
            r,
            "function_parameters"@,
            MAX_R17_FUNCTION_PARAMETERS,
            counts.parameters,
        ),
        counts.parameters <= MAX_R17_FUNCTION_PARAMETERS && counts.linked_subjects
            > MAX_R17_LINKED_SUBJECTS ==> is_limit_error(
            r,
            "linked_subjects"@,
            MAX_R17_LINKED_SUBJECTS,
            counts.linked_subjects,
        ),
        counts.parameters <= MAX_R17_FUNCTION_PARAMETERS && counts.linked_subjects
            <= MAX_R17_LINKED_SUBJECTS && counts.linked_relationships > MAX_R17_LINKED_RELATIONSHIPS
            ==> is_limit_error(
            r,
            "linked_relationships"@,
            MAX_R17_LINKED_RELATIONSHIPS,
            counts.linked_relationships,
        ),
        counts.parameters <= MAX_R17_FUNCTION_PARAMETERS && counts.linked_subjects
            <= MAX_R17_LINKED_SUBJECTS && counts.linked_relationships <= MAX_R17_LINKED_RELATIONSHIPS
            && counts.linked_claims > MAX_R17_LINKED_CLAIMS ==> is_limit_error(
            r,
            "linked_claims"@,
            MAX_R17_LINKED_CLAIMS,
            counts.linked_claims,
        ),
        counts.parameters <= MAX_R17_FUNCTION_PARAMETERS && counts.linked_subjects
            <= MAX_R17_LINKED_SUBJECTS && counts.linked_relationships <= MAX_R17_LINKED_RELATIONSHIPS
            && counts.linked_claims <= MAX_R17_LINKED_CLAIMS && counts.linked_evidence
            > MAX_R17_LINKED_EVIDENCE ==> is_limit_error(
            r,
            "linked_evidence"@,
            MAX_R17_LINKED_EVIDENCE,
            counts.linked_evidence,
        ),
        counts.parameters <= MAX_R17_FUNCTION_PARAMETERS && counts.linked_subjects
            <= MAX_R17_LINKED_SUBJECTS && counts.linked_relationships <= MAX_R17_LINKED_RELATIONSHIPS
            && counts.linked_claims <= MAX_R17_LINKED_CLAIMS && counts.linked_evidence
            <= MAX_R17_LINKED_EVIDENCE && counts.uncertainty_records > MAX_R17_UNCERTAINTY_RECORDS
            ==> is_limit_error(
            r,
            "uncertainty_records"@,
            MAX_R17_UNCERTAINTY_RECORDS,
            counts.uncertainty_records,
        ),
{
    enforce_limit("function_parameters", MAX_R17_FUNCTION_PARAMETERS, counts.parameters)?;
    enforce_limit("linked_subjects", MAX_R17_LINKED_SUBJECTS, counts.linked_subjects)?;
    enforce_limit(
        "linked_relationships",
        MAX_R17_LINKED_RELATIONSHIPS,
        counts.linked_relationships,
    )?;
    enforce_limit("linked_claims", MAX_R17_LINKED_CLAIMS, counts.linked_claims)?;
    enforce_limit("linked_evidence", MAX_R17_LINKED_EVIDENCE, counts.linked_evidence)?;
    enforce_limit("uncertainty_records", MAX_R17_UNCERTAINTY_RECORDS, counts.uncertainty_records)
}

/// Validates the canonical context output size, its trailing LF included:
/// at most [`MAX_R17_CONTEXT_OUTPUT_BYTES`].
pub fn validate_function_context_output_bytes(observed: u64) -> (r: Result<(), FunctionContextError>)
    ensures
        r is Ok <==> observed <= MAX_R17_CONTEXT_OUTPUT_BYTES,
        r is Err ==> is_limit_error(
            r,
            "context_output_bytes_including_lf"@,
            MAX_R17_CONTEXT_OUTPUT_BYTES,
            observed,
        ),
{
    enforce_limit("context_output_bytes_including_lf", MAX_R17_CONTEXT_OUTPUT_BYTES, observed)
}

/// The non-empty text under `field`.
pub open spec fn required_text(value: Json, field: Seq<char>) -> Option<Seq<char>> {
    match member_text(value, field) {
        Some(t) => if t.len() > 0 {
            Some(t)
        } else {
            None
        },
        None => None,
    }
}

/// The non-empty string under `field`; anything else is an invalid snapshot.
pub fn required_string<'a>(value: &'a Json, field: &str) -> (r: Result<&'a str, FunctionContextError>)
    ensures
        match required_text(*value, field@) {
            Some(t) => r matches Ok(s) && s@ == t,
            None => r matches Err(FunctionContextError::InvalidSnapshot),
        },
{
    match value.get_str(field) {
        Some(t) => if t.is_empty() {
            Err(FunctionContextError::InvalidSnapshot)
        } else {
            Ok(t)
        },
        None => Err(FunctionContextError::InvalidSnapshot),
    }
}

/// The `target` of a relationship.
pub fn relationship_target(value: &Json) -> (r: Result<&str, FunctionContextError>)
    ensures
        match required_text(*value, "target"@) {
            Some(t) => r matches Ok(s) && s@ == t,
            None => r matches Err(FunctionContextError::InvalidSnapshot),
        },
{
    required_string(value, "target")
}

/// An optional text: absent or `null` is none, a string that is not blank
/// is that text, anything else is an error.
pub open spec fn optional_text(value: Option<Json>) -> Result<Option<Seq<char>>, ()> {
    match value {
        None => Ok(None),
        Some(Json::Null) => Ok(None),
        Some(Json::Str(s)) => if blank(s@) {
            Err(())
        } else {
            Ok(Some(s@))
        },
        Some(_) => Err(()),
    }
}

/// The value behind an optional reference.
pub open spec fn deref_opt(value: Option<&Json>) -> Option<Json> {
    match value {
        Some(v) => Some(*v),
        None => None,
    }
}

/// Reads an optional text ([`optional_text`]).
pub fn optional_non_empty_string(value: Option<&Json>) -> (r: Result<Option<&str>, FunctionContextError>)
    ensures
        match optional_text(deref_opt(value)) {
            Ok(Some(t)) => r matches Ok(Some(s)) && s@ == t,
            Ok(None) => r matches Ok(None),
            Err(()) => r matches Err(FunctionContextError::InvalidSnapshot),
        },
{
    match value {
        None => Ok(None),
        Some(Json::Null) => Ok(None),
        Some(Json::Str(s)) => if text_is_blank(s.as_str()) {
            Err(FunctionContextError::InvalidSnapshot)
        } else {
            Ok(Some(s.as_str()))
        },
        Some(_) => Err(FunctionContextError::InvalidSnapshot),
    }
}

/// The words of `value` joined by single spaces ([`normalized`]).
pub fn normalized_component(value: &str) -> (r: String)
    ensures
        r@ == normalized(value@),
{
    normalize_whitespace(value)
}

/// The declared signature card of the callable, when it is not blank.
pub open spec fn declared_signature(root: Json) -> Option<Seq<char>> {
    match member(root, "properties"@) {
        Some(p) => match member_text(p, "declared_signature"@) {
            Some(t) => if blank(t) {
                None
            } else {
                Some(t)
            },
            None => None,
        },
        None => None,
    }
}

/// The visibility qualifier that opens a displayed signature.
pub open spec fn visibility_prefix(visibility: Option<Seq<char>>) -> Option<Seq<char>> {
    match visibility {
        Some(v) => if v == "public"@ {
            Some("pub "@)
        } else if v == "crate"@ {
            Some("pub(crate) "@)
        } else if v == "restricted"@ {
            Some("pub(…) "@)
        } else if v == "private"@ || v == "inherited_trait"@ || v == "not_applicable"@ {
            Some(Seq::empty())
        } else {
            None
        },
        None => None,
    }
}

/// `keyword` when the flag under `field` is true, nothing when it is false.
pub open spec fn keyword_if(properties: Json, field: Seq<char>, keyword: Seq<char>) -> Option<
    Seq<char>,
> {
    match member_bool(properties, field) {
        Some(true) => Some(keyword),
        Some(false) => Some(Seq::empty()),
        None => None,
    }
}

/// The normalized optional text under `field`, between `before` and `after`.
pub open spec fn optional_part(
    properties: Json,
    field: Seq<char>,
    before: Seq<char>,
    after: Seq<char>,
) -> Option<Seq<char>> {
    match optional_text(member(properties, field)) {
        Err(()) => None,
        Ok(None) => Some(Seq::empty()),
        Ok(Some(t)) => Some(before + normalized(t) + after),
    }
}

/// One displayed parameter: its pattern and, when declared, its type.
pub open spec fn parameter_text(parameter: Json) -> Option<Seq<char>> {
    let properties = member(parameter, "properties"@);
    let pattern = match properties {
        Some(q) => member_text(q, "pattern"@),
        None => None,
    };
    let declared = match properties {
        Some(q) => member(q, "declared_type"@),
        None => None,
    };
    match pattern {
        Some(t) => if blank(t) {
            None
        } else {
            match optional_text(declared) {
                Err(()) => None,
                Ok(None) => Some(normalized(t)),
                Ok(Some(d)) => Some(normalized(t) + ": "@ + normalized(d)),
            }
        },
        None => None,
    }
}

/// The displayed parameters, separated by `, `.
pub open spec fn parameters_text(parameters: Seq<Json>) -> Option<Seq<char>>
    decreases parameters.len(),
{
    if parameters.len() == 0 {
        Some(Seq::empty())
    } else {
        match (parameters_text(parameters.drop_last()), parameter_text(parameters.last())) {
            (Some(a), Some(b)) => Some(
                if parameters.len() == 1 {
                    b
                } else {
                    a + ", "@ + b
                },
            ),
            _ => None,
        }
    }
}

/// The displayed return: ` -> T` when declared, nothing for the unit
/// default (which must not name a type).
pub open spec fn return_part(properties: Json) -> Option<Seq<char>> {
    match member_text(properties, "return_state"@) {
        Some(state) => if state == "declared"@ {
            match optional_text(member(properties, "return_type"@)) {
                Ok(Some(t)) => Some(" -> "@ + normalized(t)),
                _ => None,
            }
        } else if state == "unit_default"@ {
            match member(properties, "return_type"@) {
                None => Some(Seq::empty()),
                Some(Json::Null) => Some(Seq::empty()),
                Some(_) => None,
            }
        } else {
            None
        },
        None => None,
    }
}

/// The signature assembled from the declared facts of the signature record.
pub open spec fn assembled_signature(root: Json, properties: Json, parameters: Seq<Json>) -> Option<
    Seq<char>,
> {
    let visibility = visibility_prefix(member_text(properties, "visibility"@));
    let constness = keyword_if(properties, "const"@, "const "@);
    let asyncness = keyword_if(properties, "async"@, "async "@);
    let unsafety = keyword_if(properties, "unsafe"@, "unsafe "@);
    let abi = optional_part(properties, "abi"@, "extern \""@, "\" "@);
    let name = required_text(root, "name"@);
    let generics = optional_part(properties, "generic_parameters"@, Seq::empty(), Seq::empty());
    let params = parameters_text(parameters);
    let result_type = return_part(properties);
    let where_clause = optional_part(properties, "where_clause"@, " "@, Seq::empty());
    if visibility is Some && constness is Some && asyncness is Some && unsafety is Some && abi is Some
        && name is Some && generics is Some && params is Some && result_type is Some && where_clause is Some {
        Some(
            visibility->Some_0 + constness->Some_0 + asyncness->Some_0 + unsafety->Some_0
                + abi->Some_0 + "fn "@ + name->Some_0 + generics->Some_0 + "("@ + params->Some_0
                + ")"@ + result_type->Some_0 + where_clause->Some_0,
        )
    } else {
        None
    }
}

/// The displayed signature of a callable: its declared signature card when
/// it has one, otherwise the signature assembled from declared facts only.
pub open spec fn signature_text(root: Json, signature: Json, parameters: Seq<Json>) -> Option<Seq<char>> {
    match declared_signature(root) {
        Some(d) => Some(normalized(d)),
        None => match member(signature, "properties"@) {
            Some(properties) => if properties is Object {
                assembled_signature(root, properties, parameters)
            } else {
                None
            },
            None => None,
        },
    }
}

fn append_keyword(out: &mut String, properties: &Json, field: &str, keyword: &str) -> (r: Result<
    (),
    FunctionContextError,
>)
    ensures
        match keyword_if(*properties, field@, keyword@) {
            Some(k) => r is Ok && final(out)@ == old(out)@ + k,
            None => r matches Err(FunctionContextError::InvalidSnapshot),
        },
{
    match properties.get_bool(field) {
        Some(true) => {
            out.append(keyword);
            Ok(())
        },
        Some(false) => {
            assert(old(out)@ + Seq::<char>::empty() =~= old(out)@);
            Ok(())
        },
        None => Err(FunctionContextError::InvalidSnapshot),
    }
}

fn append_optional(
    out: &mut String,
    properties: &Json,
    field: &str,
    before: &str,
    after: &str,
) -> (r: Result<(), FunctionContextError>)
    ensures
        match optional_part(*properties, field@, before@, after@) {
            Some(k) => r is Ok && final(out)@ == old(out)@ + k,
            None => r matches Err(FunctionContextError::InvalidSnapshot),
        },
{
    match optional_non_empty_string(properties.get(field))? {
        Some(t) => {
            out.append(before);
            let n = normalized_component(t);
            out.append(n.as_str());
            out.append(after);
            assert(old(out)@ + before@ + n@ + after@ =~= old(out)@ + (before@ + n@ + after@));
            Ok(())
        },
        None => {
            assert(old(out)@ + Seq::<char>::empty() =~= old(out)@);
            Ok(())
        },
    }
}

fn append_parameter(out: &mut String, parameter: &Json) -> (r: Result<(), FunctionContextError>)
    ensures
        match parameter_text(*parameter) {
            Some(k) => r is Ok && final(out)@ == old(out)@ + k,
            None => r matches Err(FunctionContextError::InvalidSnapshot),
        },
{
    let properties = parameter.get("properties");
    let pattern = match properties {
        Some(q) => q.get_str("pattern"),
        None => None,
    };
    let pattern = match pattern {
        Some(t) => t,
        None => return Err(FunctionContextError::InvalidSnapshot),
    };
    if text_is_blank(pattern) {
        return Err(FunctionContextError::InvalidSnapshot);
    }
    let declared = match properties {
        Some(q) => q.get("declared_type"),
        None => None,
    };
    let declared = optional_non_empty_string(declared)?;
    let n = normalized_component(pattern);
    out.append(n.as_str());
    match declared {
        Some(d) => {
            out.append(": ");
            let m = normalized_component(d);
            out.append(m.as_str());
            assert(old(out)@ + n@ + ": "@ + m@ =~= old(out)@ + (n@ + ": "@ + m@));
        },
        None => {},
    }
    Ok(())
}

/// The displayed signature of a callable ([`signature_text`]).
#[verifier::spinoff_prover]
#[verifier::rlimit(60)]
pub fn display_signature(root: &Json, signature: &Json, parameters: &[Json]) -> (r: Result<
    String,
    FunctionContextError,
>)
    ensures
        match signature_text(*root, *signature, parameters@) {
            Some(t) => r matches Ok(s) && s@ == t,
            None => r matches Err(FunctionContextError::InvalidSnapshot),
        },
{
    let card = match root.get("properties") {
        Some(p) => p.get_str("declared_signature"),
        None => None,
    };
    match card {
        Some(value) => if !text_is_blank(value) {
            return Ok(normalized_component(value));
        },
        None => {},
    }
    let properties = match signature.get("properties") {
        Some(p) => p,
        None => return Err(FunctionContextError::InvalidSnapshot),
    };
    if properties.as_object().is_none() {
        return Err(FunctionContextError::InvalidSnapshot);
    }
    let visibility = match properties.get_str("visibility") {
        Some(v) => v,
        None => return Err(FunctionContextError::InvalidSnapshot),
    };
    let mut value = if text_eq(visibility, "public") {
        "pub ".to_owned()
    } else if text_eq(visibility, "crate") {
        "pub(crate) ".to_owned()
    } else if text_eq(visibility, "restricted") {
        "pub(…) ".to_owned()
    } else if text_eq(visibility, "private") || text_eq(visibility, "inherited_trait") || text_eq(
        visibility,
        "not_applicable",
    ) {
        String::new()
    } else {
        return Err(FunctionContextError::InvalidSnapshot);
    };
    let ghost v0 = value@;
    append_keyword(&mut value, properties, "const", "const ")?;
    let ghost v1 = value@;
    append_keyword(&mut value, properties, "async", "async ")?;
    let ghost v2 = value@;
    append_keyword(&mut value, properties, "unsafe", "unsafe ")?;
    let ghost v3 = value@;
    append_optional(&mut value, properties, "abi", "extern \"", "\" ")?;
    let ghost v4 = value@;
    value.append("fn ");
    let name = required_string(root, "name")?;
    value.append(name);
    let ghost v5 = value@;
    append_optional(&mut value, properties, "generic_parameters", "", "")?;
    let ghost v6 = value@;
    value.append("(");
    let ghost v7 = value@;
    let mut index: usize = 0;
    while index < parameters.len()
        invariant
            index <= parameters.len(),
            declared_signature(*root) is None,
            member(*signature, "properties"@) == Some(*properties),
            *properties is Object,
            parameters_text(parameters@.take(index as int)) is Some,
            value@ == v7 + parameters_text(parameters@.take(index as int))->Some_0,
        decreases parameters.len() - index,
    {
        proof {
            assert(parameters@.take(index + 1).drop_last() =~= parameters@.take(index as int));
            assert(parameters@.take(index + 1).last() == parameters@[index as int]);
        }
        let ghost before = value@;
        if index != 0 {
            value.append(", ");
        }
        let ghost separated = value@;
        match append_parameter(&mut value, &parameters[index]) {
            Ok(()) => {},
            Err(e) => {
                proof {
                    assert(parameter_text(parameters@[index as int]) is None);
                    assert(parameters_text(parameters@.take(index + 1)) is None);
                    lemma_parameters_text_prefix(parameters@, (index + 1) as int);
                }
                return Err(e);
            },
        }
        proof {
            let a = parameters_text(parameters@.take(index as int))->Some_0;
            let b = parameter_text(parameters@[index as int])->Some_0;
            if index == 0 {
                assert(a =~= Seq::<char>::empty());
                assert(value@ =~= v7 + b);
            } else {
                assert(value@ =~= v7 + (a + ", "@ + b));
            }
        }
        index += 1;
    }
    proof {
        assert(parameters@.take(index as int) =~= parameters@);
    }
    let ghost v8 = value@;
    value.append(")");
    let ghost v9 = value@;
    let state = match properties.get_str("return_state") {
        Some(s) => s,
        None => return Err(FunctionContextError::InvalidSnapshot),
    };
    if text_eq(state, "declared") {
        let return_type = match optional_non_empty_string(properties.get("return_type"))? {
            Some(t) => t,
            None => return Err(FunctionContextError::InvalidSnapshot),
        };
        value.append(" -> ");
        let n = normalized_component(return_type);
        value.append(n.as_str());
        assert(v9 + " -> "@ + n@ =~= v9 + (" -> "@ + n@));
    } else if text_eq(state, "unit_default") {
        match properties.get("return_type") {
            None => {},
            Some(t) => if !t.is_null() {
                return Err(FunctionContextError::InvalidSnapshot);
            },
        }
        assert(v9 + Seq::<char>::empty() =~= v9);
    } else {
        return Err(FunctionContextError::InvalidSnapshot);
    }
    let ghost v10 = value@;
    append_optional(&mut value, properties, "where_clause", " ", "")?;
    proof {
        assert(declared_signature(*root) is None);
        let text = assembled_signature(*root, *properties, parameters@);
        reveal_strlit("");
        assert(""@ =~= Seq::<char>::empty());
        let vis = visibility_prefix(member_text(*properties, "visibility"@))->Some_0;
        let c = keyword_if(*properties, "const"@, "const "@)->Some_0;
        let a = keyword_if(*properties, "async"@, "async "@)->Some_0;
        let u = keyword_if(*properties, "unsafe"@, "unsafe "@)->Some_0;
        let abi = optional_part(*properties, "abi"@, "extern \""@, "\" "@)->Some_0;
        let name = required_text(*root, "name"@)->Some_0;
        let generics = optional_part(*properties, "generic_parameters"@, Seq::empty(), Seq::empty())->Some_0;
        let params = parameters_text(parameters@)->Some_0;
        let ret = return_part(*properties)->Some_0;
        let wh = optional_part(*properties, "where_clause"@, " "@, Seq::empty())->Some_0;
        assert(v0 == vis);
        assert(v1 == vis + c);
        assert(v2 == vis + c + a);
        assert(v3 == vis + c + a + u);
        assert(v4 == vis + c + a + u + abi);
        assert(v5 == vis + c + a + u + abi + "fn "@ + name);
        assert(v6 == vis + c + a + u + abi + "fn "@ + name + generics);
        assert(v7 == vis + c + a + u + abi + "fn "@ + name + generics + "("@);
        assert(v8 == vis + c + a + u + abi + "fn "@ + name + generics + "("@ + params);
        assert(v9 == vis + c + a + u + abi + "fn "@ + name + generics + "("@ + params + ")"@);
        assert(v10 == vis + c + a + u + abi + "fn "@ + name + generics + "("@ + params + ")"@ + ret);
        assert(value@ == vis + c + a + u + abi + "fn "@ + name + generics + "("@ + params + ")"@ + ret
            + wh);
        assert(text is Some);
    }
    Ok(value)
}

/// A missing parameter in a prefix is missing in the whole.
proof fn lemma_parameters_text_prefix(parameters: Seq<Json>, n: int)
    requires
        0 <= n <= parameters.len(),
        parameters_text(parameters.take(n)) is None,
    ensures
        parameters_text(parameters) is None,
    decreases parameters.len() - n,
{
    if n < parameters.len() {
        assert(parameters.take(n + 1).drop_last() =~= parameters.take(n));
        lemma_parameters_text_prefix(parameters, n + 1);
    } else {
        assert(parameters.take(n) =~= parameters);
    }
}

/// Member names that a function context never holds.
pub open spec fn r17_private_fields() -> Seq<Seq<char>> {
    seq![
        "absolute_path"@,
        "absolute_root"@,
        "argument"@,
        "arguments"@,
        "body_text"@,
        "condition_text"@,
        "credential"@,
        "credentials"@,
        "environment"@,
        "expression_text"@,
        "initializer_text"@,
        "literal_lexeme"@,
        "literal_text"@,
        "model_data"@,
        "raw_url"@,
        "repository_root"@,
        "source_contents"@,
        "source_snippet"@,
        "telemetry"@,
        "url"@,
        "body_source"@,
        "condition_source"@,
        "expression_source"@,
        "initializer_source"@,
    ]
}

/// A function context is accepted exactly when it holds no private member
/// name and no string with `://`; the error names the first finding of an
/// in-order walk (the member name, or `url`).
pub fn validate_private_fields(value: &Json) -> (r: Result<(), FunctionContextError>)
    ensures
        match first_finding(*value, r17_private_fields(), true) {
            None => r is Ok,
            Some(FindingView::DeniedField(name)) => r matches Err(
                FunctionContextError::UnsafePayload(s),
            ) && s@ == name,
            Some(FindingView::Url) => r matches Err(FunctionContextError::UnsafePayload(s)) && s@
                == "url"@,
        },
{
    let denied = [
        "absolute_path",
        "absolute_root",
        "argument",
        "arguments",
        "body_text",
        "condition_text",
        "credential",
        "credentials",
        "environment",
        "expression_text",
        "initializer_text",
        "literal_lexeme",
        "literal_text",
        "model_data",
        "raw_url",
        "repository_root",
        "source_contents",
        "source_snippet",
        "telemetry",
        "url",
        "body_source",
        "condition_source",
        "expression_source",
        "initializer_source",
    ];
    assert(names_view(denied@) =~= r17_private_fields());
    match find_unsafe(value, &denied, true) {
        None => Ok(()),
        Some(crate::json::Finding::DeniedField(name)) => Err(FunctionContextError::UnsafePayload(name)),
        Some(crate::json::Finding::Url) => Err(FunctionContextError::UnsafePayload("url".to_owned())),
    }
}

/// The `id` of a record.
pub fn record_id(value: &Json) -> (r: Option<&str>)
    ensures
        match r {
            Some(t) => member_text(*value, "id"@) == Some(t@),
            None => member_text(*value, "id"@) is None,
        },
{
    value.get_str("id")
}

/// What the offline viewer never holds, ASCII-lowercased: remote
/// addresses, network and storage access, and dynamic code.
pub open spec fn r17_viewer_forbidden() -> Seq<Seq<char>> {
    seq![
        "http://"@,
        "https://"@,
        "<script src"@,
        "fetch("@,
        "xmlhttprequest"@,
        "websocket"@,
        "eval("@,
        "new function"@,
        "import("@,
        "javascript:"@,
        ".innerhtml"@,
        "document.write"@,
        "localstorage"@,
        "sessionstorage"@,
        "indexeddb"@,
        "document.cookie"@,
        "navigator.clipboard"@,
    ]
}

/// The viewer is UTF-8 and its lowercased text holds exactly one `<script`
/// opening, one `</script>` closing, and none of [`r17_viewer_forbidden`].
pub open spec fn r17_safe_viewer_rule(bytes: Seq<u8>) -> bool {
    &&& vstd::utf8::valid_utf8(bytes)
    &&& count_matches(lowered_text(bytes), "<script"@) == 1
    &&& count_matches(lowered_text(bytes), "</script>"@) == 1
    &&& contains_none(lowered_text(bytes), r17_viewer_forbidden())
}

/// Whether the viewer bytes are safe to ship ([`r17_safe_viewer_rule`]).
pub fn safe_viewer(bytes: &[u8]) -> (r: bool)
    ensures
        r == r17_safe_viewer_rule(bytes@),
{
    let forbidden = [
        "http://",
        "https://",
        "<script src",
        "fetch(",
        "xmlhttprequest",
        "websocket",
        "eval(",
        "new function",
        "import(",
        "javascript:",
        ".innerhtml",
        "document.write",
        "localstorage",
        "sessionstorage",
        "indexeddb",
        "document.cookie",
        "navigator.clipboard",
    ];
    assert(patterns_view(forbidden@) =~= r17_viewer_forbidden());
    let lower = match lowered_chars(bytes) {
        Some(t) => t,
        None => return false,
    };
    crate::text::count_text(lower.as_slice(), "<script") == 1 && crate::text::count_text(
        lower.as_slice(),
        "</script>",
    ) == 1 && chars_contain_none(lower.as_slice(), &forbidden)
}

/// The content security policy denies every source by default and every
/// connection, worker, object, frame and form target, and allows no remote
/// scheme, inline script or `eval`.
pub open spec fn safe_csp_rule(value: Seq<char>) -> bool {
    &&& starts_with(value, "default-src 'none';"@)
    &&& contains(value, "connect-src 'none'"@)
    &&& contains(value, "worker-src 'none'"@)
    &&& contains(value, "object-src 'none'"@)
    &&& contains(value, "frame-src 'none'"@)
    &&& contains(value, "form-action 'none'"@)
    &&& !contains(value, "http:"@)
    &&& !contains(value, "https:"@)
    &&& !contains(value, "unsafe-inline"@)
    &&& !contains(value, "unsafe-eval"@)
}

/// Whether the content security policy is safe ([`safe_csp_rule`]).
pub fn safe_content_security_policy(value: &str) -> (r: bool)
    ensures
        r == safe_csp_rule(value@),
{
    text_starts_with(value, "default-src 'none';") && text_contains(value, "connect-src 'none'")
        && text_contains(value, "worker-src 'none'") && text_contains(value, "object-src 'none'")
        && text_contains(value, "frame-src 'none'") && text_contains(value, "form-action 'none'")
        && !text_contains(value, "http:") && !text_contains(value, "https:") && !text_contains(
        value,
        "unsafe-inline",
    ) && !text_contains(value, "unsafe-eval")
}

/// A string somewhere in `j` (object member names aside) names a selected
/// entity or relationship.
pub open spec fn mentions_selected(j: Json, entities: Seq<Seq<char>>, relationships: Seq<Seq<char>>) -> bool
    decreases j, 0nat,
{
    match j {
        Json::Str(s) => entities.contains(s@) || relationships.contains(s@),
        Json::Array(items) => items_mention_selected(items@, entities, relationships),
        Json::Object(fields) => fields_mention_selected(fields@, entities, relationships),
        _ => false,
    }
}

/// Some item mentions a selected identifier.
pub open spec fn items_mention_selected(
    items: Seq<Json>,
    entities: Seq<Seq<char>>,
    relationships: Seq<Seq<char>>,
) -> bool
    decreases items, 1nat,
{
    items.len() > 0 && (mentions_selected(items[0], entities, relationships)
        || items_mention_selected(items.drop_first(), entities, relationships))
}

/// Some member value mentions a selected identifier.
pub open spec fn fields_mention_selected(
    fields: Seq<(String, Json)>,
    entities: Seq<Seq<char>>,
    relationships: Seq<Seq<char>>,
) -> bool
    decreases fields, 1nat,
{
    fields.len() > 0 && (mentions_selected(fields[0].1, entities, relationships)
        || fields_mention_selected(fields.drop_first(), entities, relationships))
}

/// Whether a string anywhere in `value` names a selected entity or
/// relationship ([`mentions_selected`]).
pub fn contains_selected_reference(value: &Json, entity_ids: &[String], relationship_ids: &[String]) -> (r:
    bool)
    ensures
        r == mentions_selected(*value, texts(entity_ids@), texts(relationship_ids@)),
    decreases value,
{
    let ghost es = texts(entity_ids@);
    let ghost rs = texts(relationship_ids@);
    match value {
        Json::Str(s) => contains_text(entity_ids, s.as_str()) || contains_text(
            relationship_ids,
            s.as_str(),
        ),
        Json::Array(items) => {
            let mut i: usize = 0;
            assert(items@.skip(0) =~= items@);
            while i < items.len()
                invariant
                    i <= items.len(),
                    *value == Json::Array(*items),
                    es == texts(entity_ids@),
                    rs == texts(relationship_ids@),
                    items_mention_selected(items@, es, rs) == items_mention_selected(
                        items@.skip(i as int),
                        es,
                        rs,
                    ),
                decreases items.len() - i,
            {
                assert(items@.skip(i as int)[0] == items@[i as int]);
                assert(items@.skip(i as int).drop_first() =~= items@.skip(i + 1));
                proof {
                    assert(decreases_to!(*value => value->Array_0));
                    assert(decreases_to!(*items => items@));
                    assert(decreases_to!(items@ => items@[i as int]));
                }
                if contains_selected_reference(&items[i], entity_ids, relationship_ids) {
                    return true;
                }
                i += 1;
            }
            false
        },
        Json::Object(fields) => {
            let mut i: usize = 0;
            assert(fields@.skip(0) =~= fields@);
            while i < fields.len()
                invariant
                    i <= fields.len(),
                    *value == Json::Object(*fields),
                    es == texts(entity_ids@),
                    rs == texts(relationship_ids@),
                    fields_mention_selected(fields@, es, rs) == fields_mention_selected(
                        fields@.skip(i as int),
                        es,
                        rs,
                    ),
                decreases fields.len() - i,
            {
                assert(fields@.skip(i as int)[0] == fields@[i as int]);
                assert(fields@.skip(i as int).drop_first() =~= fields@.skip(i + 1));
                proof {
                    assert(decreases_to!(*value => value->Object_0));
                    assert(decreases_to!(*fields => fields@));
                    assert(decreases_to!(fields@ => fields@[i as int]));
                    assert(decreases_to!(fields@[i as int] => fields@[i as int].1));
                }
                if contains_selected_reference(&fields[i].1, entity_ids, relationship_ids) {
                    return true;
                }
                i += 1;
            }
            false
        },
        _ => false,
    }
}

/// The first claim, left to right, whose subject is missing
/// (`Malformed`) or names no selected entity or relationship of its kind
/// (`Offending`).
pub open spec fn claim_subjects_fault(
    claims: Seq<Json>,
    entities: Seq<Seq<char>>,
    relationships: Seq<Seq<char>>,
) -> Option<FaultView>
    decreases claims.len(),
{
    if claims.len() == 0 {
        None
    } else {
        match (required_text(claims[0], "subject_id"@), required_text(claims[0], "subject_kind"@)) {
            (Some(id), Some(kind)) => if (kind == "entity"@ && entities.contains(id)) || (kind
                == "relationship"@ && relationships.contains(id)) {
                claim_subjects_fault(claims.drop_first(), entities, relationships)
            } else {
                Some(FaultView::Offending(id))
            },
            _ => Some(FaultView::Malformed),
        }
    }
}

/// Every claim is about a selected entity or relationship
/// ([`claim_subjects_fault`]).
pub fn validate_claim_subjects(claims: &[Json], entity_ids: &[String], relationship_ids: &[String]) -> (r:
    Result<(), FunctionContextError>)
    ensures
        match claim_subjects_fault(claims@, texts(entity_ids@), texts(relationship_ids@)) {
            None => r is Ok,
            Some(FaultView::Malformed) => r matches Err(FunctionContextError::InvalidSnapshot),
            Some(FaultView::Offending(_)) => r matches Err(FunctionContextError::InvalidRelationship),
        },
{
    let ghost es = texts(entity_ids@);
    let ghost rs = texts(relationship_ids@);
    let mut i: usize = 0;
    assert(claims@.skip(0) =~= claims@);
    while i < claims.len()
        invariant
            i <= claims.len(),
            es == texts(entity_ids@),
            rs == texts(relationship_ids@),
            claim_subjects_fault(claims@, es, rs) == claim_subjects_fault(claims@.skip(i as int), es, rs),
        decreases claims.len() - i,
    {
        assert(claims@.skip(i as int)[0] == claims@[i as int]);
        assert(claims@.skip(i as int).drop_first() =~= claims@.skip(i + 1));
        let subject_id = match required_string(&claims[i], "subject_id") {
            Ok(t) => t,
            Err(e) => return Err(e),
        };
        let kind = match required_string(&claims[i], "subject_kind") {
            Ok(t) => t,
            Err(e) => return Err(e),
        };
        let valid = if text_eq(kind, "entity") {
            contains_text(entity_ids, subject_id)
        } else if text_eq(kind, "relationship") {
            contains_text(relationship_ids, subject_id)
        } else {
            false
        };
        if !valid {
            proof {
                reveal_strlit("entity");
                reveal_strlit("relationship");
                assert("entity"@ != "relationship"@);
            }
            return Err(FunctionContextError::InvalidRelationship);
        }
        i += 1;
    }
    Ok(())
}

/// The summary of a call between two callables: the relationship, both ends
/// (identifier, kind, name) and the state `proven_unique_local`, as an
/// object whose members are in key order.
pub fn call_summary(relationship: &Json, source: &Json, target: &Json) -> (r: Result<
    Json,
    FunctionContextError,
>)
    ensures
        match (
            required_text(*relationship, "id"@),
            required_text(*source, "id"@),
            required_text(*source, "kind"@),
            required_text(*source, "name"@),
            required_text(*target, "id"@),
            required_text(*target, "kind"@),
            required_text(*target, "name"@),
        ) {
            (Some(rid), Some(sid), Some(skind), Some(sname), Some(tid), Some(tkind), Some(tname)) => {
                &&& r is Ok
                &&& member_count(r->Ok_0) == 8
                &&& text_at(r->Ok_0, seq![(0int, "relationship_id"@)]) == Some(rid)
                &&& member_text(r->Ok_0, "relationship_id"@) == Some(rid)
                &&& text_at(r->Ok_0, seq![(1int, "source_id"@)]) == Some(sid)
                &&& text_at(r->Ok_0, seq![(2int, "source_kind"@)]) == Some(skind)
                &&& text_at(r->Ok_0, seq![(3int, "source_name"@)]) == Some(sname)
                &&& text_at(r->Ok_0, seq![(4int, "state"@)]) == Some("proven_unique_local"@)
                &&& text_at(r->Ok_0, seq![(5int, "target_id"@)]) == Some(tid)
                &&& text_at(r->Ok_0, seq![(6int, "target_kind"@)]) == Some(tkind)
                &&& text_at(r->Ok_0, seq![(7int, "target_name"@)]) == Some(tname)
            },
            _ => r matches Err(FunctionContextError::InvalidSnapshot),
        },
{
    let relationship_id = required_string(relationship, "id")?;
    let source_id = required_string(source, "id")?;
    let source_kind = required_string(source, "kind")?;
    let source_name = required_string(source, "name")?;
    let target_id = required_string(target, "id")?;
    let target_kind = required_string(target, "kind")?;
    let target_name = required_string(target, "name")?;
    let mut fields: Vec<(String, Json)> = Vec::new();
    fields.push(entry("relationship_id", Json::text(relationship_id)));
    fields.push(entry("source_id", Json::text(source_id)));
    fields.push(entry("source_kind", Json::text(source_kind)));
    fields.push(entry("source_name", Json::text(source_name)));
    fields.push(entry("state", Json::text("proven_unique_local")));
    fields.push(entry("target_id", Json::text(target_id)));
    fields.push(entry("target_kind", Json::text(target_kind)));
    fields.push(entry("target_name", Json::text(target_name)));
    let value = Json::Object(fields);
    proof {
        let f = value->Object_0@;
        assert(seq![(0int, "relationship_id"@)].drop_first() =~= Seq::<(int, Seq<char>)>::empty());
        assert(seq![(1int, "source_id"@)].drop_first() =~= Seq::<(int, Seq<char>)>::empty());
        assert(seq![(2int, "source_kind"@)].drop_first() =~= Seq::<(int, Seq<char>)>::empty());
        assert(seq![(3int, "source_name"@)].drop_first() =~= Seq::<(int, Seq<char>)>::empty());
        assert(seq![(4int, "state"@)].drop_first() =~= Seq::<(int, Seq<char>)>::empty());
        assert(seq![(5int, "target_id"@)].drop_first() =~= Seq::<(int, Seq<char>)>::empty());
        assert(seq![(6int, "target_kind"@)].drop_first() =~= Seq::<(int, Seq<char>)>::empty());
        assert(seq![(7int, "target_name"@)].drop_first() =~= Seq::<(int, Seq<char>)>::empty());
        assert(at_path(f[0].1, Seq::empty()) == Some(f[0].1));
        assert(f[0].0@ == "relationship_id"@);
        assert(at_path(f[1].1, Seq::empty()) == Some(f[1].1));
        assert(at_path(f[2].1, Seq::empty()) == Some(f[2].1));
        assert(at_path(f[3].1, Seq::empty()) == Some(f[3].1));
        assert(at_path(f[4].1, Seq::empty()) == Some(f[4].1));
        assert(at_path(f[5].1, Seq::empty()) == Some(f[5].1));
        assert(at_path(f[6].1, Seq::empty()) == Some(f[6].1));
        assert(at_path(f[7].1, Seq::empty()) == Some(f[7].1));
    }
    Ok(value)
}

/// The positions, in order, of the records of `family` whose `subject_id`
/// names a selected entity.
pub open spec fn selected_positions(records: Seq<Json>, entities: Seq<Seq<char>>) -> Seq<int>
    decreases records.len(),
{
    if records.len() == 0 {
        Seq::empty()
    } else {
        let rest = selected_positions(records.drop_last(), entities);
        match member_text(records.last(), "subject_id"@) {
            Some(id) => if entities.contains(id) {
                rest.push(records.len() - 1)
            } else {
                rest
            },
            None => rest,
        }
    }
}

/// The positions of the uncertainty records of `family` that are about a
/// selected entity ([`selected_positions`]); the family must be an array.
pub fn selected_uncertainty(graph: &Json, family: &str, entity_ids: &[String]) -> (r: Result<
    Vec<usize>,
    FunctionContextError,
>)
    ensures
        match member_items(*graph, family@) {
            Some(records) => r matches Ok(v) && v@.map_values(|k: usize| k as int) == selected_positions(
                records,
                texts(entity_ids@),
            ),
            None => r matches Err(FunctionContextError::InvalidSnapshot),
        },
{
    let records = match graph.get_array(family) {
        Some(records) => records,
        None => return Err(FunctionContextError::InvalidSnapshot),
    };
    let ghost es = texts(entity_ids@);
    let mut selected: Vec<usize> = Vec::new();
    let mut k: usize = 0;
    while k < records.len()
        invariant
            k <= records.len(),
            es == texts(entity_ids@),
            selected@.map_values(|k: usize| k as int) == selected_positions(records@.take(k as int), es),
        decreases records.len() - k,
    {
        proof {
            assert(records@.take(k + 1).drop_last() =~= records@.take(k as int));
            assert(records@.take(k + 1).last() == records@[k as int]);
        }
        let ghost before = selected@;
        let keep = match records[k].get_str("subject_id") {
            Some(id) => contains_text(entity_ids, id),
            None => false,
        };
        if keep {
            selected.push(k);
            proof {
                assert(selected@.map_values(|k: usize| k as int) =~= before.map_values(|k: usize| k as int).push(k as int));
            }
        }
        k += 1;
    }
    proof {
        assert(records@.take(k as int) =~= records@);
    }
    Ok(selected)
}

/// The identifiers listed under `field` of `value`, when present: an array
/// of strings; `None` when it is not one.
pub open spec fn reference_list(value: Json, field: Seq<char>) -> Option<Seq<Seq<char>>> {
    match member(value, field) {
        None => Some(Seq::empty()),
        Some(v) => match as_items(v) {
            Some(items) => crate::portable::text_items(items),
            None => None,
        },
    }
}

/// The identifiers listed under `field` of `value`, in order
/// ([`reference_list`]).
pub fn collect_references(value: &Json, field: &str) -> (r: Result<Vec<String>, FunctionContextError>)
    ensures
        match reference_list(*value, field@) {
            Some(ids) => r matches Ok(v) && texts(v@) == ids,
            None => r matches Err(FunctionContextError::InvalidSnapshot),
        },
{
    let values = match value.get(field) {
        None => {
            let empty: Vec<String> = Vec::new();
            assert(texts(empty@) =~= Seq::<Seq<char>>::empty());
            return Ok(empty);
        },
        Some(values) => values,
    };
    let items = match values.as_array() {
        Some(items) => items,
        None => return Err(FunctionContextError::InvalidSnapshot),
    };
    let mut out: Vec<String> = Vec::new();
    let mut k: usize = 0;
    while k < items.len()
        invariant
            k <= items.len(),
            member(*value, field@) == Some(*values),
            as_items(*values) == Some(items@),
            out@.len() == k,
            forall|m: int| 0 <= m < k ==> (#[trigger] as_text(items@[m])) is Some,
            forall|m: int| 0 <= m < k ==> #[trigger] texts(out@)[m] == crate::portable::text_of(items@[m]),
        decreases items.len() - k,
    {
        let t = match items[k].as_str() {
            Some(t) => t,
            None => return Err(FunctionContextError::InvalidSnapshot),
        };
        let ghost before = out@;
        out.push(t.to_owned());
        proof {
            assert(texts(out@)[k as int] == t@);
            assert forall|m: int| 0 <= m < k + 1 implies #[trigger] texts(out@)[m] == crate::portable::text_of(
                items@[m],
            ) by {
                if m < k {
                    assert(out@[m] == before[m]);
                    assert(texts(before)[m] == crate::portable::text_of(items@[m]));
                }
            }
        }
        k += 1;
    }
    assert(texts(out@) =~= items@.map_values(|j: Json| crate::portable::text_of(j)));
    Ok(out)
}

/// A member that holds one evidence identifier.
pub open spec fn is_evidence_key(name: Seq<char>) -> bool {
    name == "evidence_id"@ || ends_with(name, "_evidence_id"@)
}

/// A member that holds a list of evidence identifiers.
pub open spec fn is_evidence_list_key(name: Seq<char>) -> bool {
    name == "evidence_ids"@ || ends_with(name, "_evidence_ids"@)
}

/// Appends the identifiers read so far to the outcome of the rest.
pub open spec fn after_ids(done: Seq<Seq<char>>, rest: Option<Seq<Seq<char>>>) -> Option<
    Seq<Seq<char>>,
> {
    match rest {
        Some(ids) => Some(done + ids),
        None => None,
    }
}

/// The evidence identifiers that `j` references, in walk order: the string
/// of each evidence member (a `null` one references nothing), each string of
/// each evidence-list member, and those of every other nested value; `None`
/// when an evidence member holds anything else.
pub open spec fn evidence_refs(j: Json) -> Option<Seq<Seq<char>>>
    decreases j, 0nat,
{
    match j {
        Json::Object(fields) => fields_evidence(fields@),
        Json::Array(items) => items_evidence(items@),
        _ => Some(Seq::empty()),
    }
}

/// The evidence identifiers of array items, left to right.
pub open spec fn items_evidence(items: Seq<Json>) -> Option<Seq<Seq<char>>>
    decreases items, 1nat,
{
    if items.len() == 0 {
        Some(Seq::empty())
    } else {
        match evidence_refs(items[0]) {
            Some(first) => after_ids(first, items_evidence(items.drop_first())),
            None => None,
        }
    }
}

/// The evidence identifiers of one member.
pub open spec fn member_evidence(name: Seq<char>, value: Json) -> Option<Seq<Seq<char>>>
    decreases value, 1nat,
{
    if is_evidence_key(name) {
        match value {
            Json::Null => Some(Seq::empty()),
            Json::Str(s) => Some(seq![s@]),
            _ => None,
        }
    } else if is_evidence_list_key(name) {
        match value {
            Json::Array(items) => crate::portable::text_items(items@),
            _ => None,
        }
    } else {
        evidence_refs(value)
    }
}

/// The evidence identifiers of object members, left to right.
pub open spec fn fields_evidence(fields: Seq<(String, Json)>) -> Option<Seq<Seq<char>>>
    decreases fields, 2nat,
{
    if fields.len() == 0 {
        Some(Seq::empty())
    } else {
        match member_evidence(fields[0].0@, fields[0].1) {
            Some(first) => after_ids(first, fields_evidence(fields.drop_first())),
            None => None,
        }
    }
}

fn evidence_key(name: &str) -> (r: bool)
    ensures
        r == is_evidence_key(name@),
{
    let cs = chars_of(name);
    let suffix = chars_of("_evidence_id");
    text_eq(name, "evidence_id") || crate::text::chars_ends_with(cs.as_slice(), suffix.as_slice())
}

fn evidence_list_key(name: &str) -> (r: bool)
    ensures
        r == is_evidence_list_key(name@),
{
    let cs = chars_of(name);
    let suffix = chars_of("_evidence_ids");
    text_eq(name, "evidence_ids") || crate::text::chars_ends_with(cs.as_slice(), suffix.as_slice())
}

/// `final` holds what `old` held and the texts of `added`, and nothing else.
pub open spec fn set_grown(old: Seq<Seq<char>>, new: Seq<Seq<char>>, added: Seq<Seq<char>>) -> bool {
    forall|x: Seq<char>| #[trigger] new.contains(x) <==> (old.contains(x) || added.contains(x))
}

fn collect_member(name: &str, value: &Json, identifiers: &mut Vec<String>) -> (r: Result<
    (),
    FunctionContextError,
>)
    requires
        sorted_texts(texts(old(identifiers)@)),
    ensures
        sorted_texts(texts(final(identifiers)@)),
        forall|x: Seq<char>| #[trigger]
            texts(old(identifiers)@).contains(x) ==> texts(final(identifiers)@).contains(x),
        match member_evidence(name@, *value) {
            Some(ids) => r is Ok && set_grown(texts(old(identifiers)@), texts(final(identifiers)@), ids),
            None => r matches Err(FunctionContextError::InvalidSnapshot),
        },
    decreases value, 1nat,
{
    if evidence_key(name) {
        match value {
            Json::Null => {
                assert(set_grown(texts(identifiers@), texts(identifiers@), Seq::empty()));
                Ok(())
            },
            Json::Str(s) => {
                let ghost before = texts(identifiers@);
                insert_text(identifiers, s.as_str());
                proof {
                    assert forall|x: Seq<char>| #[trigger] texts(identifiers@).contains(x) <==> (
                    before.contains(x) || seq![s@].contains(x)) by {
                        if x == s@ {
                            assert(seq![s@][0] == x);
                        }
                    }
                }
                Ok(())
            },
            _ => Err(FunctionContextError::InvalidSnapshot),
        }
    } else if evidence_list_key(name) {
        let items = match value {
            Json::Array(items) => items,
            _ => return Err(FunctionContextError::InvalidSnapshot),
        };
        let ghost start = texts(identifiers@);
        let mut k: usize = 0;
        while k < items.len()
            invariant
                k <= items.len(),
                *value == Json::Array(*items),
                !is_evidence_key(name@),
                is_evidence_list_key(name@),
                sorted_texts(texts(identifiers@)),
                forall|x: Seq<char>| #[trigger] start.contains(x) ==> texts(identifiers@).contains(x),
                forall|m: int| 0 <= m < k ==> (#[trigger] as_text(items@[m])) is Some,
                set_grown(
                    start,
                    texts(identifiers@),
                    items@.take(k as int).map_values(|j: Json| crate::portable::text_of(j)),
                ),
                start == texts(old(identifiers)@),
            decreases items.len() - k,
        {
            let t = match items[k].as_str() {
                Some(t) => t,
                None => return Err(FunctionContextError::InvalidSnapshot),
            };
            let ghost before = texts(identifiers@);
            insert_text(identifiers, t);
            proof {
                let done = items@.take(k as int).map_values(|j: Json| crate::portable::text_of(j));
                let next = items@.take(k + 1).map_values(|j: Json| crate::portable::text_of(j));
                assert(next =~= done.push(t@));
                assert forall|x: Seq<char>| #[trigger] texts(identifiers@).contains(x) <==> (
                start.contains(x) || next.contains(x)) by {
                    if done.contains(x) {
                        let i = choose|i: int| 0 <= i < done.len() && done[i] == x;
                        assert(next[i] == x);
                    }
                    if next.contains(x) && x != t@ {
                        let i = choose|i: int| 0 <= i < next.len() && next[i] == x;
                        assert(done[i] == x);
                    }
                    if x == t@ {
                        assert(next[k as int] == x);
                    }
                }
            }
            k += 1;
        }
        proof {
            assert(items@.take(k as int) =~= items@);
        }
        Ok(())
    } else {
        collect_evidence_ids(value, identifiers)
    }
}

/// Adds to the ordered set `identifiers` every evidence identifier that
/// `value` references ([`evidence_refs`]).
pub fn collect_evidence_ids(value: &Json, identifiers: &mut Vec<String>) -> (r: Result<
    (),
    FunctionContextError,
>)
    requires
        sorted_texts(texts(old(identifiers)@)),
    ensures
        sorted_texts(texts(final(identifiers)@)),
        forall|x: Seq<char>| #[trigger]
            texts(old(identifiers)@).contains(x) ==> texts(final(identifiers)@).contains(x),
        match evidence_refs(*value) {
            Some(ids) => r is Ok && set_grown(texts(old(identifiers)@), texts(final(identifiers)@), ids),
            None => r matches Err(FunctionContextError::InvalidSnapshot),
        },
    decreases value, 0nat,
{
    let ghost start = texts(identifiers@);
    match value {
        Json::Object(fields) => {
            let mut i: usize = 0;
            let ghost mut done: Seq<Seq<char>> = Seq::empty();
            assert(fields@.skip(0) =~= fields@);
            while i < fields.len()
                invariant
                    i <= fields.len(),
                    *value == Json::Object(*fields),
                    start == texts(old(identifiers)@),
                    sorted_texts(texts(identifiers@)),
                    forall|x: Seq<char>| #[trigger] start.contains(x) ==> texts(identifiers@).contains(x),
                    set_grown(start, texts(identifiers@), done),
                    fields_evidence(fields@) == after_ids(done, fields_evidence(fields@.skip(i as int))),
                decreases fields.len() - i,
            {
                assert(fields@.skip(i as int)[0] == fields@[i as int]);
                assert(fields@.skip(i as int).drop_first() =~= fields@.skip(i + 1));
                proof {
                    assert(decreases_to!(*value => value->Object_0));
                    assert(decreases_to!(*fields => fields@));
                    assert(decreases_to!(fields@ => fields@[i as int]));
                    assert(decreases_to!(fields@[i as int] => fields@[i as int].1));
                }
                let ghost before = texts(identifiers@);
                match collect_member(fields[i].0.as_str(), &fields[i].1, identifiers) {
                    Ok(()) => {},
                    Err(e) => return Err(e),
                }
                proof {
                    let part = member_evidence(fields@[i as int].0@, fields@[i as int].1)->Some_0;
                    let rest = fields_evidence(fields@.skip(i + 1));
                    match rest {
                        Some(b) => {
                            assert(done + (part + b) =~= (done + part) + b);
                        },
                        None => {},
                    }
                    assert forall|x: Seq<char>| #[trigger] texts(identifiers@).contains(x) <==> (
                    start.contains(x) || (done + part).contains(x)) by {
                        if (done + part).contains(x) {
                            let k = choose|k: int| 0 <= k < (done + part).len() && (done + part)[k] == x;
                            if k < done.len() {
                                assert(done[k] == x);
                            } else {
                                assert(part[k - done.len()] == x);
                            }
                        }
                        if done.contains(x) {
                            let k = choose|k: int| 0 <= k < done.len() && done[k] == x;
                            assert((done + part)[k] == x);
                        }
                        if part.contains(x) {
                            let k = choose|k: int| 0 <= k < part.len() && part[k] == x;
                            assert((done + part)[done.len() + k] == x);
                        }
                    }
                    done = done + part;
                }
                i += 1;
            }
            proof {
                assert(fields@.skip(i as int) =~= Seq::<(String, Json)>::empty());
                assert(done + Seq::<Seq<char>>::empty() =~= done);
            }
            Ok(())
        },
        Json::Array(items) => {
            let mut i: usize = 0;
            let ghost mut done: Seq<Seq<char>> = Seq::empty();
            assert(items@.skip(0) =~= items@);
            while i < items.len()
                invariant
                    i <= items.len(),
                    *value == Json::Array(*items),
                    start == texts(old(identifiers)@),
                    sorted_texts(texts(identifiers@)),
                    forall|x: Seq<char>| #[trigger] start.contains(x) ==> texts(identifiers@).contains(x),
                    set_grown(start, texts(identifiers@), done),
                    items_evidence(items@) == after_ids(done, items_evidence(items@.skip(i as int))),
                decreases items.len() - i,
            {
                assert(items@.skip(i as int)[0] == items@[i as int]);
                assert(items@.skip(i as int).drop_first() =~= items@.skip(i + 1));
                proof {
                    assert(decreases_to!(*value => value->Array_0));
                    assert(decreases_to!(*items => items@));
                    assert(decreases_to!(items@ => items@[i as int]));
                }
                match collect_evidence_ids(&items[i], identifiers) {
                    Ok(()) => {},
                    Err(e) => return Err(e),
                }
                proof {
                    let part = evidence_refs(items@[i as int])->Some_0;
                    let rest = items_evidence(items@.skip(i + 1));
                    match rest {
                        Some(b) => {
                            assert(done + (part + b) =~= (done + part) + b);
                        },
                        None => {},
                    }
                    assert forall|x: Seq<char>| #[trigger] texts(identifiers@).contains(x) <==> (
                    start.contains(x) || (done + part).contains(x)) by {
                        if (done + part).contains(x) {
                            let k = choose|k: int| 0 <= k < (done + part).len() && (done + part)[k] == x;
                            if k < done.len() {
                                assert(done[k] == x);
                            } else {
                                assert(part[k - done.len()] == x);
                            }
                        }
                        if done.contains(x) {
                            let k = choose|k: int| 0 <= k < done.len() && done[k] == x;
                            assert((done + part)[k] == x);
                        }
                        if part.contains(x) {
                            let k = choose|k: int| 0 <= k < part.len() && part[k] == x;
                            assert((done + part)[done.len() + k] == x);
                        }
                    }
                    done = done + part;
                }
                i += 1;
            }
            proof {
                assert(items@.skip(i as int) =~= Seq::<Json>::empty());
                assert(done + Seq::<Seq<char>>::empty() =~= done);
            }
            Ok(())
        },
        _ => {
            assert(set_grown(start, texts(identifiers@), Seq::empty()));
            Ok(())
        },
    }
}

} // verus!
