//! R16 portable-graph contract rules: size and nesting limits, privacy of
//! payloads, relative paths, constant values and the explorer viewer.
use vstd::prelude::*;
use crate::portable::{
    evidence_location, family_ids, family_outcome, locate_evidence, reference_fault,
    reference_list_fault, reference_list_outcome, reference_outcome, texts, EvidenceLocation, Fault,
    FaultView,
};
use crate::portable::{
    has_key_set, same_key_set, string_array_outcome, string_items};
use crate::integer::{
    decimal_integer, lemma_two_to_127, lemma_two_to_monotone, parse_decimal, parse_within, two_pow,
    two_to, digits_value,
};
use crate::json::{member_items, first_finding, find_unsafe, height, member_text, names_view, FindingView, Json};
use crate::text::{
    text_eq, all_digits, chars_contain_none, contains_none, lowered_chars, lowered_text,
    balanced_scripts, balanced_scripts_rule, one_of, patterns_view, strictly_increasing,
    strings_strictly_increasing, text_one_of,
    
    all_lower_hex, bounded_text, chars_all_lower_hex, chars_of, repeat_char, repeated,
    safe_relative_path_rule, safe_relative_path_text, take_scalars, utf8_len_at_most, utf8_len,
};

verus! {

pub const R16_PORTABLE_MARKER: &'static str = ".codenoesis-portable-graph-v9";
pub const R16_EXPLORER_MARKER: &'static str = ".codenoesis-local-explorer-v9";
pub const R16_EXPLORER_SECURITY_PROFILE: &'static str = "codenoesis.local-explorer-security/v9";
pub const MAX_R16_PORTABLE_GRAPH_BYTES: u64 = 268_435_456;
pub const MAX_R16_JSON_NESTING: u64 = 64;
pub const MAX_R16_TEXT_SEARCH_RESULTS: u64 = 100;
pub const R16_TRAVERSAL_DEPTH_DEFAULT: u64 = 1;
pub const MAX_R16_TRAVERSAL_DEPTH: u64 = 2;

/// Why an R16 portable graph or projection is refused.
#[derive(Clone, Debug, PartialEq, Eq)]
pub enum R16ContractError {
    InvalidSnapshot,
    UnsupportedPortableGraphSchema(String),
    Noncanonical { expected_sha256: String, observed_sha256: String },
    IdentityConflict(String),
    ReferenceMismatch(String),
    LimitExceeded { limit: &'static str, maximum: u64, observed: u64 },
    UnsafePayload(&'static str),
    AssetIntegrityMismatch,
    InvalidProjection,
    Internal,
}

impl R16ContractError {
    /// The human-readable message of the error.
    pub fn message(&self) -> (r: &'static str)
        ensures
            r@ == match self {
                R16ContractError::InvalidSnapshot => "invalid R16 snapshot"@,
                R16ContractError::UnsupportedPortableGraphSchema(_) => "unsupported R16 portable graph schema"@,
                R16ContractError::Noncanonical { .. } => "noncanonical R16 portable graph"@,
                R16ContractError::IdentityConflict(_) => "R16 portable graph identity conflict"@,
                R16ContractError::ReferenceMismatch(_) => "R16 portable graph reference mismatch"@,
                R16ContractError::LimitExceeded { .. } => "R16 portable graph limit exceeded"@,
                R16ContractError::UnsafePayload(_) => "unsafe R16 portable payload"@,
                R16ContractError::AssetIntegrityMismatch => "R16 explorer asset integrity mismatch"@,
                R16ContractError::InvalidProjection => "invalid R16 portable graph projection"@,
                R16ContractError::Internal => "internal R16 contract failure"@,
            },
    {
        match self {
            R16ContractError::InvalidSnapshot => "invalid R16 snapshot",
            R16ContractError::UnsupportedPortableGraphSchema(_) => "unsupported R16 portable graph schema",
            R16ContractError::Noncanonical { .. } => "noncanonical R16 portable graph",
            R16ContractError::IdentityConflict(_) => "R16 portable graph identity conflict",
            R16ContractError::ReferenceMismatch(_) => "R16 portable graph reference mismatch",
            R16ContractError::LimitExceeded { .. } => "R16 portable graph limit exceeded",
            R16ContractError::UnsafePayload(_) => "unsafe R16 portable payload",
            R16ContractError::AssetIntegrityMismatch => "R16 explorer asset integrity mismatch",
            R16ContractError::InvalidProjection => "invalid R16 portable graph projection",
            R16ContractError::Internal => "internal R16 contract failure",
        }
    }
}

/// A portable graph of `length` bytes is accepted exactly when it is at most
/// [`MAX_R16_PORTABLE_GRAPH_BYTES`] long.
pub fn enforce_portable_size(length: usize) -> (r: Result<(), R16ContractError>)
    ensures
        r is Ok <==> length <= MAX_R16_PORTABLE_GRAPH_BYTES,
        r is Err ==> (r matches Err(R16ContractError::LimitExceeded { limit, maximum, observed })
            && limit@ == "portable_graph_bytes"@ && maximum == MAX_R16_PORTABLE_GRAPH_BYTES
            && observed == length),
{
    let observed = length as u64;
    if observed > MAX_R16_PORTABLE_GRAPH_BYTES {
        return Err(
            R16ContractError::LimitExceeded {
                limit: "portable_graph_bytes",
                maximum: MAX_R16_PORTABLE_GRAPH_BYTES,
                observed,
            },
        );
    }
    Ok(())
}

/// A value entered at `depth` is accepted exactly when no member lies deeper
/// than [`MAX_R16_JSON_NESTING`]; the error reports the first depth observed
/// above the maximum.
pub fn ensure_nesting(value: &Json, depth: u64) -> (r: Result<(), R16ContractError>)
    ensures
        r is Ok <==> depth + height(*value) <= MAX_R16_JSON_NESTING,
        r is Err ==> (r matches Err(R16ContractError::LimitExceeded { limit, maximum, observed })
            && limit@ == "json_nesting"@ && maximum == MAX_R16_JSON_NESTING && observed == if depth
            > MAX_R16_JSON_NESTING {
            depth
        } else {
            (MAX_R16_JSON_NESTING + 1) as u64
        }),
{
    match crate::json::nesting_within(value, depth, MAX_R16_JSON_NESTING) {
        Ok(()) => Ok(()),
        Err(observed) => Err(
            R16ContractError::LimitExceeded {
                limit: "json_nesting",
                maximum: MAX_R16_JSON_NESTING,
                observed,
            },
        ),
    }
}

/// Member names that an R16 portable payload never holds.
pub open spec fn r16_private_fields() -> Seq<Seq<char>> {
    seq![
        "body_text"@,
        "condition_text"@,
        "expression_text"@,
        "initializer_text"@,
        "literal_lexeme"@,
        "source_contents"@,
        "source_snippet"@,
        "repository_root"@,
        "absolute_path"@,
        "raw_url"@,
        "credentials"@,
        "environment"@,
        "arguments"@,
        "telemetry"@,
    ]
}

/// A payload is accepted exactly when it holds no private member name and
/// no string with `://`; the first finding of an in-order walk decides the
/// reason.
pub fn validate_private_fields(value: &Json) -> (r: Result<(), R16ContractError>)
    ensures
        r is Ok <==> first_finding(*value, r16_private_fields(), true) is None,
        first_finding(*value, r16_private_fields(), true) matches Some(FindingView::DeniedField(_))
            ==> (r matches Err(R16ContractError::UnsafePayload(reason)) && reason@ == "private_field"@),
        first_finding(*value, r16_private_fields(), true) matches Some(FindingView::Url)
            ==> (r matches Err(R16ContractError::UnsafePayload(reason)) && reason@ == "raw_url"@),
{
    let denied = [
        "body_text",
        "condition_text",
        "expression_text",
        "initializer_text",
        "literal_lexeme",
        "source_contents",
        "source_snippet",
        "repository_root",
        "absolute_path",
        "raw_url",
        "credentials",
        "environment",
        "arguments",
        "telemetry",
    ];
    assert(names_view(denied@) =~= r16_private_fields());
    match find_unsafe(value, &denied, true) {
        None => Ok(()),
        Some(crate::json::Finding::DeniedField(_)) => Err(
            R16ContractError::UnsafePayload("private_field"),
        ),
        Some(crate::json::Finding::Url) => Err(R16ContractError::UnsafePayload("raw_url")),
    }
}

/// Repository-relative output paths of the portable graph
/// ([`safe_relative_path_rule`]).
pub fn safe_relative_path(value: &str) -> (r: bool)
    ensures
        r == safe_relative_path_rule(value@),
{
    safe_relative_path_text(value)
}

/// The `id` of a record (`value.get("id").and_then(Value::as_str)`).
pub fn record_id(value: &Json) -> (r: Option<&str>)
    ensures
        match r {
            Some(t) => member_text(*value, "id"@) == Some(t@),
            None => member_text(*value, "id"@) is None,
        },
{
    value.get_str("id")
}

/// The first `maximum` scalars of `value`.
pub fn bounded(value: &str, maximum: usize) -> (r: String)
    ensures
        r@ == take_scalars(value@, maximum as nat),
{
    bounded_text(value, maximum)
}

/// The first `maximum` scalars of `value`, or `fallback` when they are none.
pub fn bounded_nonempty(value: &str, maximum: usize, fallback: &str) -> (r: String)
    ensures
        r@ == if take_scalars(value@, maximum as nat).len() == 0 {
            fallback@
        } else {
            take_scalars(value@, maximum as nat)
        },
{
    let value = bounded(value, maximum);
    if value.as_str().is_empty() {
        fallback.to_owned()
    } else {
        value
    }
}

/// The identifiers of the records of `family` (each record's `id_field`),
/// which must be present, non-empty and strictly increasing.
pub fn validate_family(object: &Json, family: &'static str, id_field: &'static str) -> (r: Result<
    Vec<String>,
    R16ContractError,
>)
    ensures
        match family_outcome(*object, family@, id_field@) {
            Ok(ids) => r matches Ok(v) && texts(v@) == ids,
            Err(FaultView::Malformed) => r matches Err(R16ContractError::InvalidProjection),
            Err(FaultView::Offending(id)) => r matches Err(R16ContractError::IdentityConflict(i))
                && i@ == id,
        },
        r matches Ok(v) ==> crate::textset::sorted_texts(texts(v@)),
{
    match family_ids(object, family, id_field) {
        Ok(ids) => Ok(ids),
        Err(Fault::Malformed) => Err(R16ContractError::InvalidProjection),
        Err(Fault::Offending(id)) => Err(R16ContractError::IdentityConflict(id)),
    }
}

/// The reference under `field` of `record` names one of `identifiers`.
pub fn validate_reference(record: &Json, field: &'static str, identifiers: &[String]) -> (r: Result<
    (),
    R16ContractError,
>)
    ensures
        match reference_outcome(*record, field@, texts(identifiers@)) {
            None => r is Ok,
            Some(FaultView::Malformed) => r matches Err(R16ContractError::InvalidProjection),
            Some(FaultView::Offending(id)) => r matches Err(R16ContractError::ReferenceMismatch(i))
                && i@ == id,
        },
{
    match reference_fault(record, field, identifiers) {
        None => Ok(()),
        Some(Fault::Malformed) => Err(R16ContractError::InvalidProjection),
        Some(Fault::Offending(id)) => Err(R16ContractError::ReferenceMismatch(id)),
    }
}

/// Each reference listed under `field`, when the field is present, names one
/// of `identifiers`.
pub fn validate_reference_array(record: &Json, field: &'static str, identifiers: &[String]) -> (r:
    Result<(), R16ContractError>)
    ensures
        match reference_list_outcome(*record, field@, texts(identifiers@)) {
            None => r is Ok,
            Some(FaultView::Malformed) => r matches Err(R16ContractError::InvalidProjection),
            Some(FaultView::Offending(id)) => r matches Err(R16ContractError::ReferenceMismatch(i))
                && i@ == id,
        },
{
    match reference_list_fault(record, field, identifiers) {
        None => Ok(()),
        Some(Fault::Malformed) => Err(R16ContractError::InvalidProjection),
        Some(Fault::Offending(id)) => Err(R16ContractError::ReferenceMismatch(id)),
    }
}

/// The strings of the array stored under `field` of `object`.
pub fn string_array(object: &Json, field: &'static str) -> (r: Result<Vec<String>, R16ContractError>)
    ensures
        match string_array_outcome(*object, field@) {
            Some(ts) => r matches Ok(v) && texts(v@) == ts,
            None => r matches Err(R16ContractError::InvalidProjection),
        },
{
    match string_items(object, field) {
        Some(values) => Ok(values),
        None => Err(R16ContractError::InvalidProjection),
    }
}

/// The strings of the array stored under `field` of the object `value`.
pub fn string_array_value(value: &Json, field: &'static str) -> (r: Result<
    Vec<String>,
    R16ContractError,
>)
    ensures
        match string_array_outcome(*value, field@) {
            Some(ts) => r matches Ok(v) && texts(v@) == ts,
            None => r matches Err(R16ContractError::InvalidProjection),
        },
{
    if value.as_object().is_none() {
        return Err(R16ContractError::InvalidProjection);
    }
    string_array(value, field)
}

/// The strings under `field`, strictly increasing, and not empty unless
/// `allow_empty`.
pub open spec fn ordered_strings_rule(object: Json, field: Seq<char>, allow_empty: bool) -> Option<
    Seq<Seq<char>>,
> {
    match string_array_outcome(object, field) {
        Some(ts) => if (allow_empty || ts.len() > 0) && strictly_increasing(ts) {
            Some(ts)
        } else {
            None
        },
        None => None,
    }
}

/// The strings of the array under `field` of `object`, which must be
/// strictly increasing and, unless `allow_empty`, not empty.
pub fn ordered_string_array_map(object: &Json, field: &'static str, allow_empty: bool) -> (r: Result<
    Vec<String>,
    R16ContractError,
>)
    ensures
        match ordered_strings_rule(*object, field@, allow_empty) {
            Some(ts) => r matches Ok(v) && texts(v@) == ts,
            None => r matches Err(R16ContractError::InvalidProjection),
        },
{
    let values = string_array(object, field)?;
    if (!allow_empty && values.len() == 0) || !strictly_ordered(values.as_slice()) {
        return Err(R16ContractError::InvalidProjection);
    }
    Ok(values)
}

/// [`ordered_string_array_map`] on the object `value`.
pub fn ordered_string_array(value: &Json, field: &'static str, allow_empty: bool) -> (r: Result<
    Vec<String>,
    R16ContractError,
>)
    ensures
        match ordered_strings_rule(*value, field@, allow_empty) {
            Some(ts) => r matches Ok(v) && texts(v@) == ts,
            None => r matches Err(R16ContractError::InvalidProjection),
        },
{
    if value.as_object().is_none() {
        return Err(R16ContractError::InvalidProjection);
    }
    ordered_string_array_map(value, field, allow_empty)
}

/// Whether `value` is an object whose member names are exactly `expected`.
pub fn has_exact_fields(value: &Json, expected: &[&str]) -> (r: bool)
    ensures
        r == same_key_set(*value, names_view(expected@)),
{
    has_key_set(value, expected)
}

/// Whether the member names of `object` are exactly `expected`.
pub fn has_exact_map_fields(object: &Json, expected: &[&str]) -> (r: bool)
    ensures
        r == same_key_set(*object, names_view(expected@)),
{
    has_key_set(object, expected)
}

/// A count of `observed` is accepted exactly when it is at most `maximum`.
pub fn enforce_contract_limit(limit: &'static str, observed: usize, maximum: u64) -> (r: Result<
    (),
    R16ContractError,
>)
    ensures
        r is Ok <==> observed <= maximum,
        r is Err ==> (r matches Err(R16ContractError::LimitExceeded { limit: l, maximum: m, observed: o })
            && l == limit && m == maximum && o == observed),
{
    let observed = observed as u64;
    if observed > maximum {
        return Err(R16ContractError::LimitExceeded { limit, maximum, observed });
    }
    Ok(())
}

/// The canonical decimal text of an integer: `0`, or an optional `-`
/// followed by digits that do not start with `0`.
pub open spec fn canonical_integer_rule(value: Seq<char>) -> bool {
    let digits = if value.len() > 0 && value[0] == '-' {
        value.drop_first()
    } else {
        value
    };
    &&& digits.len() > 0
    &&& all_digits(digits)
    &&& (digits == seq!['0'] || digits[0] != '0')
    &&& value != seq!['-', '0']
}

/// Whether `value` is the canonical text of an integer.
pub fn canonical_integer_value(value: &str) -> (r: bool)
    ensures
        r == canonical_integer_rule(value@),
{
    let cs = chars_of(value);
    let from: usize = if cs.len() > 0 && cs[0] == '-' {
        1
    } else {
        0
    };
    let ghost digits = if cs@.len() > 0 && cs@[0] == '-' {
        cs@.drop_first()
    } else {
        cs@
    };
    assert(digits =~= cs@.skip(from as int));
    if from == cs.len() {
        return false;
    }
    let mut i: usize = from;
    while i < cs.len()
        invariant
            from <= i <= cs.len(),
            cs@ == value@,
            digits == cs@.skip(from as int),
            digits == if value@.len() > 0 && value@[0] == '-' {
                value@.drop_first()
            } else {
                value@
            },
            forall|k: int| 0 <= k < i - from ==> crate::text::is_ascii_digit(#[trigger] digits[k]),
        decreases cs.len() - i,
    {
        assert(digits[i - from] == cs@[i as int]);
        if !(cs[i] >= '0' && cs[i] <= '9') {
            assert(!crate::text::is_ascii_digit(digits[i - from]));
            assert(!all_digits(digits));
            return false;
        }
        i += 1;
    }
    let single_zero = cs.len() - from == 1 && cs[from] == '0';
    proof {
        assert(digits[0] == cs@[from as int]);
        if single_zero {
            assert(digits =~= seq!['0']);
        } else if digits.len() == 1 {
            assert(digits != seq!['0']);
        }
    }
    if !single_zero && cs[from] == '0' {
        return false;
    }
    if cs.len() == 2 && cs[0] == '-' && cs[1] == '0' {
        assert(cs@ =~= seq!['-', '0']);
        return false;
    }
    proof {
        if cs@ == seq!['-', '0'] {
            assert(cs@[0] == '-' && cs@[1] == '0');
        }
    }
    true
}

/// `rust_type` names a signed (`i`) or unsigned (`u`) integer type by its
/// width, and `value` parses into that type.
pub open spec fn integer_in_range_rule(value: Seq<char>, rust_type: Seq<char>) -> bool {
    if rust_type.len() == 0 {
        false
    } else if rust_type[0] == 'i' {
        match parse_within(value, true, i128::MIN as int, i128::MAX as int) {
            None => false,
            Some(v) => match parse_within(rust_type.drop_first(), false, 0, u32::MAX as int) {
                None => false,
                Some(bits) => bits == 128 || (-(two_to((bits - 1) as nat) as int) <= v && v
                    <= two_to((bits - 1) as nat) - 1),
            },
        }
    } else if rust_type[0] == 'u' {
        match parse_within(value, false, 0, u128::MAX as int) {
            None => false,
            Some(v) => match parse_within(rust_type.drop_first(), false, 0, u32::MAX as int) {
                None => false,
                Some(bits) => bits == 128 || v < two_to(bits as nat),
            },
        }
    } else {
        false
    }
}

/// The width that `rust_type` names is one that the range check can shift
/// by: from 1 to 128 bits for a signed type, at most 128 for an unsigned one
/// (consulted only when `value` parses).
pub open spec fn integer_width_supported(value: Seq<char>, rust_type: Seq<char>) -> bool {
    let bits = parse_within(rust_type.drop_first(), false, 0, u32::MAX as int);
    &&& (rust_type.len() > 0 && rust_type[0] == 'i' && parse_within(
        value,
        true,
        i128::MIN as int,
        i128::MAX as int,
    ) is Some && bits is Some) ==> 1 <= bits->Some_0 <= 128
    &&& (rust_type.len() > 0 && rust_type[0] == 'u' && parse_within(value, false, 0, u128::MAX as int)
        is Some && bits is Some) ==> bits->Some_0 <= 128
}

fn tail_chars(cs: &[char]) -> (r: Vec<char>)
    requires
        cs.len() > 0,
    ensures
        r@ == cs@.drop_first(),
{
    let mut out: Vec<char> = Vec::new();
    let mut i: usize = 1;
    while i < cs.len()
        invariant
            1 <= i <= cs.len(),
            out@ == cs@.subrange(1, i as int),
        decreases cs.len() - i,
    {
        out.push(cs[i]);
        i += 1;
        assert(out@ =~= cs@.subrange(1, i as int));
    }
    assert(cs@.subrange(1, cs.len() as int) =~= cs@.drop_first());
    out
}

/// The width of an integer type name, when its digits parse into `u32`.
fn type_width(rt: &[char]) -> (r: Option<u32>)
    requires
        rt.len() > 0,
    ensures
        match parse_within(rt@.drop_first(), false, 0, u32::MAX as int) {
            Some(b) => r == Some(b as u32),
            None => r is None,
        },
{
    let tail = tail_chars(rt);
    match parse_decimal(tail.as_slice(), false) {
        Some((_, b)) => if b <= 0xffff_ffff {
            Some(b as u32)
        } else {
            None
        },
        None => None,
    }
}

/// Whether `value` fits the integer type `rust_type`
/// ([`integer_in_range_rule`]).
pub fn constant_integer_in_range(value: &str, rust_type: &str) -> (r: bool)
    requires
        integer_width_supported(value@, rust_type@),
    ensures
        r == integer_in_range_rule(value@, rust_type@),
{
    let rt = chars_of(rust_type);
    if rt.len() == 0 {
        return false;
    }
    let cs = chars_of(value);
    proof {
        lemma_two_to_127();
    }
    if rt[0] == 'i' {
        let (negative, magnitude) = match parse_decimal(cs.as_slice(), true) {
            Some(p) => p,
            None => return false,
        };
        let half: u128 = 0x8000_0000_0000_0000_0000_0000_0000_0000;
        if (negative && magnitude > half) || (!negative && magnitude >= half) {
            return false;
        }
        let bits = match type_width(rt.as_slice()) {
            Some(b) => b,
            None => return false,
        };
        if bits == 128 {
            return true;
        }
        proof {
            let v: int = if negative { -(magnitude as int) } else { magnitude as int };
            assert(parse_within(value@, true, i128::MIN as int, i128::MAX as int) == Some(v));
            assert(parse_within(rust_type@.drop_first(), false, 0, u32::MAX as int) == Some(bits as int));
            lemma_two_to_monotone(0, (bits - 1) as nat);
        }
        let bound = two_pow(bits - 1);
        if negative {
            magnitude <= bound
        } else {
            magnitude < bound
        }
    } else if rt[0] == 'u' {
        let (_, magnitude) = match parse_decimal(cs.as_slice(), false) {
            Some(p) => p,
            None => return false,
        };
        let bits = match type_width(rt.as_slice()) {
            Some(b) => b,
            None => return false,
        };
        if bits == 128 {
            return true;
        }
        proof {
            assert(parse_within(value@, false, 0, u128::MAX as int) == Some(magnitude as int));
            assert(parse_within(rust_type@.drop_first(), false, 0, u32::MAX as int) == Some(bits as int));
        }
        let bound = two_pow(bits);
        magnitude < bound
    } else {
        false
    }
}

/// Whether the strings are strictly increasing.
pub fn strictly_ordered(values: &[String]) -> (r: bool)
    ensures
        r == strictly_increasing(texts(values@)),
{
    strings_strictly_increasing(values)
}

/// The explorer page is UTF-8 and, ASCII-lowercased, holds as many
/// `</script>` closings as `<script` openings, and at least one
/// ([`balanced_scripts_rule`]).
pub fn balanced_script_elements(bytes: &[u8]) -> (r: bool)
    ensures
        r == balanced_scripts_rule(bytes@),
{
    balanced_scripts(bytes)
}

/// What the explorer viewer never holds, ASCII-lowercased: remote
/// addresses, external scripts and dynamic code.
pub open spec fn viewer_forbidden() -> Seq<Seq<char>> {
    seq![
        "http://"@,
        "https://"@,
        "<script src"@,
        "eval("@,
        "new function"@,
        "import("@,
        "javascript:"@,
    ]
}

/// The viewer is UTF-8 and its lowercased text holds none of
/// [`viewer_forbidden`].
pub open spec fn safe_viewer_rule(bytes: Seq<u8>) -> bool {
    vstd::utf8::valid_utf8(bytes) && contains_none(lowered_text(bytes), viewer_forbidden())
}

/// Whether the viewer bytes are safe to ship ([`safe_viewer_rule`]).
pub fn safe_viewer_bytes(bytes: &[u8]) -> (r: bool)
    ensures
        r == safe_viewer_rule(bytes@),
{
    let forbidden = [
        "http://",
        "https://",
        "<script src",
        "eval(",
        "new function",
        "import(",
        "javascript:",
    ];
    assert(patterns_view(forbidden@) =~= viewer_forbidden());
    match lowered_chars(bytes) {
        Some(t) => chars_contain_none(t.as_slice(), &forbidden),
        None => false,
    }
}

/// The fault of the first evidence record, left to right, whose `path` is
/// missing (`Malformed`) or not a safe relative path (`Offending`).
pub open spec fn evidence_paths_fault(items: Seq<Json>) -> Option<FaultView>
    decreases items.len(),
{
    if items.len() == 0 {
        None
    } else {
        match member_text(items[0], "path"@) {
            None => Some(FaultView::Malformed),
            Some(path) => if safe_relative_path_rule(path) {
                evidence_paths_fault(items.drop_first())
            } else {
                Some(FaultView::Offending(path))
            },
        }
    }
}

/// Every evidence record under `field` of `object` has a safe relative
/// `path` ([`evidence_paths_fault`]).
pub fn validate_evidence_paths(object: &Json, field: &'static str) -> (r: Result<(), R16ContractError>)
    ensures
        match member_items(*object, field@) {
            None => r matches Err(R16ContractError::InvalidProjection),
            Some(items) => match evidence_paths_fault(items) {
                None => r is Ok,
                Some(FaultView::Malformed) => r matches Err(R16ContractError::InvalidProjection),
                Some(FaultView::Offending(_)) => r matches Err(R16ContractError::UnsafePayload(reason))
                    && reason@ == "unsafe_evidence_path"@,
            },
        },
{
    let items = match object.get_array(field) {
        Some(items) => items,
        None => return Err(R16ContractError::InvalidProjection),
    };
    let mut k: usize = 0;
    assert(items@.skip(0) =~= items@);
    while k < items.len()
        invariant
            k <= items.len(),
            member_items(*object, field@) == Some(items@),
            evidence_paths_fault(items@) == evidence_paths_fault(items@.skip(k as int)),
        decreases items.len() - k,
    {
        assert(items@.skip(k as int)[0] == items@[k as int]);
        assert(items@.skip(k as int).drop_first() =~= items@.skip(k + 1));
        let path = match items[k].get_str("path") {
            Some(path) => path,
            None => return Err(R16ContractError::InvalidProjection),
        };
        if !safe_relative_path(path) {
            return Err(R16ContractError::UnsafePayload("unsafe_evidence_path"));
        }
        k += 1;
    }
    Ok(())
}

/// The names of the fixed-width integer types of a constant.
pub open spec fn integer_type_names() -> Seq<Seq<char>> {
    seq![
        "i8"@,
        "i16"@,
        "i32"@,
        "i64"@,
        "i128"@,
        "u8"@,
        "u16"@,
        "u32"@,
        "u64"@,
        "u128"@,
    ]
}

/// Properties of an evaluated constant: a boolean with an explicit `bool`
/// annotation, or a canonical integer within its fixed-width type; the type
/// comes from an explicit annotation (constants and statics) or a `repr`
/// attribute (enum variants).
pub open spec fn constant_properties_rule(properties: Json, semantic: Json) -> bool {
    match (
        member_text(properties, "value_kind"@),
        member_text(properties, "canonical_value"@),
        member_text(properties, "rust_type"@),
        member_text(properties, "type_authority"@),
    ) {
        (Some(kind), Some(value), Some(ty), Some(authority)) => {
            let semantic_kind = member_text(semantic, "kind"@);
            let authority_valid = if authority == "explicit_primitive_annotation"@ {
                semantic_kind == Some("rust.constant"@) || semantic_kind == Some("rust.static"@)
            } else if authority == "fixed_repr_attribute"@ {
                semantic_kind == Some("rust.enum_variant"@)
            } else {
                false
            };
            authority_valid && if kind == "boolean"@ {
                ty == "bool"@ && authority == "explicit_primitive_annotation"@ && (value == "true"@
                    || value == "false"@)
            } else if kind == "integer"@ {
                one_of(ty, integer_type_names()) && canonical_integer_rule(value)
                    && integer_in_range_rule(value, ty)
            } else {
                false
            }
        },
        _ => false,
    }
}

/// Every integer type name gives a width that the range check supports.
proof fn lemma_integer_type_widths(value: Seq<char>, ty: Seq<char>)
    requires
        one_of(ty, integer_type_names()),
    ensures
        integer_width_supported(value, ty),
{
    reveal_with_fuel(digits_value, 4);
    let k = choose|k: int| 0 <= k < integer_type_names().len() && integer_type_names()[k] == ty;
    reveal_strlit("i8");
    reveal_strlit("i16");
    reveal_strlit("i32");
    reveal_strlit("i64");
    reveal_strlit("i128");
    reveal_strlit("u8");
    reveal_strlit("u16");
    reveal_strlit("u32");
    reveal_strlit("u64");
    reveal_strlit("u128");
    let digits = ty.drop_first();
    assert(all_digits(digits));
    assert(digits.len() > 0);
    if k == 0 || k == 5 {
        assert(digits =~= seq!['8']);
        assert(digits_value(digits) == 8);
    } else if k == 1 || k == 6 {
        assert(digits =~= seq!['1', '6']);
        assert(digits.drop_last() =~= seq!['1']);
        assert(digits_value(digits) == 16);
    } else if k == 2 || k == 7 {
        assert(digits =~= seq!['3', '2']);
        assert(digits.drop_last() =~= seq!['3']);
        assert(digits_value(digits) == 32);
    } else if k == 3 || k == 8 {
        assert(digits =~= seq!['6', '4']);
        assert(digits.drop_last() =~= seq!['6']);
        assert(digits_value(digits) == 64);
    } else {
        assert(digits =~= seq!['1', '2', '8']);
        assert(digits.drop_last() =~= seq!['1', '2']);
        assert(digits.drop_last().drop_last() =~= seq!['1']);
        assert(digits_value(digits) == 128);
    }
}

/// Whether the properties of an evaluated constant are valid
/// ([`constant_properties_rule`]).
pub fn valid_constant_properties(properties: &Json, semantic: &Json) -> (r: bool)
    ensures
        r == constant_properties_rule(*properties, *semantic),
{
    let value_kind = match properties.get_str("value_kind") {
        Some(t) => t,
        None => return false,
    };
    let canonical_value = match properties.get_str("canonical_value") {
        Some(t) => t,
        None => return false,
    };
    let rust_type = match properties.get_str("rust_type") {
        Some(t) => t,
        None => return false,
    };
    let authority = match properties.get_str("type_authority") {
        Some(t) => t,
        None => return false,
    };
    let semantic_kind = semantic.get_str("kind");
    let explicit = text_eq(authority, "explicit_primitive_annotation");
    let authority_valid = if explicit {
        match semantic_kind {
            Some(kind) => text_eq(kind, "rust.constant") || text_eq(kind, "rust.static"),
            None => false,
        }
    } else if text_eq(authority, "fixed_repr_attribute") {
        match semantic_kind {
            Some(kind) => text_eq(kind, "rust.enum_variant"),
            None => false,
        }
    } else {
        false
    };
    if !authority_valid {
        return false;
    }
    if text_eq(value_kind, "boolean") {
        text_eq(rust_type, "bool") && explicit && (text_eq(canonical_value, "true") || text_eq(
            canonical_value,
            "false",
        ))
    } else if text_eq(value_kind, "integer") {
        let names = ["i8", "i16", "i32", "i64", "i128", "u8", "u16", "u32", "u64", "u128"];
        assert(patterns_view(names@) =~= integer_type_names());
        if !text_one_of(rust_type, &names) {
            return false;
        }
        if !canonical_integer_value(canonical_value) {
            return false;
        }
        proof {
            lemma_integer_type_widths(canonical_value@, rust_type@);
        }
        constant_integer_in_range(canonical_value, rust_type)
    } else {
        false
    }
}

} // verus!
