//! The error documents that the profile commands print: a versioned,
//! non-retryable object with a code, a stage, a message and a context
//! object, whose members stand in key order.
use vstd::prelude::*;
use crate::explorer::{text_member, value_member};
use crate::json::{entry, json_bytes, member_at, member_count, names_view, to_bytes, Json};
use crate::portable::texts;
use crate::s4_r12::R12ContractError;
use crate::s4_r13::R13ContractError;
use crate::s4_r14::R14ContractError;
use crate::s4_r15::R15ContractError;
use crate::s4_r16::R16ContractError;
use crate::text::{bounded_text, take_scalars};

verus! {

/// `{"code", "context", "message", "retryable": false, "schema_version",
/// "stage"}` with the given texts; the context is any member value.
pub open spec fn error_shape(j: Json, version: Seq<char>, code: Seq<char>, stage: Seq<char>, message: Seq<char>) -> bool {
    &&& j is Object
    &&& member_count(j) == 6
    &&& text_member(j, 0, "code"@, code)
    &&& member_at(j, 1, "context"@) is Some
    &&& text_member(j, 2, "message"@, message)
    &&& value_member(j, 3, "retryable"@, Json::Bool(false))
    &&& text_member(j, 4, "schema_version"@, version)
    &&& text_member(j, 5, "stage"@, stage)
}

/// The context object of an error document.
pub open spec fn context_of(j: Json) -> Json {
    member_at(j, 1, "context"@).unwrap()
}

/// An object of text members: `names[k]` holds `values[k]`, in order.
pub open spec fn text_object(c: Json, names: Seq<Seq<char>>, values: Seq<Seq<char>>) -> bool {
    &&& c is Object
    &&& member_count(c) == names.len()
    &&& values.len() == names.len()
    &&& forall|k: int| 0 <= k < names.len() ==> #[trigger] text_member(c, k, names[k], values[k])
}

/// The empty object.
pub open spec fn empty_object(c: Json) -> bool {
    c is Object && member_count(c) == 0
}

/// `{"limit": limit, "maximum": maximum, "observed": observed}`.
pub open spec fn limit_object(c: Json, limit: Seq<char>, maximum: u64, observed: u64) -> bool {
    &&& c is Object
    &&& member_count(c) == 3
    &&& text_member(c, 0, "limit"@, limit)
    &&& value_member(c, 1, "maximum"@, Json::UInt(maximum))
    &&& value_member(c, 2, "observed"@, Json::UInt(observed))
}

/// The first `n` scalars of `s`, or `fallback` when there are none.
pub open spec fn bounded_or(s: Seq<char>, n: nat, fallback: Seq<char>) -> Seq<char> {
    if take_scalars(s, n).len() == 0 {
        fallback
    } else {
        take_scalars(s, n)
    }
}

/// Builds an error document.
pub fn error_value(version: &str, code: &str, stage: &str, message: &str, context: Json) -> (r: Json)
    ensures
        error_shape(r, version@, code@, stage@, message@),
        context_of(r) == context,
{
    Json::Object(
        vec![
            entry("code", Json::text(code)),
            entry("context", context),
            entry("message", Json::text(message)),
            entry("retryable", Json::Bool(false)),
            entry("schema_version", Json::text(version)),
            entry("stage", Json::text(stage)),
        ],
    )
}

/// Builds an object of text members ([`text_object`]).
pub fn text_object_json(names: &[&str], values: Vec<String>) -> (r: Json)
    requires
        names@.len() == values@.len(),
    ensures
        text_object(r, names_view(names@), texts(values@)),
{
    let ghost vs = values@;
    let mut members: Vec<(String, Json)> = Vec::new();
    let mut rest = values;
    let mut k: usize = 0;
    // The values are consumed from the front by reversing once.
    let mut reversed: Vec<String> = Vec::new();
    while rest.len() > 0
        invariant
            rest@.len() + reversed@.len() == vs.len(),
            forall|m: int| 0 <= m < rest@.len() ==> #[trigger] rest@[m] == vs[m],
            forall|m: int|
                0 <= m < reversed@.len() ==> #[trigger] reversed@[m] == vs[vs.len() - 1 - m],
        decreases rest@.len(),
    {
        let v = rest.pop().unwrap();
        reversed.push(v);
    }
    while k < names.len()
        invariant
            names@.len() == vs.len(),
            k <= names.len(),
            members@.len() == k,
            reversed@.len() == vs.len() - k,
            forall|m: int|
                0 <= m < reversed@.len() ==> #[trigger] reversed@[m] == vs[vs.len() - 1 - m],
            forall|m: int|
                0 <= m < k ==> (#[trigger] members@[m]).0@ == names@[m]@ && members@[m].1 == Json::Str(vs[m]),
        decreases names.len() - k,
    {
        let v = reversed.pop().unwrap();
        members.push(entry(names[k], Json::Str(v)));
        k += 1;
    }
    let r = Json::Object(members);
    proof {
        assert forall|m: int| 0 <= m < names_view(names@).len() implies #[trigger] text_member(
            r,
            m,
            names_view(names@)[m],
            texts(vs)[m],
        ) by {
            assert(members@[m].0@ == names@[m]@);
        }
    }
    r
}

/// Builds `{"limit", "maximum", "observed"}`.
pub fn limit_json(limit: &str, maximum: u64, observed: u64) -> (r: Json)
    ensures
        limit_object(r, limit@, maximum, observed),
{
    Json::Object(
        vec![
            entry("limit", Json::text(limit)),
            entry("maximum", Json::UInt(maximum)),
            entry("observed", Json::UInt(observed)),
        ],
    )
}

/// The first `n` scalars of `value`, or `fallback` when there are none.
pub fn bounded_or_text(value: &str, n: usize, fallback: &str) -> (r: String)
    ensures
        r@ == bounded_or(value@, n as nat, fallback@),
{
    let value = bounded_text(value, n);
    if value.as_str().is_empty() {
        fallback.to_owned()
    } else {
        value
    }
}

/// An error document of the workspace profile (`ErrorV10`).
#[derive(Debug)]
pub struct CodeNoesisErrorV10 {
    value: Json,
}

impl CodeNoesisErrorV10 {
    /// The error document.
    pub closed spec fn document(&self) -> Json {
        self.value
    }

    /// The workspace profile requested is not the supported one.
    pub fn invalid_workspace_profile() -> (r: Self)
        ensures
            error_shape(
                r.document(),
                "codenoesis.error/v10"@,
                "input.invalid_workspace_profile"@,
                "input"@,
                "invalid workspace profile"@,
            ),
            empty_object(context_of(r.document())),
    {
        Self::new("input.invalid_workspace_profile", "input", "invalid workspace profile", Json::Object(Vec::new()))
    }

    /// An unexpected internal failure.
    pub fn internal() -> (r: Self)
        ensures
            error_shape(r.document(), "codenoesis.error/v10"@, "internal.unexpected"@, "internal"@, "internal error"@),
            empty_object(context_of(r.document())),
    {
        Self::new("internal.unexpected", "internal", "internal error", Json::Object(Vec::new()))
    }

    fn new(code: &str, stage: &str, message: &str, context: Json) -> (r: Self)
        ensures
            error_shape(r.document(), "codenoesis.error/v10"@, code@, stage@, message@),
            context_of(r.document()) == context,
    {
        Self { value: error_value("codenoesis.error/v10", code, stage, message, context) }
    }

    /// The error document.
    pub fn value(&self) -> (r: &Json)
        ensures
            *r == self.document(),
    {
        &self.value
    }

    /// The canonical error document followed by one LF.
    pub fn canonical_stderr(&self) -> (r: Vec<u8>)
        ensures
            r@ == json_bytes(self.document()).push(10u8),
    {
        let mut bytes = to_bytes(&self.value);
        bytes.push(10u8);
        bytes
    }
}

/// An error document of the manifest-facts profile (`ErrorV11`).
#[derive(Debug)]
pub struct CodeNoesisErrorV11 {
    value: Json,
}

impl CodeNoesisErrorV11 {
    /// The error document.
    pub closed spec fn document(&self) -> Json {
        self.value
    }

    /// The manifest profile requested is not the supported one.
    pub fn invalid_manifest_profile() -> (r: Self)
        ensures
            error_shape(
                r.document(),
                "codenoesis.error/v11"@,
                "input.invalid_manifest_profile"@,
                "input"@,
                "invalid manifest profile"@,
            ),
            empty_object(context_of(r.document())),
    {
        Self::new("input.invalid_manifest_profile", "input", "invalid manifest profile", Json::Object(Vec::new()))
    }

    /// An unexpected internal failure.
    pub fn internal() -> (r: Self)
        ensures
            error_shape(r.document(), "codenoesis.error/v11"@, "internal.unexpected"@, "internal"@, "internal error"@),
            empty_object(context_of(r.document())),
    {
        Self::new("internal.unexpected", "internal", "internal error", Json::Object(Vec::new()))
    }

    fn new(code: &str, stage: &str, message: &str, context: Json) -> (r: Self)
        ensures
            error_shape(r.document(), "codenoesis.error/v11"@, code@, stage@, message@),
            context_of(r.document()) == context,
    {
        Self { value: error_value("codenoesis.error/v11", code, stage, message, context) }
    }

    /// The error document.
    pub fn value(&self) -> (r: &Json)
        ensures
            *r == self.document(),
    {
        &self.value
    }

    /// The canonical error document followed by one LF.
    pub fn canonical_stderr(&self) -> (r: Vec<u8>)
        ensures
            r@ == json_bytes(self.document()).push(10u8),
    {
        let mut bytes = to_bytes(&self.value);
        bytes.push(10u8);
        bytes
    }
}

/// The composition of profiles that the Rust semantic profile requires.
pub const REQUIRED_R5_COMPOSITION: &'static str = "standard-local-s4+cargo-root-package-v1+cargo-manifest-facts-v1";

/// An error document of the Rust semantic profile (`ErrorV12`).
#[derive(Debug)]
pub struct CodeNoesisErrorV12 {
    value: Json,
}

impl CodeNoesisErrorV12 {
    /// The error document.
    pub closed spec fn document(&self) -> Json {
        self.value
    }

    /// The Rust semantic profile requested is not the supported one; the
    /// context names at most 256 scalars of it.
    pub fn invalid_rust_semantic_profile(provided_profile: &str) -> (r: Self)
        ensures
            error_shape(
                r.document(),
                "codenoesis.error/v12"@,
                "input.invalid_rust_semantic_profile"@,
                "input"@,
                "invalid rust semantic profile"@,
            ),
            text_object(context_of(r.document()), seq!["provided_profile"@], seq![take_scalars(provided_profile@, 256)]),
    {
        let names = ["provided_profile"];
        let values = vec![bounded_text(provided_profile, 256)];
        proof {
            assert(names_view(names@) =~= seq!["provided_profile"@]);
            assert(texts(values@) =~= seq![take_scalars(provided_profile@, 256)]);
        }
        Self::new(
            "input.invalid_rust_semantic_profile",
            "input",
            "invalid rust semantic profile",
            text_object_json(&names, values),
        )
    }

    /// The profiles requested do not compose; the context names the Rust
    /// semantic profile (`semantic_profile`), the reason and the required
    /// composition.
    pub fn unsupported_composition(semantic_profile: &str, reason: &str) -> (r: Self)
        ensures
            error_shape(
                r.document(),
                "codenoesis.error/v12"@,
                "extraction.unsupported_rust_semantic_composition"@,
                "extraction"@,
                "unsupported rust semantic composition"@,
            ),
            text_object(
                context_of(r.document()),
                seq!["profile"@, "reason"@, "required_profile"@],
                seq![semantic_profile@, reason@, REQUIRED_R5_COMPOSITION@],
            ),
    {
        let names = ["profile", "reason", "required_profile"];
        let values = vec![semantic_profile.to_owned(), reason.to_owned(), REQUIRED_R5_COMPOSITION.to_owned()];
        proof {
            assert(names_view(names@) =~= seq!["profile"@, "reason"@, "required_profile"@]);
            assert(texts(values@) =~= seq![semantic_profile@, reason@, REQUIRED_R5_COMPOSITION@]);
        }
        Self::new(
            "extraction.unsupported_rust_semantic_composition",
            "extraction",
            "unsupported rust semantic composition",
            text_object_json(&names, values),
        )
    }

    /// An unexpected internal failure.
    pub fn internal() -> (r: Self)
        ensures
            error_shape(
                r.document(),
                "codenoesis.error/v12"@,
                "internal.unexpected"@,
                "internal"@,
                "unexpected internal error"@,
            ),
            empty_object(context_of(r.document())),
    {
        Self::new("internal.unexpected", "internal", "unexpected internal error", Json::Object(Vec::new()))
    }

    fn new(code: &str, stage: &str, message: &str, context: Json) -> (r: Self)
        ensures
            error_shape(r.document(), "codenoesis.error/v12"@, code@, stage@, message@),
            context_of(r.document()) == context,
    {
        Self { value: error_value("codenoesis.error/v12", code, stage, message, context) }
    }

    /// The error document.
    pub fn value(&self) -> (r: &Json)
        ensures
            *r == self.document(),
    {
        &self.value
    }

    /// The canonical error document followed by one LF.
    pub fn canonical_stderr(&self) -> (r: Vec<u8>)
        ensures
            r@ == json_bytes(self.document()).push(10u8),
    {
        let mut bytes = to_bytes(&self.value);
        bytes.push(10u8);
        bytes
    }
}


/// The domain constants that the R12 error documents name.
#[derive(Clone, Debug, PartialEq, Eq)]
pub struct ErrorProfileV19 {
    pub error_version: String,
    pub semantic_profile: String,
    pub framework_profile: String,
    pub callable_profile: String,
}

/// An error document of the R12 profile composition (`ErrorV19`).
#[derive(Debug)]
pub struct CodeNoesisErrorV19 {
    value: Json,
}

impl CodeNoesisErrorV19 {
    /// The error document.
    pub closed spec fn document(&self) -> Json {
        self.value
    }

    /// An optional profile named by `field` is not supported; the context
    /// names at most 256 scalars of it. A field that names no optional
    /// profile is an unsupported composition (`invalid_optional_profile`).
    pub fn invalid_profile(profile: &ErrorProfileV19, field: &str, provided: &str) -> (r: Self)
        ensures
            field@ == "rust_semantic_profile"@ ==> error_shape(
                r.document(),
                profile.error_version@,
                "input.invalid_rust_cfg_alternatives_profile"@,
                "input"@,
                "invalid rust cfg declaration alternatives profile"@,
            ),
            field@ == "rust_callable_profile"@ ==> error_shape(
                r.document(),
                profile.error_version@,
                "input.invalid_rust_callable_profile"@,
                "input"@,
                "invalid rust callable profile"@,
            ),
            field@ == "repository_boundary_profile"@ ==> error_shape(
                r.document(),
                profile.error_version@,
                "input.invalid_repository_boundary_profile"@,
                "input"@,
                "invalid repository boundary profile"@,
            ),
            field@ == "rust_semantic_profile"@ || field@ == "rust_callable_profile"@ || field@
                == "repository_boundary_profile"@ ==> text_object(
                context_of(r.document()),
                seq!["provided_profile"@],
                seq![take_scalars(provided@, 256)],
            ),
            !(field@ == "rust_semantic_profile"@ || field@ == "rust_callable_profile"@ || field@
                == "repository_boundary_profile"@) ==> Self::composition_document(
                r.document(),
                *profile,
                "invalid_optional_profile"@,
            ),
    {
        proof {
            reveal_strlit("rust_semantic_profile");
            reveal_strlit("rust_callable_profile");
            reveal_strlit("repository_boundary_profile");
            assert("rust_semantic_profile"@[5] != "rust_callable_profile"@[5]);
            assert("repository_boundary_profile"@[1] != "rust_semantic_profile"@[1]);
            assert("repository_boundary_profile"@[1] != "rust_callable_profile"@[1]);
        }
        let (code, message) = if crate::text::text_eq(field, "rust_semantic_profile") {
            ("input.invalid_rust_cfg_alternatives_profile", "invalid rust cfg declaration alternatives profile")
        } else if crate::text::text_eq(field, "rust_callable_profile") {
            ("input.invalid_rust_callable_profile", "invalid rust callable profile")
        } else if crate::text::text_eq(field, "repository_boundary_profile") {
            ("input.invalid_repository_boundary_profile", "invalid repository boundary profile")
        } else {
            let r = Self::unsupported_composition(profile, "invalid_optional_profile");
            proof {
                reveal_strlit("invalid_optional_profile");
                assert(take_scalars("invalid_optional_profile"@, 128) == "invalid_optional_profile"@);
            }
            return r;
        };
        let v0 = bounded_text(provided, 256);
        let names = ["provided_profile"];
        let values = vec![v0];
        proof {
            assert(names_view(names@) =~= seq!["provided_profile"@]);
            assert(texts(values@) =~= seq![v0@]);
        }
        Self::new(profile, code, "input", message, text_object_json(&names, values))
    }

    /// The document of an unsupported composition for `reason`.
    pub open spec fn composition_document(j: Json, profile: ErrorProfileV19, reason: Seq<char>) -> bool {
        &&& error_shape(
            j,
            profile.error_version@,
            "input.unsupported_rust_callable_cfg_alternatives_composition"@,
            "input"@,
            "unsupported R12 profile composition"@,
        )
        &&& text_object(
            context_of(j),
            seq!["callable_profile"@, "framework_profile"@, "reason"@, "semantic_profile"@],
            seq![profile.callable_profile@, profile.framework_profile@, reason, profile.semantic_profile@],
        )
    }

    /// The profiles requested do not compose; the context names the three
    /// composed profiles and at most 128 scalars of the reason.
    pub fn unsupported_composition(profile: &ErrorProfileV19, reason: &str) -> (r: Self)
        ensures
            Self::composition_document(r.document(), *profile, take_scalars(reason@, 128)),
    {
        let names = ["callable_profile", "framework_profile", "reason", "semantic_profile"];
        let v0 = profile.callable_profile.clone();
        let v1 = profile.framework_profile.clone();
        let v2 = bounded_text(reason, 128);
        let v3 = profile.semantic_profile.clone();
        let values = vec![v0, v1, v2, v3];
        proof {
            assert(texts(values@) =~= seq![v0@, v1@, v2@, v3@]);
            assert(names_view(names@) =~= seq!["callable_profile"@, "framework_profile"@, "reason"@, "semantic_profile"@]);
        }
        Self::new(
            profile,
            "input.unsupported_rust_callable_cfg_alternatives_composition",
            "input",
            "unsupported R12 profile composition",
            text_object_json(&names, values),
        )
    }

    /// The error document of a refused export (or, with `explore`, of a
    /// refused explorer input): an unsupported snapshot schema names at most
    /// 256 scalars of it; a limit names the limit; an internal failure is
    /// [`Self::internal`] at stage `contract`; every portable-graph refusal
    /// names the error's message as its reason.
    pub fn from_contract(profile: &ErrorProfileV19, error: &R12ContractError, explore: bool) -> (r: Self)
        ensures
            match error {
                R12ContractError::UnsupportedSnapshotSchema(observed) => error_shape(
                    r.document(),
                    profile.error_version@,
                    "export.invalid_snapshot"@,
                    "export"@,
                    "invalid R12 source snapshot"@,
                ) && text_object(context_of(r.document()), seq!["observed"@], seq![take_scalars(observed@, 256)]),
                R12ContractError::InvalidSnapshot => error_shape(
                    r.document(),
                    profile.error_version@,
                    "export.invalid_snapshot"@,
                    "export"@,
                    "invalid R12 source snapshot"@,
                ) && empty_object(context_of(r.document())),
                R12ContractError::LimitExceeded { limit, maximum, observed } => error_shape(
                    r.document(),
                    profile.error_version@,
                    if explore {
                        "explorer.limit_exceeded"@
                    } else {
                        "export.limit_exceeded"@
                    },
                    if explore {
                        "explorer"@
                    } else {
                        "export"@
                    },
                    "R12 portable graph limit exceeded"@,
                ) && limit_object(context_of(r.document()), limit@, *maximum, *observed),
                R12ContractError::AssetIntegrityMismatch => error_shape(
                    r.document(),
                    profile.error_version@,
                    "explorer.asset_integrity_mismatch"@,
                    "explorer"@,
                    "R12 explorer asset integrity mismatch"@,
                ) && empty_object(context_of(r.document())),
                R12ContractError::Internal => error_shape(
                    r.document(),
                    profile.error_version@,
                    "internal.unexpected"@,
                    "internal"@,
                    "unexpected internal R12 failure"@,
                ) && text_object(context_of(r.document()), seq!["stage"@], seq!["contract"@]),
                _ => error_shape(
                    r.document(),
                    profile.error_version@,
                    "export.invalid_portable_graph_v5"@,
                    "export"@,
                    "invalid portable graph V5"@,
                ) && text_object(
                    context_of(r.document()),
                    seq!["reason"@],
                    seq![take_scalars(error.message_text(), 256)],
                ),
            },
    {
        match error {
            R12ContractError::UnsupportedSnapshotSchema(observed) => {
                let v0 = bounded_text(observed.as_str(), 256);
                let names = ["observed"];
                let values = vec![v0];
                proof {
                    assert(names_view(names@) =~= seq!["observed"@]);
                    assert(texts(values@) =~= seq![v0@]);
                }
                Self::new(
                    profile,
                    "export.invalid_snapshot",
                    "export",
                    "invalid R12 source snapshot",
                    text_object_json(&names, values),
                )
            },
            R12ContractError::InvalidSnapshot => Self::new(
                profile,
                "export.invalid_snapshot",
                "export",
                "invalid R12 source snapshot",
                Json::Object(Vec::new()),
            ),
            R12ContractError::LimitExceeded { limit, maximum, observed } => Self::new(
                profile,
                if explore {
                    "explorer.limit_exceeded"
                } else {
                    "export.limit_exceeded"
                },
                if explore {
                    "explorer"
                } else {
                    "export"
                },
                "R12 portable graph limit exceeded",
                limit_json(limit, *maximum, *observed),
            ),
            R12ContractError::AssetIntegrityMismatch => Self::new(
                profile,
                "explorer.asset_integrity_mismatch",
                "explorer",
                "R12 explorer asset integrity mismatch",
                Json::Object(Vec::new()),
            ),
            R12ContractError::Internal => {
                let r = Self::internal(profile, "contract");
                proof {
                    reveal_strlit("contract");
                    assert(take_scalars("contract"@, 128) == "contract"@);
                }
                r
            },
            _ => {
                let v0 = bounded_text(error.message(), 256);
                let names = ["reason"];
                let values = vec![v0];
                proof {
                    assert(names_view(names@) =~= seq!["reason"@]);
                    assert(texts(values@) =~= seq![v0@]);
                }
                Self::new(
                    profile,
                    "export.invalid_portable_graph_v5",
                    "export",
                    "invalid portable graph V5",
                    text_object_json(&names, values),
                )
            },
        }
    }

    /// The snapshot is invalid.
    pub fn invalid_snapshot(profile: &ErrorProfileV19) -> (r: Self)
        ensures
            error_shape(r.document(), profile.error_version@, "snapshot.invalid_v14"@, "snapshot"@, "invalid R12 snapshot"@),
            empty_object(context_of(r.document())),
    {
        Self::new(profile, "snapshot.invalid_v14", "snapshot", "invalid R12 snapshot", Json::Object(Vec::new()))
    }

    /// The query state is invalid; the context names at most 256 scalars of
    /// the reason.
    pub fn invalid_query(profile: &ErrorProfileV19, reason: &str) -> (r: Self)
        ensures
            error_shape(r.document(), profile.error_version@, "query.invalid_v14"@, "query"@, "invalid R12 query state"@),
            text_object(context_of(r.document()), seq!["reason"@], seq![take_scalars(reason@, 256)]),
    {
        let v0 = bounded_text(reason, 256);
        let names = ["reason"];
        let values = vec![v0];
        proof {
            assert(names_view(names@) =~= seq!["reason"@]);
            assert(texts(values@) =~= seq![v0@]);
        }
        Self::new(profile, "query.invalid_v14", "query", "invalid R12 query state", text_object_json(&names, values))
    }

    /// The output path is unsafe; the context names at most 64 scalars of
    /// the path's digest and 128 of the reason.
    pub fn unsafe_output_path(profile: &ErrorProfileV19, path_sha256: &str, reason: &str) -> (r: Self)
        ensures
            error_shape(r.document(), profile.error_version@, "input.unsafe_output_path"@, "input"@, "unsafe R12 output path"@),
            text_object(
                context_of(r.document()),
                seq!["path_sha256"@, "reason"@],
                seq![take_scalars(path_sha256@, 64), take_scalars(reason@, 128)],
            ),
    {
        let v0 = bounded_text(path_sha256, 64);
        let v1 = bounded_text(reason, 128);
        let names = ["path_sha256", "reason"];
        let values = vec![v0, v1];
        proof {
            assert(names_view(names@) =~= seq!["path_sha256"@, "reason"@]);
            assert(texts(values@) =~= seq![v0@, v1@]);
        }
        Self::new(profile, "input.unsafe_output_path", "input", "unsafe R12 output path", text_object_json(&names, values))
    }

    /// An unexpected internal failure at `stage` (at most 128 scalars of it).
    pub fn internal(profile: &ErrorProfileV19, stage: &str) -> (r: Self)
        ensures
            error_shape(r.document(), profile.error_version@, "internal.unexpected"@, "internal"@, "unexpected internal R12 failure"@),
            text_object(context_of(r.document()), seq!["stage"@], seq![take_scalars(stage@, 128)]),
    {
        let v0 = bounded_text(stage, 128);
        let names = ["stage"];
        let values = vec![v0];
        proof {
            assert(names_view(names@) =~= seq!["stage"@]);
            assert(texts(values@) =~= seq![v0@]);
        }
        Self::new(profile, "internal.unexpected", "internal", "unexpected internal R12 failure", text_object_json(&names, values))
    }

    fn new(profile: &ErrorProfileV19, code: &str, stage: &str, message: &str, context: Json) -> (r: Self)
        ensures
            error_shape(r.document(), profile.error_version@, code@, stage@, message@),
            context_of(r.document()) == context,
    {
        Self { value: error_value(profile.error_version.as_str(), code, stage, message, context) }
    }

    /// The error document.
    pub fn value(&self) -> (r: &Json)
        ensures
            *r == self.document(),
    {
        &self.value
    }

    /// The canonical error document followed by one LF.
    pub fn canonical_stderr(&self) -> (r: Vec<u8>)
        ensures
            r@ == json_bytes(self.document()).push(10u8),
    {
        let mut bytes = to_bytes(&self.value);
        bytes.push(10u8);
        bytes
    }
}

/// The domain constants that the R13 error documents name.
#[derive(Clone, Debug, PartialEq, Eq)]
pub struct ErrorProfileV20 {
    pub error_version: String,
    pub compiler_index_profile: String,
    pub callable_profile: String,
}

/// An error document of the R13 callable and compiler composition
/// (`ErrorV20`).
#[derive(Debug)]
pub struct CodeNoesisErrorV20 {
    value: Json,
}

impl CodeNoesisErrorV20 {
    /// The error document.
    pub closed spec fn document(&self) -> Json {
        self.value
    }

    /// An optional profile named by `field` is not supported; the context
    /// names at most 256 scalars of it (`missing` when none). A field that
    /// names no optional profile is an unsupported composition
    /// (`invalid_optional_profile`).
    pub fn invalid_profile(profile: &ErrorProfileV20, field: &str, provided: &str) -> (r: Self)
        ensures
            field@ == "compiler_index_profile"@ ==> error_shape(
                r.document(),
                profile.error_version@,
                "input.invalid_compiler_index_profile"@,
                "input"@,
                "invalid compiler index profile"@,
            ),
            field@ == "rust_callable_profile"@ ==> error_shape(
                r.document(),
                profile.error_version@,
                "input.invalid_rust_callable_profile"@,
                "input"@,
                "invalid rust callable profile"@,
            ),
            field@ == "compiler_index_profile"@ || field@ == "rust_callable_profile"@ ==> text_object(
                context_of(r.document()),
                seq!["profile"@],
                seq![bounded_or(provided@, 256, "missing"@)],
            ),
            !(field@ == "compiler_index_profile"@ || field@ == "rust_callable_profile"@) ==> Self::composition_document(
                r.document(),
                *profile,
                "invalid_optional_profile"@,
            ),
    {
        proof {
            reveal_strlit("compiler_index_profile");
            reveal_strlit("rust_callable_profile");
            assert("compiler_index_profile"@[0] != "rust_callable_profile"@[0]);
        }
        let (code, message) = if crate::text::text_eq(field, "compiler_index_profile") {
            ("input.invalid_compiler_index_profile", "invalid compiler index profile")
        } else if crate::text::text_eq(field, "rust_callable_profile") {
            ("input.invalid_rust_callable_profile", "invalid rust callable profile")
        } else {
            let r = Self::unsupported_composition(profile, "invalid_optional_profile");
            proof {
                reveal_strlit("invalid_optional_profile");
                assert(take_scalars("invalid_optional_profile"@, 128) == "invalid_optional_profile"@);
            }
            return r;
        };
        let v0 = bounded_or_text(provided, 256, "missing");
        let names = ["profile"];
        let values = vec![v0];
        proof {
            assert(names_view(names@) =~= seq!["profile"@]);
            assert(texts(values@) =~= seq![v0@]);
        }
        Self::new(profile, code, "input", message, text_object_json(&names, values))
    }

    /// The document of an unsupported composition for `reason`.
    pub open spec fn composition_document(j: Json, profile: ErrorProfileV20, reason: Seq<char>) -> bool {
        &&& error_shape(
            j,
            profile.error_version@,
            "input.unsupported_rust_callable_scip_composition"@,
            "input"@,
            "unsupported R13 callable and compiler composition"@,
        )
        &&& text_object(
            context_of(j),
            seq!["compiler_index_profile"@, "reason"@, "rust_callable_profile"@],
            seq![profile.compiler_index_profile@, reason, profile.callable_profile@],
        )
    }

    /// The profiles requested do not compose; the context names the two
    /// composed profiles and at most 128 scalars of the reason
    /// (`unsupported_composition` when none).
    pub fn unsupported_composition(profile: &ErrorProfileV20, reason: &str) -> (r: Self)
        ensures
            Self::composition_document(r.document(), *profile, bounded_or(reason@, 128, "unsupported_composition"@)),
    {
        let names = ["compiler_index_profile", "reason", "rust_callable_profile"];
        let v0 = profile.compiler_index_profile.clone();
        let v1 = bounded_or_text(reason, 128, "unsupported_composition");
        let v2 = profile.callable_profile.clone();
        let values = vec![v0, v1, v2];
        proof {
            assert(texts(values@) =~= seq![v0@, v1@, v2@]);
            assert(names_view(names@) =~= seq!["compiler_index_profile"@, "reason"@, "rust_callable_profile"@]);
        }
        Self::new(
            profile,
            "input.unsupported_rust_callable_scip_composition",
            "input",
            "unsupported R13 callable and compiler composition",
            text_object_json(&names, values),
        )
    }

    /// The error document of a refused export (or, with `explore`, of a
    /// refused explorer input): an unsupported snapshot schema names at most
    /// 256 scalars of it; a limit names the limit; an internal failure is
    /// [`Self::internal`] at stage `contract`; every portable-graph refusal
    /// names the error's message as its reason.
    pub fn from_contract(profile: &ErrorProfileV20, error: &R13ContractError, explore: bool) -> (r: Self)
        ensures
            match error {
                R13ContractError::UnsupportedSnapshotSchema(observed) => error_shape(
                    r.document(),
                    profile.error_version@,
                    "export.invalid_snapshot"@,
                    "export"@,
                    "invalid R13 source snapshot"@,
                ) && text_object(context_of(r.document()), seq!["observed"@], seq![take_scalars(observed@, 256)]),
                R13ContractError::InvalidSnapshot => error_shape(
                    r.document(),
                    profile.error_version@,
                    "export.invalid_snapshot"@,
                    "export"@,
                    "invalid R13 source snapshot"@,
                ) && empty_object(context_of(r.document())),
                R13ContractError::LimitExceeded { limit, maximum, observed } => error_shape(
                    r.document(),
                    profile.error_version@,
                    if explore {
                        "explorer.limit_exceeded"@
                    } else {
                        "export.limit_exceeded"@
                    },
                    if explore {
                        "explorer"@
                    } else {
                        "export"@
                    },
                    "R13 portable graph limit exceeded"@,
                ) && limit_object(context_of(r.document()), limit@, *maximum, *observed),
                R13ContractError::AssetIntegrityMismatch => error_shape(
                    r.document(),
                    profile.error_version@,
                    "explorer.asset_integrity_mismatch"@,
                    "explorer"@,
                    "R13 explorer asset integrity mismatch"@,
                ) && empty_object(context_of(r.document())),
                R13ContractError::Internal => error_shape(
                    r.document(),
                    profile.error_version@,
                    "internal.unexpected"@,
                    "internal"@,
                    "unexpected internal R13 failure"@,
                ) && text_object(context_of(r.document()), seq!["stage"@], seq!["contract"@]),
                _ => error_shape(
                    r.document(),
                    profile.error_version@,
                    "export.invalid_portable_graph_v6"@,
                    "export"@,
                    "invalid portable graph V6"@,
                ) && text_object(
                    context_of(r.document()),
                    seq!["reason"@],
                    seq![take_scalars(error.message_text(), 256)],
                ),
            },
    {
        match error {
            R13ContractError::UnsupportedSnapshotSchema(observed) => {
                let v0 = bounded_text(observed.as_str(), 256);
                let names = ["observed"];
                let values = vec![v0];
                proof {
                    assert(names_view(names@) =~= seq!["observed"@]);
                    assert(texts(values@) =~= seq![v0@]);
                }
                Self::new(
                    profile,
                    "export.invalid_snapshot",
                    "export",
                    "invalid R13 source snapshot",
                    text_object_json(&names, values),
                )
            },
            R13ContractError::InvalidSnapshot => Self::new(
                profile,
                "export.invalid_snapshot",
                "export",
                "invalid R13 source snapshot",
                Json::Object(Vec::new()),
            ),
            R13ContractError::LimitExceeded { limit, maximum, observed } => Self::new(
                profile,
                if explore {
                    "explorer.limit_exceeded"
                } else {
                    "export.limit_exceeded"
                },
                if explore {
                    "explorer"
                } else {
                    "export"
                },
                "R13 portable graph limit exceeded",
                limit_json(limit, *maximum, *observed),
            ),
            R13ContractError::AssetIntegrityMismatch => Self::new(
                profile,
                "explorer.asset_integrity_mismatch",
                "explorer",
                "R13 explorer asset integrity mismatch",
                Json::Object(Vec::new()),
            ),
            R13ContractError::Internal => {
                let r = Self::internal(profile, "contract");
                proof {
                    reveal_strlit("contract");
                    assert(take_scalars("contract"@, 128) == "contract"@);
                }
                r
            },
            _ => {
                let v0 = bounded_text(error.message(), 256);
                let names = ["reason"];
                let values = vec![v0];
                proof {
                    assert(names_view(names@) =~= seq!["reason"@]);
                    assert(texts(values@) =~= seq![v0@]);
                }
                Self::new(
                    profile,
                    "export.invalid_portable_graph_v6",
                    "export",
                    "invalid portable graph V6",
                    text_object_json(&names, values),
                )
            },
        }
    }

    /// The snapshot is invalid.
    pub fn invalid_snapshot(profile: &ErrorProfileV20) -> (r: Self)
        ensures
            error_shape(r.document(), profile.error_version@, "snapshot.invalid_v15"@, "snapshot"@, "invalid R13 snapshot"@),
            empty_object(context_of(r.document())),
    {
        Self::new(profile, "snapshot.invalid_v15", "snapshot", "invalid R13 snapshot", Json::Object(Vec::new()))
    }

    /// The query state is invalid; the context names at most 256 scalars of
    /// the reason.
    pub fn invalid_query(profile: &ErrorProfileV20, reason: &str) -> (r: Self)
        ensures
            error_shape(r.document(), profile.error_version@, "query.invalid_v15"@, "query"@, "invalid R13 query state"@),
            text_object(context_of(r.document()), seq!["reason"@], seq![take_scalars(reason@, 256)]),
    {
        let v0 = bounded_text(reason, 256);
        let names = ["reason"];
        let values = vec![v0];
        proof {
            assert(names_view(names@) =~= seq!["reason"@]);
            assert(texts(values@) =~= seq![v0@]);
        }
        Self::new(profile, "query.invalid_v15", "query", "invalid R13 query state", text_object_json(&names, values))
    }

    /// The output path is unsafe; the context names at most 64 scalars of
    /// the path's digest and 128 of the reason.
    pub fn unsafe_output_path(profile: &ErrorProfileV20, path_sha256: &str, reason: &str) -> (r: Self)
        ensures
            error_shape(r.document(), profile.error_version@, "input.unsafe_output_path"@, "input"@, "unsafe R13 output path"@),
            text_object(
                context_of(r.document()),
                seq!["path_sha256"@, "reason"@],
                seq![take_scalars(path_sha256@, 64), take_scalars(reason@, 128)],
            ),
    {
        let v0 = bounded_text(path_sha256, 64);
        let v1 = bounded_text(reason, 128);
        let names = ["path_sha256", "reason"];
        let values = vec![v0, v1];
        proof {
            assert(names_view(names@) =~= seq!["path_sha256"@, "reason"@]);
            assert(texts(values@) =~= seq![v0@, v1@]);
        }
        Self::new(profile, "input.unsafe_output_path", "input", "unsafe R13 output path", text_object_json(&names, values))
    }

    /// An unexpected internal failure at `stage` (at most 128 scalars of it).
    pub fn internal(profile: &ErrorProfileV20, stage: &str) -> (r: Self)
        ensures
            error_shape(r.document(), profile.error_version@, "internal.unexpected"@, "internal"@, "unexpected internal R13 failure"@),
            text_object(context_of(r.document()), seq!["stage"@], seq![take_scalars(stage@, 128)]),
    {
        let v0 = bounded_text(stage, 128);
        let names = ["stage"];
        let values = vec![v0];
        proof {
            assert(names_view(names@) =~= seq!["stage"@]);
            assert(texts(values@) =~= seq![v0@]);
        }
        Self::new(profile, "internal.unexpected", "internal", "unexpected internal R13 failure", text_object_json(&names, values))
    }

    fn new(profile: &ErrorProfileV20, code: &str, stage: &str, message: &str, context: Json) -> (r: Self)
        ensures
            error_shape(r.document(), profile.error_version@, code@, stage@, message@),
            context_of(r.document()) == context,
    {
        Self { value: error_value(profile.error_version.as_str(), code, stage, message, context) }
    }

    /// The error document.
    pub fn value(&self) -> (r: &Json)
        ensures
            *r == self.document(),
    {
        &self.value
    }

    /// The canonical error document followed by one LF.
    pub fn canonical_stderr(&self) -> (r: Vec<u8>)
        ensures
            r@ == json_bytes(self.document()).push(10u8),
    {
        let mut bytes = to_bytes(&self.value);
        bytes.push(10u8);
        bytes
    }
}


/// The domain constants that the R14 error documents name.
#[derive(Clone, Debug, PartialEq, Eq)]
pub struct ErrorProfileV21 {
    pub error_version: String,
    pub expression_profile: String,
}

/// An error document of the R14 profile (`ErrorV21`).
#[derive(Debug)]
pub struct CodeNoesisErrorV21 {
    value: Json,
}

impl CodeNoesisErrorV21 {
    /// The error document.
    pub closed spec fn document(&self) -> Json {
        self.value
    }

    /// The rust expression profile requested is not the supported one; the context
    /// names at most 256 scalars of it (`missing` when none).
    pub fn invalid_profile(profile: &ErrorProfileV21, provided: &str) -> (r: Self)
        ensures
            error_shape(r.document(), profile.error_version@, "input.invalid_rust_expression_profile"@, "input"@, "invalid rust expression profile"@),
            text_object(context_of(r.document()), seq!["profile"@], seq![bounded_or(provided@, 256, "missing"@)]),
    {
        let v0 = bounded_or_text(provided, 256, "missing");
        let names = ["profile"];
        let values = vec![v0];
        proof {
            assert(names_view(names@) =~= seq!["profile"@]);
            assert(texts(values@) =~= seq![v0@]);
        }
        Self::new(profile, "input.invalid_rust_expression_profile", "input", "invalid rust expression profile", text_object_json(&names, values))
    }

    /// The profiles requested do not compose; the context names the composed
    /// profiles and at most 128 scalars of the reason
    /// (`unsupported_composition` when none).
    pub fn unsupported_composition(profile: &ErrorProfileV21, reason: &str) -> (r: Self)
        ensures
            error_shape(r.document(), profile.error_version@, "input.unsupported_rust_expression_composition"@, "input"@, "unsupported rust expression profile composition"@),
            text_object(
                context_of(r.document()),
                seq!["reason"@, "rust_callable_profile"@, "rust_expression_profile"@],
                seq![bounded_or(reason@, 128, "unsupported_composition"@), "rust-callable-semantics-v1"@, profile.expression_profile@],
            ),
    {
        let v0 = bounded_or_text(reason, 128, "unsupported_composition");
        let v1 = "rust-callable-semantics-v1".to_owned();
        let v2 = profile.expression_profile.clone();
        let names = ["reason", "rust_callable_profile", "rust_expression_profile"];
        let values = vec![v0, v1, v2];
        proof {
            assert(names_view(names@) =~= seq!["reason"@, "rust_callable_profile"@, "rust_expression_profile"@]);
            assert(texts(values@) =~= seq![v0@, v1@, v2@]);
        }
        Self::new(profile, "input.unsupported_rust_expression_composition", "input", "unsupported rust expression profile composition", text_object_json(&names, values))
    }

    /// The error document of a refused export: a limit names the limit; a
    /// refused snapshot is `export.invalid_snapshot`; an internal failure is
    /// [`Self::internal`] at stage `contract`; every other refusal is an
    /// invalid portable graph.
    pub fn from_contract(profile: &ErrorProfileV21, error: &R14ContractError) -> (r: Self)
        ensures
            match error {
                R14ContractError::LimitExceeded { limit, maximum, observed } => error_shape(
                    r.document(),
                    profile.error_version@,
                    "export.limit_exceeded"@,
                    "export"@,
                    "portable graph limit exceeded"@,
                ) && limit_object(context_of(r.document()), limit@, *maximum, *observed),
                R14ContractError::AssetIntegrityMismatch => error_shape(
                    r.document(),
                    profile.error_version@,
                    "explorer.asset_integrity_mismatch"@,
                    "explorer"@,
                    "local explorer asset integrity mismatch"@,
                ) && empty_object(context_of(r.document())),
                R14ContractError::Internal => error_shape(
                    r.document(),
                    profile.error_version@,
                    "internal.unexpected"@,
                    "internal"@,
                    "unexpected internal R14 failure"@,
                ) && text_object(context_of(r.document()), seq!["stage"@], seq!["contract"@]),
                _ => if error is InvalidSnapshot || error is UnsupportedSnapshotSchema {
                    error_shape(
                        r.document(),
                        profile.error_version@,
                        "export.invalid_snapshot"@,
                        "export"@,
                        "invalid R14 source snapshot"@,
                    ) && empty_object(context_of(r.document()))
                } else {
                    error_shape(
                    r.document(),
                    profile.error_version@,
                    "export.invalid_portable_graph_v7"@,
                    "export"@,
                    "invalid portable graph v7"@,
                ) && empty_object(context_of(r.document()))
                },
            },
    {
        match error {
            R14ContractError::LimitExceeded { limit, maximum, observed } => Self::new(
                profile,
                "export.limit_exceeded",
                "export",
                "portable graph limit exceeded",
                limit_json(limit, *maximum, *observed),
            ),
            R14ContractError::AssetIntegrityMismatch => Self::new(
                profile,
                "explorer.asset_integrity_mismatch",
                "explorer",
                "local explorer asset integrity mismatch",
                Json::Object(Vec::new()),
            ),
            R14ContractError::InvalidSnapshot | R14ContractError::UnsupportedSnapshotSchema(_) => Self::new(
                profile,
                "export.invalid_snapshot",
                "export",
                "invalid R14 source snapshot",
                Json::Object(Vec::new()),
            ),
            R14ContractError::Internal => {
                let r = Self::internal(profile, "contract");
                proof {
                    reveal_strlit("contract");
                    assert(take_scalars("contract"@, 128) == "contract"@);
                }
                r
            },
            _ => Self::new(
                profile,
                "export.invalid_portable_graph_v7",
                "export",
                "invalid portable graph v7",
                Json::Object(Vec::new()),
            ),
        }
    }

    /// The error document of a refused explorer input: a limit names the
    /// limit; an internal failure is [`Self::internal`] at stage
    /// `explorer`; every other refusal is an invalid portable graph.
    pub fn from_explorer_contract(profile: &ErrorProfileV21, error: &R14ContractError) -> (r: Self)
        ensures
            match error {
                R14ContractError::LimitExceeded { limit, maximum, observed } => error_shape(
                    r.document(),
                    profile.error_version@,
                    "explorer.limit_exceeded"@,
                    "explorer"@,
                    "local explorer input limit exceeded"@,
                ) && limit_object(context_of(r.document()), limit@, *maximum, *observed),
                R14ContractError::AssetIntegrityMismatch => error_shape(
                    r.document(),
                    profile.error_version@,
                    "explorer.asset_integrity_mismatch"@,
                    "explorer"@,
                    "local explorer asset integrity mismatch"@,
                ) && empty_object(context_of(r.document())),
                R14ContractError::Internal => error_shape(
                    r.document(),
                    profile.error_version@,
                    "internal.unexpected"@,
                    "internal"@,
                    "unexpected internal R14 failure"@,
                ) && text_object(context_of(r.document()), seq!["stage"@], seq!["explorer"@]),
                _ => error_shape(
                    r.document(),
                    profile.error_version@,
                    "export.invalid_portable_graph_v7"@,
                    "export"@,
                    "invalid portable graph v7"@,
                ) && empty_object(context_of(r.document())),
            },
    {
        match error {
            R14ContractError::LimitExceeded { limit, maximum, observed } => Self::new(
                profile,
                "explorer.limit_exceeded",
                "explorer",
                "local explorer input limit exceeded",
                limit_json(limit, *maximum, *observed),
            ),
            R14ContractError::AssetIntegrityMismatch => Self::new(
                profile,
                "explorer.asset_integrity_mismatch",
                "explorer",
                "local explorer asset integrity mismatch",
                Json::Object(Vec::new()),
            ),
            R14ContractError::Internal => {
                let r = Self::internal(profile, "explorer");
                proof {
                    reveal_strlit("explorer");
                    assert(take_scalars("explorer"@, 128) == "explorer"@);
                }
                r
            },
            _ => Self::new(
                profile,
                "export.invalid_portable_graph_v7",
                "export",
                "invalid portable graph v7",
                Json::Object(Vec::new()),
            ),
        }
    }

    /// The output path is unsafe; the context names at most 64 scalars of
    /// the path's digest and a bounded reason.
    pub fn unsafe_output_path(profile: &ErrorProfileV21, path_sha256: &str, reason: &str) -> (r: Self)
        ensures
            error_shape(r.document(), profile.error_version@, "input.unsafe_output_path"@, "input"@, "unsafe output path"@),
            text_object(
                context_of(r.document()),
                seq!["path_sha256"@, "reason"@],
                seq![bounded_or(path_sha256@, 64, "invalid"@), bounded_or(reason@, 64, "unsafe"@)],
            ),
    {
        let v0 = bounded_or_text(path_sha256, 64, "invalid");
        let v1 = bounded_or_text(reason, 64, "unsafe");
        let names = ["path_sha256", "reason"];
        let values = vec![v0, v1];
        proof {
            assert(names_view(names@) =~= seq!["path_sha256"@, "reason"@]);
            assert(texts(values@) =~= seq![v0@, v1@]);
        }
        Self::new(profile, "input.unsafe_output_path", "input", "unsafe output path", text_object_json(&names, values))
    }

    /// The snapshot is invalid.
    pub fn invalid_snapshot(profile: &ErrorProfileV21) -> (r: Self)
        ensures
            error_shape(r.document(), profile.error_version@, "snapshot.invalid_v16"@, "snapshot"@, "invalid R14 snapshot"@),
            empty_object(context_of(r.document())),
    {
        Self::new(profile, "snapshot.invalid_v16", "snapshot", "invalid R14 snapshot", Json::Object(Vec::new()))
    }

    /// The query is invalid.
    pub fn invalid_query(profile: &ErrorProfileV21) -> (r: Self)
        ensures
            error_shape(r.document(), profile.error_version@, "query.invalid_v16"@, "query"@, "invalid R14 query"@),
            empty_object(context_of(r.document())),
    {
        Self::new(profile, "query.invalid_v16", "query", "invalid R14 query", Json::Object(Vec::new()))
    }

    /// An unexpected internal failure at `stage` (at most 128 scalars of it).
    pub fn internal(profile: &ErrorProfileV21, stage: &str) -> (r: Self)
        ensures
            error_shape(r.document(), profile.error_version@, "internal.unexpected"@, "internal"@, "unexpected internal R14 failure"@),
            text_object(context_of(r.document()), seq!["stage"@], seq![take_scalars(stage@, 128)]),
    {
        let v0 = bounded_text(stage, 128);
        let names = ["stage"];
        let values = vec![v0];
        proof {
            assert(names_view(names@) =~= seq!["stage"@]);
            assert(texts(values@) =~= seq![v0@]);
        }
        Self::new(profile, "internal.unexpected", "internal", "unexpected internal R14 failure", text_object_json(&names, values))
    }

    fn new(profile: &ErrorProfileV21, code: &str, stage: &str, message: &str, context: Json) -> (r: Self)
        ensures
            error_shape(r.document(), profile.error_version@, code@, stage@, message@),
            context_of(r.document()) == context,
    {
        Self { value: error_value(profile.error_version.as_str(), code, stage, message, context) }
    }

    /// The error document.
    pub fn value(&self) -> (r: &Json)
        ensures
            *r == self.document(),
    {
        &self.value
    }

    /// The canonical error document followed by one LF.
    pub fn canonical_stderr(&self) -> (r: Vec<u8>)
        ensures
            r@ == json_bytes(self.document()).push(10u8),
    {
        let mut bytes = to_bytes(&self.value);
        bytes.push(10u8);
        bytes
    }
}

/// The domain constants that the R15 error documents name.
#[derive(Clone, Debug, PartialEq, Eq)]
pub struct ErrorProfileV22 {
    pub error_version: String,
    pub flow_profile: String,
}

/// An error document of the R15 profile (`ErrorV22`).
#[derive(Debug)]
pub struct CodeNoesisErrorV22 {
    value: Json,
}

impl CodeNoesisErrorV22 {
    /// The error document.
    pub closed spec fn document(&self) -> Json {
        self.value
    }

    /// The rust flow profile requested is not the supported one; the context
    /// names at most 256 scalars of it (`missing` when none).
    pub fn invalid_profile(profile: &ErrorProfileV22, provided: &str) -> (r: Self)
        ensures
            error_shape(r.document(), profile.error_version@, "input.invalid_rust_flow_profile"@, "input"@, "invalid rust flow profile"@),
            text_object(context_of(r.document()), seq!["profile"@], seq![bounded_or(provided@, 256, "missing"@)]),
    {
        let v0 = bounded_or_text(provided, 256, "missing");
        let names = ["profile"];
        let values = vec![v0];
        proof {
            assert(names_view(names@) =~= seq!["profile"@]);
            assert(texts(values@) =~= seq![v0@]);
        }
        Self::new(profile, "input.invalid_rust_flow_profile", "input", "invalid rust flow profile", text_object_json(&names, values))
    }

    /// The profiles requested do not compose; the context names the composed
    /// profiles and at most 128 scalars of the reason
    /// (`unsupported_composition` when none).
    pub fn unsupported_composition(profile: &ErrorProfileV22, reason: &str) -> (r: Self)
        ensures
            error_shape(r.document(), profile.error_version@, "input.unsupported_rust_flow_composition"@, "input"@, "unsupported rust flow profile composition"@),
            text_object(
                context_of(r.document()),
                seq!["reason"@, "rust_expression_profile"@, "rust_flow_profile"@],
                seq![bounded_or(reason@, 128, "unsupported_composition"@), "rust-expression-bindings-v1"@, profile.flow_profile@],
            ),
    {
        let v0 = bounded_or_text(reason, 128, "unsupported_composition");
        let v1 = "rust-expression-bindings-v1".to_owned();
        let v2 = profile.flow_profile.clone();
        let names = ["reason", "rust_expression_profile", "rust_flow_profile"];
        let values = vec![v0, v1, v2];
        proof {
            assert(names_view(names@) =~= seq!["reason"@, "rust_expression_profile"@, "rust_flow_profile"@]);
            assert(texts(values@) =~= seq![v0@, v1@, v2@]);
        }
        Self::new(profile, "input.unsupported_rust_flow_composition", "input", "unsupported rust flow profile composition", text_object_json(&names, values))
    }

    /// The error document of a refused export: a limit names the limit; a
    /// refused snapshot is `export.invalid_snapshot`; an internal failure is
    /// [`Self::internal`] at stage `contract`; every other refusal is an
    /// invalid portable graph.
    pub fn from_contract(profile: &ErrorProfileV22, error: &R15ContractError) -> (r: Self)
        ensures
            match error {
                R15ContractError::LimitExceeded { limit, maximum, observed } => error_shape(
                    r.document(),
                    profile.error_version@,
                    "export.limit_exceeded"@,
                    "export"@,
                    "portable graph limit exceeded"@,
                ) && limit_object(context_of(r.document()), limit@, *maximum, *observed),
                R15ContractError::AssetIntegrityMismatch => error_shape(
                    r.document(),
                    profile.error_version@,
                    "explorer.asset_integrity_mismatch"@,
                    "explorer"@,
                    "local explorer asset integrity mismatch"@,
                ) && empty_object(context_of(r.document())),
                R15ContractError::Internal => error_shape(
                    r.document(),
                    profile.error_version@,
                    "internal.unexpected"@,
                    "internal"@,
                    "unexpected internal R15 failure"@,
                ) && text_object(context_of(r.document()), seq!["stage"@], seq!["contract"@]),
                _ => if error is InvalidSnapshot || error is UnsupportedSnapshotSchema {
                    error_shape(
                        r.document(),
                        profile.error_version@,
                        "export.invalid_snapshot"@,
                        "export"@,
                        "invalid R15 source snapshot"@,
                    ) && empty_object(context_of(r.document()))
                } else {
                    error_shape(
                    r.document(),
                    profile.error_version@,
                    "export.invalid_portable_graph_v8"@,
                    "export"@,
                    "invalid portable graph v8"@,
                ) && empty_object(context_of(r.document()))
                },
            },
    {
        match error {
            R15ContractError::LimitExceeded { limit, maximum, observed } => Self::new(
                profile,
                "export.limit_exceeded",
                "export",
                "portable graph limit exceeded",
                limit_json(limit, *maximum, *observed),
            ),
            R15ContractError::AssetIntegrityMismatch => Self::new(
                profile,
                "explorer.asset_integrity_mismatch",
                "explorer",
                "local explorer asset integrity mismatch",
                Json::Object(Vec::new()),
            ),
            R15ContractError::InvalidSnapshot | R15ContractError::UnsupportedSnapshotSchema(_) => Self::new(
                profile,
                "export.invalid_snapshot",
                "export",
                "invalid R15 source snapshot",
                Json::Object(Vec::new()),
            ),
            R15ContractError::Internal => {
                let r = Self::internal(profile, "contract");
                proof {
                    reveal_strlit("contract");
                    assert(take_scalars("contract"@, 128) == "contract"@);
                }
                r
            },
            _ => Self::new(
                profile,
                "export.invalid_portable_graph_v8",
                "export",
                "invalid portable graph v8",
                Json::Object(Vec::new()),
            ),
        }
    }

    /// The error document of a refused explorer input: a limit names the
    /// limit; an internal failure is [`Self::internal`] at stage
    /// `explorer`; every other refusal is an invalid portable graph.
    pub fn from_explorer_contract(profile: &ErrorProfileV22, error: &R15ContractError) -> (r: Self)
        ensures
            match error {
                R15ContractError::LimitExceeded { limit, maximum, observed } => error_shape(
                    r.document(),
                    profile.error_version@,
                    "explorer.limit_exceeded"@,
                    "explorer"@,
                    "local explorer input limit exceeded"@,
                ) && limit_object(context_of(r.document()), limit@, *maximum, *observed),
                R15ContractError::AssetIntegrityMismatch => error_shape(
                    r.document(),
                    profile.error_version@,
                    "explorer.asset_integrity_mismatch"@,
                    "explorer"@,
                    "local explorer asset integrity mismatch"@,
                ) && empty_object(context_of(r.document())),
                R15ContractError::Internal => error_shape(
                    r.document(),
                    profile.error_version@,
                    "internal.unexpected"@,
                    "internal"@,
                    "unexpected internal R15 failure"@,
                ) && text_object(context_of(r.document()), seq!["stage"@], seq!["explorer"@]),
                _ => error_shape(
                    r.document(),
                    profile.error_version@,
                    "export.invalid_portable_graph_v8"@,
                    "export"@,
                    "invalid portable graph v8"@,
                ) && empty_object(context_of(r.document())),
            },
    {
        match error {
            R15ContractError::LimitExceeded { limit, maximum, observed } => Self::new(
                profile,
                "explorer.limit_exceeded",
                "explorer",
                "local explorer input limit exceeded",
                limit_json(limit, *maximum, *observed),
            ),
            R15ContractError::AssetIntegrityMismatch => Self::new(
                profile,
                "explorer.asset_integrity_mismatch",
                "explorer",
                "local explorer asset integrity mismatch",
                Json::Object(Vec::new()),
            ),
            R15ContractError::Internal => {
                let r = Self::internal(profile, "explorer");
                proof {
                    reveal_strlit("explorer");
                    assert(take_scalars("explorer"@, 128) == "explorer"@);
                }
                r
            },
            _ => Self::new(
                profile,
                "export.invalid_portable_graph_v8",
                "export",
                "invalid portable graph v8",
                Json::Object(Vec::new()),
            ),
        }
    }

    /// The output path is unsafe; the context names at most 64 scalars of
    /// the path's digest and a bounded reason.
    pub fn unsafe_output_path(profile: &ErrorProfileV22, path_sha256: &str, reason: &str) -> (r: Self)
        ensures
            error_shape(r.document(), profile.error_version@, "input.unsafe_output_path"@, "input"@, "unsafe output path"@),
            text_object(
                context_of(r.document()),
                seq!["path_sha256"@, "reason"@],
                seq![bounded_or(path_sha256@, 64, "invalid"@), bounded_or(reason@, 64, "unsafe"@)],
            ),
    {
        let v0 = bounded_or_text(path_sha256, 64, "invalid");
        let v1 = bounded_or_text(reason, 64, "unsafe");
        let names = ["path_sha256", "reason"];
        let values = vec![v0, v1];
        proof {
            assert(names_view(names@) =~= seq!["path_sha256"@, "reason"@]);
            assert(texts(values@) =~= seq![v0@, v1@]);
        }
        Self::new(profile, "input.unsafe_output_path", "input", "unsafe output path", text_object_json(&names, values))
    }

    /// The snapshot is invalid.
    pub fn invalid_snapshot(profile: &ErrorProfileV22) -> (r: Self)
        ensures
            error_shape(r.document(), profile.error_version@, "snapshot.invalid_v17"@, "snapshot"@, "invalid R15 snapshot"@),
            empty_object(context_of(r.document())),
    {
        Self::new(profile, "snapshot.invalid_v17", "snapshot", "invalid R15 snapshot", Json::Object(Vec::new()))
    }

    /// The query is invalid.
    pub fn invalid_query(profile: &ErrorProfileV22) -> (r: Self)
        ensures
            error_shape(r.document(), profile.error_version@, "query.invalid_v17"@, "query"@, "invalid R15 query"@),
            empty_object(context_of(r.document())),
    {
        Self::new(profile, "query.invalid_v17", "query", "invalid R15 query", Json::Object(Vec::new()))
    }

    /// An unexpected internal failure at `stage` (at most 128 scalars of it).
    pub fn internal(profile: &ErrorProfileV22, stage: &str) -> (r: Self)
        ensures
            error_shape(r.document(), profile.error_version@, "internal.unexpected"@, "internal"@, "unexpected internal R15 failure"@),
            text_object(context_of(r.document()), seq!["stage"@], seq![take_scalars(stage@, 128)]),
    {
        let v0 = bounded_text(stage, 128);
        let names = ["stage"];
        let values = vec![v0];
        proof {
            assert(names_view(names@) =~= seq!["stage"@]);
            assert(texts(values@) =~= seq![v0@]);
        }
        Self::new(profile, "internal.unexpected", "internal", "unexpected internal R15 failure", text_object_json(&names, values))
    }

    fn new(profile: &ErrorProfileV22, code: &str, stage: &str, message: &str, context: Json) -> (r: Self)
        ensures
            error_shape(r.document(), profile.error_version@, code@, stage@, message@),
            context_of(r.document()) == context,
    {
        Self { value: error_value(profile.error_version.as_str(), code, stage, message, context) }
    }

    /// The error document.
    pub fn value(&self) -> (r: &Json)
        ensures
            *r == self.document(),
    {
        &self.value
    }

    /// The canonical error document followed by one LF.
    pub fn canonical_stderr(&self) -> (r: Vec<u8>)
        ensures
            r@ == json_bytes(self.document()).push(10u8),
    {
        let mut bytes = to_bytes(&self.value);
        bytes.push(10u8);
        bytes
    }
}

/// The domain constants that the R16 error documents name.
#[derive(Clone, Debug, PartialEq, Eq)]
pub struct ErrorProfileV24 {
    pub error_version: String,
    pub flow_profile: String,
    pub constant_profile: String,
}

/// An error document of the R16 profile (`ErrorV24`).
#[derive(Debug)]
pub struct CodeNoesisErrorV24 {
    value: Json,
}

impl CodeNoesisErrorV24 {
    /// The error document.
    pub closed spec fn document(&self) -> Json {
        self.value
    }

    /// The rust constant profile requested is not the supported one; the context
    /// names at most 256 scalars of it (`missing` when none).
    pub fn invalid_profile(profile: &ErrorProfileV24, provided: &str) -> (r: Self)
        ensures
            error_shape(r.document(), profile.error_version@, "input.invalid_rust_constant_profile"@, "input"@, "invalid rust constant profile"@),
            text_object(context_of(r.document()), seq!["profile"@], seq![bounded_or(provided@, 256, "missing"@)]),
    {
        let v0 = bounded_or_text(provided, 256, "missing");
        let names = ["profile"];
        let values = vec![v0];
        proof {
            assert(names_view(names@) =~= seq!["profile"@]);
            assert(texts(values@) =~= seq![v0@]);
        }
        Self::new(profile, "input.invalid_rust_constant_profile", "input", "invalid rust constant profile", text_object_json(&names, values))
    }

    /// The profiles requested do not compose; the context names the composed
    /// profiles and at most 128 scalars of the reason
    /// (`unsupported_composition` when none).
    pub fn unsupported_composition(profile: &ErrorProfileV24, reason: &str) -> (r: Self)
        ensures
            error_shape(r.document(), profile.error_version@, "input.unsupported_rust_constant_evaluation_composition"@, "input"@, "unsupported rust constant-evaluation profile composition"@),
            text_object(
                context_of(r.document()),
                seq!["reason"@, "rust_constant_profile"@, "rust_flow_profile"@],
                seq![bounded_or(reason@, 128, "unsupported_composition"@), profile.constant_profile@, profile.flow_profile@],
            ),
    {
        let v0 = bounded_or_text(reason, 128, "unsupported_composition");
        let v1 = profile.constant_profile.clone();
        let v2 = profile.flow_profile.clone();
        let names = ["reason", "rust_constant_profile", "rust_flow_profile"];
        let values = vec![v0, v1, v2];
        proof {
            assert(names_view(names@) =~= seq!["reason"@, "rust_constant_profile"@, "rust_flow_profile"@]);
            assert(texts(values@) =~= seq![v0@, v1@, v2@]);
        }
        Self::new(profile, "input.unsupported_rust_constant_evaluation_composition", "input", "unsupported rust constant-evaluation profile composition", text_object_json(&names, values))
    }

    /// The error document of a refused export: a limit names the limit; a
    /// refused snapshot is `export.invalid_snapshot`; an internal failure is
    /// [`Self::internal`] at stage `contract`; every other refusal is an
    /// invalid portable graph.
    pub fn from_contract(profile: &ErrorProfileV24, error: &R16ContractError) -> (r: Self)
        ensures
            match error {
                R16ContractError::LimitExceeded { limit, maximum, observed } => error_shape(
                    r.document(),
                    profile.error_version@,
                    "export.limit_exceeded"@,
                    "export"@,
                    "portable graph limit exceeded"@,
                ) && limit_object(context_of(r.document()), limit@, *maximum, *observed),
                R16ContractError::AssetIntegrityMismatch => error_shape(
                    r.document(),
                    profile.error_version@,
                    "explorer.asset_integrity_mismatch"@,
                    "explorer"@,
                    "local explorer asset integrity mismatch"@,
                ) && empty_object(context_of(r.document())),
                R16ContractError::Internal => error_shape(
                    r.document(),
                    profile.error_version@,
                    "internal.failure"@,
                    "contract"@,
                    "internal failure"@,
                ) && empty_object(context_of(r.document())),
                _ => if error is InvalidSnapshot {
                    error_shape(
                        r.document(),
                        profile.error_version@,
                        "export.invalid_snapshot"@,
                        "export"@,
                        "invalid R16 source snapshot"@,
                    ) && empty_object(context_of(r.document()))
                } else {
                    error_shape(
                    r.document(),
                    profile.error_version@,
                    "export.invalid_portable_graph_v9"@,
                    "export"@,
                    "invalid portable graph v9"@,
                ) && empty_object(context_of(r.document()))
                },
            },
    {
        match error {
            R16ContractError::LimitExceeded { limit, maximum, observed } => Self::new(
                profile,
                "export.limit_exceeded",
                "export",
                "portable graph limit exceeded",
                limit_json(limit, *maximum, *observed),
            ),
            R16ContractError::AssetIntegrityMismatch => Self::new(
                profile,
                "explorer.asset_integrity_mismatch",
                "explorer",
                "local explorer asset integrity mismatch",
                Json::Object(Vec::new()),
            ),
            R16ContractError::InvalidSnapshot => Self::new(
                profile,
                "export.invalid_snapshot",
                "export",
                "invalid R16 source snapshot",
                Json::Object(Vec::new()),
            ),
            R16ContractError::Internal => Self::internal(profile, "contract"),
            _ => Self::new(
                profile,
                "export.invalid_portable_graph_v9",
                "export",
                "invalid portable graph v9",
                Json::Object(Vec::new()),
            ),
        }
    }

    /// The error document of a refused explorer input: a limit names the
    /// limit; an internal failure is [`Self::internal`] at stage
    /// `explorer`; every other refusal is an invalid portable graph.
    pub fn from_explorer_contract(profile: &ErrorProfileV24, error: &R16ContractError) -> (r: Self)
        ensures
            match error {
                R16ContractError::LimitExceeded { limit, maximum, observed } => error_shape(
                    r.document(),
                    profile.error_version@,
                    "explorer.limit_exceeded"@,
                    "explorer"@,
                    "local explorer input limit exceeded"@,
                ) && limit_object(context_of(r.document()), limit@, *maximum, *observed),
                R16ContractError::AssetIntegrityMismatch => error_shape(
                    r.document(),
                    profile.error_version@,
                    "explorer.asset_integrity_mismatch"@,
                    "explorer"@,
                    "local explorer asset integrity mismatch"@,
                ) && empty_object(context_of(r.document())),
                R16ContractError::Internal => error_shape(
                    r.document(),
                    profile.error_version@,
                    "internal.failure"@,
                    "explorer"@,
                    "internal failure"@,
                ) && empty_object(context_of(r.document())),
                _ => error_shape(
                    r.document(),
                    profile.error_version@,
                    "export.invalid_portable_graph_v9"@,
                    "export"@,
                    "invalid portable graph v9"@,
                ) && empty_object(context_of(r.document())),
            },
    {
        match error {
            R16ContractError::LimitExceeded { limit, maximum, observed } => Self::new(
                profile,
                "explorer.limit_exceeded",
                "explorer",
                "local explorer input limit exceeded",
                limit_json(limit, *maximum, *observed),
            ),
            R16ContractError::AssetIntegrityMismatch => Self::new(
                profile,
                "explorer.asset_integrity_mismatch",
                "explorer",
                "local explorer asset integrity mismatch",
                Json::Object(Vec::new()),
            ),
            R16ContractError::Internal => Self::internal(profile, "explorer"),
            _ => Self::new(
                profile,
                "export.invalid_portable_graph_v9",
                "export",
                "invalid portable graph v9",
                Json::Object(Vec::new()),
            ),
        }
    }

    /// The output path is unsafe; the context names at most 64 scalars of
    /// the path's digest and a bounded reason.
    pub fn unsafe_output_path(profile: &ErrorProfileV24, path_sha256: &str, reason: &str) -> (r: Self)
        ensures
            error_shape(r.document(), profile.error_version@, "input.unsafe_output_path"@, "input"@, "unsafe output path"@),
            text_object(
                context_of(r.document()),
                seq!["path_sha256"@, "reason"@],
                seq![bounded_or(path_sha256@, 64, "missing"@), bounded_or(reason@, 128, "unsafe_output"@)],
            ),
    {
        let v0 = bounded_or_text(path_sha256, 64, "missing");
        let v1 = bounded_or_text(reason, 128, "unsafe_output");
        let names = ["path_sha256", "reason"];
        let values = vec![v0, v1];
        proof {
            assert(names_view(names@) =~= seq!["path_sha256"@, "reason"@]);
            assert(texts(values@) =~= seq![v0@, v1@]);
        }
        Self::new(profile, "input.unsafe_output_path", "input", "unsafe output path", text_object_json(&names, values))
    }

    /// The snapshot is invalid.
    pub fn invalid_snapshot(profile: &ErrorProfileV24) -> (r: Self)
        ensures
            error_shape(r.document(), profile.error_version@, "store.invalid_snapshot_v18"@, "store"@, "invalid stored R16 snapshot"@),
            empty_object(context_of(r.document())),
    {
        Self::new(profile, "store.invalid_snapshot_v18", "store", "invalid stored R16 snapshot", Json::Object(Vec::new()))
    }

    /// The query is invalid.
    pub fn invalid_query(profile: &ErrorProfileV24) -> (r: Self)
        ensures
            error_shape(r.document(), profile.error_version@, "query.invalid_local_query_v13"@, "query"@, "invalid R16 local query"@),
            empty_object(context_of(r.document())),
    {
        Self::new(profile, "query.invalid_local_query_v13", "query", "invalid R16 local query", Json::Object(Vec::new()))
    }

    /// A failure at `stage`; the stage names itself.
    pub fn internal(profile: &ErrorProfileV24, stage: &str) -> (r: Self)
        ensures
            error_shape(r.document(), profile.error_version@, "internal.failure"@, stage@, "internal failure"@),
            empty_object(context_of(r.document())),
    {
        Self::new(profile, "internal.failure", stage, "internal failure", Json::Object(Vec::new()))
    }

    fn new(profile: &ErrorProfileV24, code: &str, stage: &str, message: &str, context: Json) -> (r: Self)
        ensures
            error_shape(r.document(), profile.error_version@, code@, stage@, message@),
            context_of(r.document()) == context,
    {
        Self { value: error_value(profile.error_version.as_str(), code, stage, message, context) }
    }

    /// The error document.
    pub fn value(&self) -> (r: &Json)
        ensures
            *r == self.document(),
    {
        &self.value
    }

    /// The canonical error document followed by one LF.
    pub fn canonical_stderr(&self) -> (r: Vec<u8>)
        ensures
            r@ == json_bytes(self.document()).push(10u8),
    {
        let mut bytes = to_bytes(&self.value);
        bytes.push(10u8);
        bytes
    }
}

} // verus!
