//! Offline explorer manifests: the document that binds one portable graph
//! file and one viewer page by digest and length, and records the viewer's
//! security settings, capabilities and limits.
use vstd::prelude::*;
use crate::json::{
    as_items, as_text, entry, json_bytes, member_at, member_count, member_text, names_view, text_array, to_bytes,
    Json,
};
use crate::s4_r12::{
    PortableGraphV5, R12ContractError, MAX_R12_TEXT_SEARCH_RESULTS, MAX_R12_TRAVERSAL_DEPTH,
    R12_EXPLORER_SECURITY_PROFILE, R12_TRAVERSAL_DEPTH_DEFAULT,
};
use crate::s4_r13::{
    PortableGraphV6, R13ContractError, MAX_R13_TEXT_SEARCH_RESULTS, MAX_R13_TRAVERSAL_DEPTH,
    R13_EXPLORER_SECURITY_PROFILE, R13_TRAVERSAL_DEPTH_DEFAULT,
};
use crate::s4_r14::{
    balanced_script_elements, PortableGraphV7, R14ContractError, MAX_R14_TEXT_SEARCH_RESULTS,
    MAX_R14_TRAVERSAL_DEPTH, R14_EXPLORER_SECURITY_PROFILE, R14_TRAVERSAL_DEPTH_DEFAULT,
};
use crate::s4_r15::{
    PortableGraphV8, R15ContractError, MAX_R15_TEXT_SEARCH_RESULTS, MAX_R15_TRAVERSAL_DEPTH,
    R15_EXPLORER_SECURITY_PROFILE, R15_TRAVERSAL_DEPTH_DEFAULT,
};
use crate::s4_r16::{
    safe_viewer_bytes, safe_viewer_rule, R16ContractError, MAX_R16_TEXT_SEARCH_RESULTS,
    MAX_R16_TRAVERSAL_DEPTH, R16_EXPLORER_SECURITY_PROFILE, R16_TRAVERSAL_DEPTH_DEFAULT,
};
use crate::projection_v9::PortableGraphV9;
use crate::s4_r17::{
    r17_safe_viewer_rule, safe_content_security_policy, safe_csp_rule, safe_viewer,
    MAX_R17_FUNCTION_SEARCH_RESULTS, MAX_R17_LINKED_RELATIONSHIPS, MAX_R17_LINKED_SUBJECTS,
    MAX_R17_NAVIGATION_HISTORY, R17_CONTEXT_PROFILE, R17_EXPLORER_SECURITY_PROFILE,
    R17_LOCAL_EXPLORER_VERSION,
};
use crate::s4_r16::MAX_R16_PORTABLE_GRAPH_BYTES;
use crate::s4_r18::{digest_of, total_digest};
use crate::text::{balanced_scripts_rule, contains, text_contains, text_eq};

verus! {

/// Member `i` of `j` is named `name` and holds the text `text`.
pub open spec fn text_member(j: Json, i: int, name: Seq<char>, text: Seq<char>) -> bool {
    member_at(j, i, name) matches Some(v) && as_text(v) == Some(text)
}

/// Member `i` of `j` is named `name` and holds `value`.
pub open spec fn value_member(j: Json, i: int, name: Seq<char>, value: Json) -> bool {
    member_at(j, i, name) == Some(value)
}

/// `{"byte_length": len, "path": path, "sha256": digest}`.
pub open spec fn file_entry(j: Json, path: Seq<char>, digest: Seq<char>, len: u64) -> bool {
    &&& j is Object
    &&& member_count(j) == 3
    &&& value_member(j, 0, "byte_length"@, Json::UInt(len))
    &&& text_member(j, 1, "path"@, path)
    &&& text_member(j, 2, "sha256"@, digest)
}

/// `{"text_search_results": results, "traversal_depth_default": depth,
/// "traversal_depth_maximum": maximum}`.
pub open spec fn search_limits(j: Json, results: u64, depth: u64, maximum: u64) -> bool {
    &&& j is Object
    &&& member_count(j) == 3
    &&& value_member(j, 0, "text_search_results"@, Json::UInt(results))
    &&& value_member(j, 1, "traversal_depth_default"@, Json::UInt(depth))
    &&& value_member(j, 2, "traversal_depth_maximum"@, Json::UInt(maximum))
}

/// The capability object: `bounded_traversal` holds `[1, 2]`, then each of
/// `flags`, in order, holds `true`.
pub open spec fn capability_flags(j: Json, flags: Seq<Seq<char>>) -> bool {
    &&& j is Object
    &&& member_count(j) == flags.len() + 1
    &&& member_at(j, 0, "bounded_traversal"@) matches Some(Json::Array(depths)) && depths@ == seq![
        Json::UInt(1),
        Json::UInt(2),
    ]
    &&& forall|k: int| 0 <= k < flags.len() ==> #[trigger] value_member(j, k + 1, flags[k], Json::Bool(true))
}

/// The security object with the members `names`, in order: `profile` and
/// `content_security_policy` hold their texts, every other member `false`.
pub open spec fn security_settings(j: Json, names: Seq<Seq<char>>, profile: Seq<char>, csp: Seq<char>) -> bool {
    &&& j is Object
    &&& member_count(j) == names.len()
    &&& forall|k: int| 0 <= k < names.len() ==> #[trigger] security_member(j, k, names[k], profile, csp)
}

/// Member `k` of a security object, named `name`.
pub open spec fn security_member(j: Json, k: int, name: Seq<char>, profile: Seq<char>, csp: Seq<char>) -> bool {
    member_at(j, k, name) matches Some(v) && security_value(v, name, profile, csp)
}

/// The value of the security setting `name`.
pub open spec fn security_value(v: Json, name: Seq<char>, profile: Seq<char>, csp: Seq<char>) -> bool {
    if name == "profile"@ {
        as_text(v) == Some(profile)
    } else if name == "content_security_policy"@ {
        as_text(v) == Some(csp)
    } else {
        v == Json::Bool(false)
    }
}

/// An explorer manifest of the generations that list capability flags:
/// its capabilities, its entry point (`index.html`, the viewer's digest and
/// length), its search limits, its portable graph (`portable-graph.json`,
/// the graph file's digest and length), its schema version and its security
/// settings, as members in that (sorted) order.
pub open spec fn explorer_manifest(
    j: Json,
    version: Seq<char>,
    graph_digest: Seq<char>,
    graph_len: u64,
    viewer_digest: Seq<char>,
    viewer_len: u64,
    capabilities: Seq<Seq<char>>,
    security: Seq<Seq<char>>,
    profile: Seq<char>,
    csp: Seq<char>,
    limits: (u64, u64, u64),
) -> bool {
    &&& j is Object
    &&& member_count(j) == 6
    &&& member_at(j, 0, "capabilities"@) matches Some(c) && capability_flags(c, capabilities)
    &&& member_at(j, 1, "entrypoint"@) matches Some(e) && file_entry(e, "index.html"@, viewer_digest, viewer_len)
    &&& member_at(j, 2, "limits"@) matches Some(l) && search_limits(l, limits.0, limits.1, limits.2)
    &&& member_at(j, 3, "portable_graph"@) matches Some(p) && file_entry(
        p,
        "portable-graph.json"@,
        graph_digest,
        graph_len,
    )
    &&& text_member(j, 4, "schema_version"@, version)
    &&& member_at(j, 5, "security"@) matches Some(s) && security_settings(s, security, profile, csp)
}

/// A content-security policy that names no remote scheme and allows no
/// inline or evaluated script.
pub open spec fn csp_allowed(csp: Seq<char>) -> bool {
    &&& !contains(csp, "http:"@)
    &&& !contains(csp, "https:"@)
    &&& !contains(csp, "unsafe-inline"@)
    &&& !contains(csp, "unsafe-eval"@)
}

/// Whether a content-security policy is allowed ([`csp_allowed`]).
pub fn csp_allowed_text(csp: &str) -> (r: bool)
    ensures
        r == csp_allowed(csp@),
{
    !text_contains(csp, "http:") && !text_contains(csp, "https:") && !text_contains(csp, "unsafe-inline")
        && !text_contains(csp, "unsafe-eval")
}

/// Digests `bytes` with `sha256` and compares the digest with `expected`.
pub fn digest_matches<G: Fn(&[u8]) -> String>(sha256: &G, bytes: &[u8], expected: &str) -> (r: bool)
    requires
        total_digest(*sha256),
    ensures
        r ==> digest_of(*sha256, bytes@, expected@),
        !r ==> exists|d: Seq<char>| digest_of(*sha256, bytes@, d) && d != expected@,
{
    let digest = sha256(bytes);
    proof {
        assert(call_ensures(*sha256, (bytes,), digest));
        assert(digest_of(*sha256, bytes@, digest@));
    }
    text_eq(digest.as_str(), expected)
}

fn file_entry_json(path: &str, digest: String, len: u64) -> (r: Json)
    ensures
        file_entry(r, path@, digest@, len),
{
    Json::Object(vec![entry("byte_length", Json::UInt(len)), entry("path", Json::text(path)), entry("sha256", Json::Str(digest))])
}

fn search_limits_json(results: u64, depth: u64, maximum: u64) -> (r: Json)
    ensures
        search_limits(r, results, depth, maximum),
{
    Json::Object(
        vec![
            entry("text_search_results", Json::UInt(results)),
            entry("traversal_depth_default", Json::UInt(depth)),
            entry("traversal_depth_maximum", Json::UInt(maximum)),
        ],
    )
}

fn capability_flags_json(flags: &[&str]) -> (r: Json)
    ensures
        capability_flags(r, names_view(flags@)),
{
    let depths = Json::Array(vec![Json::UInt(1), Json::UInt(2)]);
    let mut members: Vec<(String, Json)> = vec![entry("bounded_traversal", depths)];
    let mut k: usize = 0;
    while k < flags.len()
        invariant
            k <= flags.len(),
            members@.len() == k + 1,
            members@[0].0@ == "bounded_traversal"@,
            members@[0].1 matches Json::Array(d) && d@ == seq![Json::UInt(1), Json::UInt(2)],
            forall|m: int| 0 <= m < k ==> (#[trigger] members@[m + 1]).0@ == flags@[m]@ && members@[m + 1].1 == Json::Bool(
                true,
            ),
        decreases flags.len() - k,
    {
        members.push(entry(flags[k], Json::Bool(true)));
        k += 1;
    }
    let r = Json::Object(members);
    proof {
        assert forall|m: int| 0 <= m < names_view(flags@).len() implies #[trigger] value_member(
            r,
            m + 1,
            names_view(flags@)[m],
            Json::Bool(true),
        ) by {
            assert(members@[m + 1].0@ == flags@[m]@);
        }
    }
    r
}

fn security_json(names: &[&str], profile: &str, csp: &str) -> (r: Json)
    ensures
        security_settings(r, names_view(names@), profile@, csp@),
{
    let mut members: Vec<(String, Json)> = Vec::new();
    let mut k: usize = 0;
    while k < names.len()
        invariant
            k <= names.len(),
            members@.len() == k,
            forall|m: int|
                0 <= m < k ==> (#[trigger] members@[m]).0@ == names@[m]@ && security_value(
                    members@[m].1,
                    names@[m]@,
                    profile@,
                    csp@,
                ),
        decreases names.len() - k,
    {
        let value = if text_eq(names[k], "profile") {
            Json::text(profile)
        } else if text_eq(names[k], "content_security_policy") {
            Json::text(csp)
        } else {
            Json::Bool(false)
        };
        members.push(entry(names[k], value));
        k += 1;
    }
    let r = Json::Object(members);
    proof {
        assert forall|m: int| 0 <= m < names_view(names@).len() implies #[trigger] security_member(
            r,
            m,
            names_view(names@)[m],
            profile@,
            csp@,
        ) by {
            assert(names_view(names@)[m] == names@[m]@);
            assert(members@[m].0@ == names@[m]@);
        }
    }
    r
}

/// Builds an explorer manifest of the generations that list capability
/// flags ([`explorer_manifest`]).
pub fn explorer_manifest_json(
    version: &str,
    graph_digest: String,
    graph_len: u64,
    viewer_digest: &str,
    viewer_len: u64,
    capabilities: &[&str],
    security: &[&str],
    profile: &str,
    csp: &str,
    limits: (u64, u64, u64),
) -> (r: Json)
    ensures
        explorer_manifest(
            r,
            version@,
            graph_digest@,
            graph_len,
            viewer_digest@,
            viewer_len,
            names_view(capabilities@),
            names_view(security@),
            profile@,
            csp@,
            limits,
        ),
{
    let ghost graph_text = graph_digest@;
    Json::Object(
        vec![
            entry("capabilities", capability_flags_json(capabilities)),
            entry("entrypoint", file_entry_json("index.html", viewer_digest.to_owned(), viewer_len)),
            entry("limits", search_limits_json(limits.0, limits.1, limits.2)),
            entry("portable_graph", file_entry_json("portable-graph.json", graph_digest, graph_len)),
            entry("schema_version", Json::text(version)),
            entry("security", security_json(security, profile, csp)),
        ],
    )
}


/// The capability flags of the V5 explorer.
pub open spec fn capabilities_v5() -> Seq<Seq<char>> {
    seq![
        "callable_occurrences"@,
        "cfg_declaration_alternatives"@,
        "evidence_inspection"@,
        "exact_id_search"@,
        "repository_boundaries"@,
        "text_search"@,
        "typed_filters"@,
    ]
}

/// The security settings of the V5 explorer.
pub open spec fn security_v5() -> Seq<Seq<char>> {
    seq![
        "browser_launch"@,
        "content_security_policy"@,
        "dynamic_code"@,
        "network"@,
        "profile"@,
        "storage"@,
        "telemetry"@,
    ]
}

/// The viewer's digest is `expected` and the policy is allowed, or the
/// manifest is refused.
pub open spec fn viewer_refused<G: Fn(&[u8]) -> String>(sha256: G, viewer: Seq<u8>, expected: Seq<char>, csp: Seq<char>) -> bool {
    !csp_allowed(csp) || exists|d: Seq<char>| digest_of(sha256, viewer, d) && d != expected
}

/// Every digest `sha256` gives of `viewer` is `expected`.
pub open spec fn viewer_digest_is<G: Fn(&[u8]) -> String>(sha256: G, viewer: Seq<u8>, expected: Seq<char>) -> bool {
    forall|d: Seq<char>| digest_of(sha256, viewer, d) ==> d == expected
}

/// The offline V5 explorer manifest over a V5 portable graph and its
/// viewer page.
#[derive(Debug)]
pub struct LocalExplorerManifestV5 {
    value: Json,
}

impl LocalExplorerManifestV5 {
    /// The manifest document.
    pub closed spec fn document(&self) -> Json {
        self.value
    }

    /// Builds the manifest. The viewer must have the digest
    /// `expected_viewer_sha256` and the content-security policy must be
    /// allowed ([`csp_allowed`]); else `AssetIntegrityMismatch`.
    pub fn new<F: Fn(&[u8]) -> String, G: Fn(&[u8]) -> String>(
        portable: &PortableGraphV5<F>,
        viewer_bytes: &[u8],
        expected_viewer_sha256: &str,
        content_security_policy: &str,
        explorer_version: &str,
        sha256: G,
    ) -> (r: Result<Self, R12ContractError>)
        requires
            total_digest(sha256),
            total_digest(portable.digest_function()),
        ensures
            match r {
                Ok(m) => {
                    &&& digest_of(sha256, viewer_bytes@, expected_viewer_sha256@)
                    &&& csp_allowed(content_security_policy@)
                    &&& exists|g: Seq<char>|
                        digest_of(portable.digest_function(), portable.canonical_bytes().push(10u8), g)
                            && explorer_manifest(
                            m.document(),
                            explorer_version@,
                            g,
                            (portable.canonical_bytes().len() + 1) as u64,
                            expected_viewer_sha256@,
                            viewer_bytes@.len() as u64,
                            capabilities_v5(),
                            security_v5(),
                            R12_EXPLORER_SECURITY_PROFILE@,
                            content_security_policy@,
                            (MAX_R12_TEXT_SEARCH_RESULTS, R12_TRAVERSAL_DEPTH_DEFAULT, MAX_R12_TRAVERSAL_DEPTH),
                        )
                },
                Err(e) => e is AssetIntegrityMismatch && viewer_refused(
                    sha256,
                    viewer_bytes@,
                    expected_viewer_sha256@,
                    content_security_policy@,
                ),
            },
            csp_allowed(content_security_policy@) && viewer_digest_is(
                sha256,
                viewer_bytes@,
                expected_viewer_sha256@,
            ) ==> r is Ok,
    {
        if !digest_matches(&sha256, viewer_bytes, expected_viewer_sha256) || !csp_allowed_text(
            content_security_policy,
        ) {
            return Err(R12ContractError::AssetIntegrityMismatch);
        }
        let graph_digest = portable.canonical_sha256();
        let graph_len = portable.canonical_file().len() as u64;
        let capabilities = [
            "callable_occurrences",
            "cfg_declaration_alternatives",
            "evidence_inspection",
            "exact_id_search",
            "repository_boundaries",
            "text_search",
            "typed_filters",
        ];
        let security = [
            "browser_launch",
            "content_security_policy",
            "dynamic_code",
            "network",
            "profile",
            "storage",
            "telemetry",
        ];
        proof {
            assert(names_view(capabilities@) =~= capabilities_v5());
            assert(names_view(security@) =~= security_v5());
        }
        let value = explorer_manifest_json(
            explorer_version,
            graph_digest,
            graph_len,
            expected_viewer_sha256,
            viewer_bytes.len() as u64,
            &capabilities,
            &security,
            R12_EXPLORER_SECURITY_PROFILE,
            content_security_policy,
            (MAX_R12_TEXT_SEARCH_RESULTS, R12_TRAVERSAL_DEPTH_DEFAULT, MAX_R12_TRAVERSAL_DEPTH),
        );
        Ok(Self { value })
    }

    /// The manifest document.
    pub fn value(&self) -> (r: &Json)
        ensures
            *r == self.document(),
    {
        &self.value
    }

    /// The canonical manifest followed by one LF.
    pub fn canonical_file(&self) -> (r: Vec<u8>)
        ensures
            r@ == json_bytes(self.document()).push(10u8),
    {
        let mut bytes = to_bytes(&self.value);
        bytes.push(10u8);
        bytes
    }
}


/// The security settings of the explorers from V6 on that list capability
/// flags.
pub open spec fn security_v6() -> Seq<Seq<char>> {
    seq!["content_security_policy"@, "dynamic_code"@, "network"@, "profile"@, "storage"@, "telemetry"@]
}

/// The capability flags of the V6 and V7 explorers.
pub open spec fn capabilities_v6() -> Seq<Seq<char>> {
    seq!["evidence_inspection"@, "exact_id_search"@, "text_search"@, "typed_filters"@]
}

/// The capability flags of the V8 explorer.
pub open spec fn capabilities_v8() -> Seq<Seq<char>> {
    seq!["evidence_inspection"@, "exact_id_search"@, "local_flow_derivations"@, "text_search"@, "typed_filters"@]
}

/// The capability flags of the V9 explorer.
pub open spec fn capabilities_v9() -> Seq<Seq<char>> {
    seq![
        "constant_evaluation_derivations"@,
        "evidence_inspection"@,
        "exact_id_search"@,
        "local_flow_derivations"@,
        "text_search"@,
        "typed_filters"@,
    ]
}

/// The offline V6 explorer manifest over a V6 portable graph and its
/// viewer page.
#[derive(Debug)]
pub struct LocalExplorerManifestV6 {
    value: Json,
}

impl LocalExplorerManifestV6 {
    /// The manifest document.
    pub closed spec fn document(&self) -> Json {
        self.value
    }

    /// Builds the manifest. The viewer must have the digest
    /// `expected_viewer_sha256` and the content-security policy
    /// must be allowed ([`csp_allowed`]); else `AssetIntegrityMismatch`.
    pub fn new<F: Fn(&[u8]) -> String, G: Fn(&[u8]) -> String>(
        portable: &PortableGraphV6<F>,
        viewer_bytes: &[u8],
        expected_viewer_sha256: &str,
        content_security_policy: &str,
        explorer_version: &str,
        sha256: G,
    ) -> (r: Result<Self, R13ContractError>)
        requires
            total_digest(sha256),
            total_digest(portable.digest_function()),
        ensures
            match r {
                Ok(m) => {
                    &&& digest_of(sha256, viewer_bytes@, expected_viewer_sha256@)
                    &&& csp_allowed(content_security_policy@)
                    &&& exists|g: Seq<char>|
                        digest_of(portable.digest_function(), portable.canonical_bytes().push(10u8), g)
                            && explorer_manifest(
                            m.document(),
                            explorer_version@,
                            g,
                            (portable.canonical_bytes().len() + 1) as u64,
                            expected_viewer_sha256@,
                            viewer_bytes@.len() as u64,
                            capabilities_v6(),
                            security_v6(),
                            R13_EXPLORER_SECURITY_PROFILE@,
                            content_security_policy@,
                            (MAX_R13_TEXT_SEARCH_RESULTS, R13_TRAVERSAL_DEPTH_DEFAULT, MAX_R13_TRAVERSAL_DEPTH),
                        )
                },
                Err(e) => e is AssetIntegrityMismatch && (viewer_refused(
                    sha256,
                    viewer_bytes@,
                    expected_viewer_sha256@,
                    content_security_policy@,
                )),
            },
            csp_allowed(content_security_policy@) && viewer_digest_is(
                sha256,
                viewer_bytes@,
                expected_viewer_sha256@,
            ) ==> r is Ok,
    {
        if !digest_matches(&sha256, viewer_bytes, expected_viewer_sha256) || !csp_allowed_text(
            content_security_policy,
        ) {
            return Err(R13ContractError::AssetIntegrityMismatch);
        }
        let graph_digest = portable.canonical_sha256();
        let graph_len = portable.canonical_file().len() as u64;
        let capabilities = ["evidence_inspection", "exact_id_search", "text_search", "typed_filters"];
        let security = ["content_security_policy", "dynamic_code", "network", "profile", "storage", "telemetry"];
        proof {
            assert(names_view(capabilities@) =~= capabilities_v6());
            assert(names_view(security@) =~= security_v6());
        }
        let value = explorer_manifest_json(
            explorer_version,
            graph_digest,
            graph_len,
            expected_viewer_sha256,
            viewer_bytes.len() as u64,
            &capabilities,
            &security,
            R13_EXPLORER_SECURITY_PROFILE,
            content_security_policy,
            (MAX_R13_TEXT_SEARCH_RESULTS, R13_TRAVERSAL_DEPTH_DEFAULT, MAX_R13_TRAVERSAL_DEPTH),
        );
        Ok(Self { value })
    }

    /// The manifest document.
    pub fn value(&self) -> (r: &Json)
        ensures
            *r == self.document(),
    {
        &self.value
    }

    /// The canonical manifest followed by one LF.
    pub fn canonical_file(&self) -> (r: Vec<u8>)
        ensures
            r@ == json_bytes(self.document()).push(10u8),
    {
        let mut bytes = to_bytes(&self.value);
        bytes.push(10u8);
        bytes
    }
}

/// The offline V7 explorer manifest over a V7 portable graph and its
/// viewer page.
#[derive(Debug)]
pub struct LocalExplorerManifestV7 {
    value: Json,
}

impl LocalExplorerManifestV7 {
    /// The manifest document.
    pub closed spec fn document(&self) -> Json {
        self.value
    }

    /// Builds the manifest. The viewer must have the digest
    /// `expected_viewer_sha256` and balanced script elements and the content-security policy
    /// must be allowed ([`csp_allowed`]); else `AssetIntegrityMismatch`.
    pub fn new<F: Fn(&[u8]) -> String, G: Fn(&[u8]) -> String>(
        portable: &PortableGraphV7<F>,
        viewer_bytes: &[u8],
        expected_viewer_sha256: &str,
        content_security_policy: &str,
        explorer_version: &str,
        sha256: G,
    ) -> (r: Result<Self, R14ContractError>)
        requires
            total_digest(sha256),
            total_digest(portable.digest_function()),
        ensures
            match r {
                Ok(m) => {
                    &&& digest_of(sha256, viewer_bytes@, expected_viewer_sha256@)
                    &&& csp_allowed(content_security_policy@)
                    &&& balanced_scripts_rule(viewer_bytes@)
                    &&& exists|g: Seq<char>|
                        digest_of(portable.digest_function(), portable.canonical_bytes().push(10u8), g)
                            && explorer_manifest(
                            m.document(),
                            explorer_version@,
                            g,
                            (portable.canonical_bytes().len() + 1) as u64,
                            expected_viewer_sha256@,
                            viewer_bytes@.len() as u64,
                            capabilities_v6(),
                            security_v6(),
                            R14_EXPLORER_SECURITY_PROFILE@,
                            content_security_policy@,
                            (MAX_R14_TEXT_SEARCH_RESULTS, R14_TRAVERSAL_DEPTH_DEFAULT, MAX_R14_TRAVERSAL_DEPTH),
                        )
                },
                Err(e) => e is AssetIntegrityMismatch && (viewer_refused(
                    sha256,
                    viewer_bytes@,
                    expected_viewer_sha256@,
                    content_security_policy@,
                ) || !balanced_scripts_rule(viewer_bytes@)),
            },
            csp_allowed(content_security_policy@) && balanced_scripts_rule(viewer_bytes@) && viewer_digest_is(
                sha256,
                viewer_bytes@,
                expected_viewer_sha256@,
            ) ==> r is Ok,
    {
        if !digest_matches(&sha256, viewer_bytes, expected_viewer_sha256) || !csp_allowed_text(
            content_security_policy,
        ) || !balanced_script_elements(viewer_bytes) {
            return Err(R14ContractError::AssetIntegrityMismatch);
        }
        let graph_digest = portable.canonical_sha256();
        let graph_len = portable.canonical_file().len() as u64;
        let capabilities = ["evidence_inspection", "exact_id_search", "text_search", "typed_filters"];
        let security = ["content_security_policy", "dynamic_code", "network", "profile", "storage", "telemetry"];
        proof {
            assert(names_view(capabilities@) =~= capabilities_v6());
            assert(names_view(security@) =~= security_v6());
        }
        let value = explorer_manifest_json(
            explorer_version,
            graph_digest,
            graph_len,
            expected_viewer_sha256,
            viewer_bytes.len() as u64,
            &capabilities,
            &security,
            R14_EXPLORER_SECURITY_PROFILE,
            content_security_policy,
            (MAX_R14_TEXT_SEARCH_RESULTS, R14_TRAVERSAL_DEPTH_DEFAULT, MAX_R14_TRAVERSAL_DEPTH),
        );
        Ok(Self { value })
    }

    /// The manifest document.
    pub fn value(&self) -> (r: &Json)
        ensures
            *r == self.document(),
    {
        &self.value
    }

    /// The canonical manifest followed by one LF.
    pub fn canonical_file(&self) -> (r: Vec<u8>)
        ensures
            r@ == json_bytes(self.document()).push(10u8),
    {
        let mut bytes = to_bytes(&self.value);
        bytes.push(10u8);
        bytes
    }
}

/// The offline V8 explorer manifest over a V8 portable graph and its
/// viewer page.
#[derive(Debug)]
pub struct LocalExplorerManifestV8 {
    value: Json,
}

impl LocalExplorerManifestV8 {
    /// The manifest document.
    pub closed spec fn document(&self) -> Json {
        self.value
    }

    /// Builds the manifest. The viewer must have the digest
    /// `expected_viewer_sha256` and balanced script elements and the content-security policy
    /// must be allowed ([`csp_allowed`]); else `AssetIntegrityMismatch`.
    pub fn new<F: Fn(&[u8]) -> String, G: Fn(&[u8]) -> String>(
        portable: &PortableGraphV8<F>,
        viewer_bytes: &[u8],
        expected_viewer_sha256: &str,
        content_security_policy: &str,
        explorer_version: &str,
        sha256: G,
    ) -> (r: Result<Self, R15ContractError>)
        requires
            total_digest(sha256),
            total_digest(portable.digest_function()),
        ensures
            match r {
                Ok(m) => {
                    &&& digest_of(sha256, viewer_bytes@, expected_viewer_sha256@)
                    &&& csp_allowed(content_security_policy@)
                    &&& balanced_scripts_rule(viewer_bytes@)
                    &&& exists|g: Seq<char>|
                        digest_of(portable.digest_function(), portable.canonical_bytes().push(10u8), g)
                            && explorer_manifest(
                            m.document(),
                            explorer_version@,
                            g,
                            (portable.canonical_bytes().len() + 1) as u64,
                            expected_viewer_sha256@,
                            viewer_bytes@.len() as u64,
                            capabilities_v8(),
                            security_v6(),
                            R15_EXPLORER_SECURITY_PROFILE@,
                            content_security_policy@,
                            (MAX_R15_TEXT_SEARCH_RESULTS, R15_TRAVERSAL_DEPTH_DEFAULT, MAX_R15_TRAVERSAL_DEPTH),
                        )
                },
                Err(e) => e is AssetIntegrityMismatch && (viewer_refused(
                    sha256,
                    viewer_bytes@,
                    expected_viewer_sha256@,
                    content_security_policy@,
                ) || !balanced_scripts_rule(viewer_bytes@)),
            },
            csp_allowed(content_security_policy@) && balanced_scripts_rule(viewer_bytes@) && viewer_digest_is(
                sha256,
                viewer_bytes@,
                expected_viewer_sha256@,
            ) ==> r is Ok,
    {
        if !digest_matches(&sha256, viewer_bytes, expected_viewer_sha256) || !csp_allowed_text(
            content_security_policy,
        ) || !balanced_script_elements(viewer_bytes) {
            return Err(R15ContractError::AssetIntegrityMismatch);
        }
        let graph_digest = portable.canonical_sha256();
        let graph_len = portable.canonical_file().len() as u64;
        let capabilities = ["evidence_inspection", "exact_id_search", "local_flow_derivations", "text_search", "typed_filters"];
        let security = ["content_security_policy", "dynamic_code", "network", "profile", "storage", "telemetry"];
        proof {
            assert(names_view(capabilities@) =~= capabilities_v8());
            assert(names_view(security@) =~= security_v6());
        }
        let value = explorer_manifest_json(
            explorer_version,
            graph_digest,
            graph_len,
            expected_viewer_sha256,
            viewer_bytes.len() as u64,
            &capabilities,
            &security,
            R15_EXPLORER_SECURITY_PROFILE,
            content_security_policy,
            (MAX_R15_TEXT_SEARCH_RESULTS, R15_TRAVERSAL_DEPTH_DEFAULT, MAX_R15_TRAVERSAL_DEPTH),
        );
        Ok(Self { value })
    }

    /// The manifest document.
    pub fn value(&self) -> (r: &Json)
        ensures
            *r == self.document(),
    {
        &self.value
    }

    /// The canonical manifest followed by one LF.
    pub fn canonical_file(&self) -> (r: Vec<u8>)
        ensures
            r@ == json_bytes(self.document()).push(10u8),
    {
        let mut bytes = to_bytes(&self.value);
        bytes.push(10u8);
        bytes
    }
}

/// The offline V9 explorer manifest over a V9 portable graph and its
/// viewer page.
#[derive(Debug)]
pub struct LocalExplorerManifestV9 {
    value: Json,
}

impl LocalExplorerManifestV9 {
    /// The manifest document.
    pub closed spec fn document(&self) -> Json {
        self.value
    }

    /// Builds the manifest. The viewer must have the digest
    /// `expected_viewer_sha256`, balanced script elements and no unsafe
    /// content ([`safe_viewer_rule`]) and the content-security policy
    /// must be allowed ([`csp_allowed`]); else `AssetIntegrityMismatch`.
    pub fn new<F: Fn(&[u8]) -> String, G: Fn(&[u8]) -> String>(
        portable: &PortableGraphV9<F>,
        viewer_bytes: &[u8],
        expected_viewer_sha256: &str,
        content_security_policy: &str,
        explorer_version: &str,
        sha256: G,
    ) -> (r: Result<Self, R16ContractError>)
        requires
            total_digest(sha256),
            total_digest(portable.digest_function()),
        ensures
            match r {
                Ok(m) => {
                    &&& digest_of(sha256, viewer_bytes@, expected_viewer_sha256@)
                    &&& csp_allowed(content_security_policy@)
                    &&& balanced_scripts_rule(viewer_bytes@)
                    &&& safe_viewer_rule(viewer_bytes@)
                    &&& exists|g: Seq<char>|
                        digest_of(portable.digest_function(), portable.canonical_bytes().push(10u8), g)
                            && explorer_manifest(
                            m.document(),
                            explorer_version@,
                            g,
                            (portable.canonical_bytes().len() + 1) as u64,
                            expected_viewer_sha256@,
                            viewer_bytes@.len() as u64,
                            capabilities_v9(),
                            security_v6(),
                            R16_EXPLORER_SECURITY_PROFILE@,
                            content_security_policy@,
                            (MAX_R16_TEXT_SEARCH_RESULTS, R16_TRAVERSAL_DEPTH_DEFAULT, MAX_R16_TRAVERSAL_DEPTH),
                        )
                },
                Err(e) => e is AssetIntegrityMismatch && (viewer_refused(
                    sha256,
                    viewer_bytes@,
                    expected_viewer_sha256@,
                    content_security_policy@,
                ) || !balanced_scripts_rule(viewer_bytes@) || !safe_viewer_rule(viewer_bytes@)),
            },
            csp_allowed(content_security_policy@) && balanced_scripts_rule(viewer_bytes@) && safe_viewer_rule(viewer_bytes@) && viewer_digest_is(
                sha256,
                viewer_bytes@,
                expected_viewer_sha256@,
            ) ==> r is Ok,
    {
        if !digest_matches(&sha256, viewer_bytes, expected_viewer_sha256) || !csp_allowed_text(
            content_security_policy,
        ) || !balanced_script_elements(viewer_bytes) || !safe_viewer_bytes(viewer_bytes) {
            return Err(R16ContractError::AssetIntegrityMismatch);
        }
        let graph_digest = portable.canonical_sha256();
        let graph_len = portable.canonical_file().len() as u64;
        let capabilities = [
            "constant_evaluation_derivations",
            "evidence_inspection",
            "exact_id_search",
            "local_flow_derivations",
            "text_search",
            "typed_filters",
        ];
        let security = ["content_security_policy", "dynamic_code", "network", "profile", "storage", "telemetry"];
        proof {
            assert(names_view(capabilities@) =~= capabilities_v9());
            assert(names_view(security@) =~= security_v6());
        }
        let value = explorer_manifest_json(
            explorer_version,
            graph_digest,
            graph_len,
            expected_viewer_sha256,
            viewer_bytes.len() as u64,
            &capabilities,
            &security,
            R16_EXPLORER_SECURITY_PROFILE,
            content_security_policy,
            (MAX_R16_TEXT_SEARCH_RESULTS, R16_TRAVERSAL_DEPTH_DEFAULT, MAX_R16_TRAVERSAL_DEPTH),
        );
        Ok(Self { value })
    }

    /// The manifest document.
    pub fn value(&self) -> (r: &Json)
        ensures
            *r == self.document(),
    {
        &self.value
    }

    /// The canonical manifest followed by one LF.
    pub fn canonical_file(&self) -> (r: Vec<u8>)
        ensures
            r@ == json_bytes(self.document()).push(10u8),
    {
        let mut bytes = to_bytes(&self.value);
        bytes.push(10u8);
        bytes
    }
}


/// The capabilities the function-context explorer lists.
pub open spec fn capabilities_v10() -> Seq<Seq<char>> {
    seq![
        "bounded_svg_neighborhood"@,
        "call_navigation"@,
        "claim_inspection"@,
        "declared_signature_cards"@,
        "derivation_inspection"@,
        "diagnostic_inspection"@,
        "evidence_inspection"@,
        "exact_id_search"@,
        "function_search"@,
        "history_navigation"@,
        "parameter_navigation"@,
        "uncertainty_inspection"@,
    ]
}

/// The security settings of the function-context explorer.
pub open spec fn security_v10() -> Seq<Seq<char>> {
    seq![
        "clipboard"@,
        "content_security_policy"@,
        "dynamic_code"@,
        "inference"@,
        "mutation"@,
        "network"@,
        "process_execution"@,
        "profile"@,
        "repair"@,
        "source_access"@,
        "storage"@,
        "telemetry"@,
    ]
}

/// The limits of the function-context explorer.
pub open spec fn context_limits(j: Json) -> bool {
    &&& j is Object
    &&& member_count(j) == 5
    &&& value_member(j, 0, "function_search_results"@, Json::UInt(MAX_R17_FUNCTION_SEARCH_RESULTS))
    &&& value_member(j, 1, "navigation_history"@, Json::UInt(MAX_R17_NAVIGATION_HISTORY))
    &&& value_member(j, 2, "neighborhood_relationships"@, Json::UInt(MAX_R17_LINKED_RELATIONSHIPS))
    &&& value_member(j, 3, "neighborhood_subjects"@, Json::UInt(MAX_R17_LINKED_SUBJECTS))
    &&& value_member(j, 4, "portable_graph_bytes"@, Json::UInt(MAX_R16_PORTABLE_GRAPH_BYTES))
}

/// The function-context explorer manifest: its capability list, its entry
/// point, its limits, its portable graph (with the graph's schema
/// version), its profile, its schema version and its security settings.
pub open spec fn explorer_manifest_v10(
    j: Json,
    graph_version: Seq<char>,
    graph_digest: Seq<char>,
    graph_len: u64,
    viewer_digest: Seq<char>,
    viewer_len: u64,
    csp: Seq<char>,
) -> bool {
    &&& j is Object
    &&& member_count(j) == 7
    &&& member_at(j, 0, "capabilities"@) matches Some(c) && as_items(c) matches Some(items) && items.len()
        == capabilities_v10().len() && forall|k: int|
        0 <= k < items.len() ==> as_text(#[trigger] items[k]) == Some(capabilities_v10()[k])
    &&& member_at(j, 1, "entrypoint"@) matches Some(e) && file_entry(e, "index.html"@, viewer_digest, viewer_len)
    &&& member_at(j, 2, "limits"@) matches Some(l) && context_limits(l)
    &&& member_at(j, 3, "portable_graph"@) matches Some(p) && {
        &&& p is Object
        &&& member_count(p) == 4
        &&& value_member(p, 0, "byte_length"@, Json::UInt(graph_len))
        &&& text_member(p, 1, "path"@, "portable-graph.json"@)
        &&& text_member(p, 2, "schema_version"@, graph_version)
        &&& text_member(p, 3, "sha256"@, graph_digest)
    }
    &&& text_member(j, 4, "profile"@, R17_CONTEXT_PROFILE@)
    &&& text_member(j, 5, "schema_version"@, R17_LOCAL_EXPLORER_VERSION@)
    &&& member_at(j, 6, "security"@) matches Some(s) && security_settings(
        s,
        security_v10(),
        R17_EXPLORER_SECURITY_PROFILE@,
        csp,
    )
}

/// The offline function-context explorer manifest over a V9 portable graph
/// and its viewer page.
#[derive(Debug)]
pub struct LocalExplorerManifestV10 {
    value: Json,
}

impl LocalExplorerManifestV10 {
    /// The manifest document.
    pub closed spec fn document(&self) -> Json {
        self.value
    }

    /// Builds the manifest. The graph must declare `portable_graph_version`,
    /// the viewer must have the digest `expected_viewer_sha256` and be safe
    /// ([`r17_safe_viewer_rule`]), and the content-security policy must be
    /// safe ([`safe_csp_rule`]); else `AssetIntegrityMismatch`.
    pub fn new<F: Fn(&[u8]) -> String, G: Fn(&[u8]) -> String>(
        portable: &PortableGraphV9<F>,
        viewer_bytes: &[u8],
        expected_viewer_sha256: &str,
        content_security_policy: &str,
        portable_graph_version: &str,
        sha256: G,
    ) -> (r: Result<Self, R16ContractError>)
        requires
            total_digest(sha256),
            total_digest(portable.digest_function()),
        ensures
            match r {
                Ok(m) => {
                    &&& member_text(portable.document(), "schema_version"@) == Some(portable_graph_version@)
                    &&& digest_of(sha256, viewer_bytes@, expected_viewer_sha256@)
                    &&& r17_safe_viewer_rule(viewer_bytes@)
                    &&& safe_csp_rule(content_security_policy@)
                    &&& exists|g: Seq<char>|
                        digest_of(portable.digest_function(), portable.canonical_bytes().push(10u8), g)
                            && explorer_manifest_v10(
                            m.document(),
                            portable_graph_version@,
                            g,
                            (portable.canonical_bytes().len() + 1) as u64,
                            expected_viewer_sha256@,
                            viewer_bytes@.len() as u64,
                            content_security_policy@,
                        )
                },
                Err(e) => e is AssetIntegrityMismatch && {
                    ||| member_text(portable.document(), "schema_version"@) != Some(portable_graph_version@)
                    ||| exists|d: Seq<char>| digest_of(sha256, viewer_bytes@, d) && d != expected_viewer_sha256@
                    ||| !r17_safe_viewer_rule(viewer_bytes@)
                    ||| !safe_csp_rule(content_security_policy@)
                },
            },
            member_text(portable.document(), "schema_version"@) == Some(portable_graph_version@)
                && viewer_digest_is(sha256, viewer_bytes@, expected_viewer_sha256@) && r17_safe_viewer_rule(
                viewer_bytes@,
            ) && safe_csp_rule(content_security_policy@) ==> r is Ok,
    {
        let version_ok = match portable.value().get_str("schema_version") {
            Some(t) => text_eq(t, portable_graph_version),
            None => false,
        };
        if !version_ok || !digest_matches(&sha256, viewer_bytes, expected_viewer_sha256) || !safe_viewer(
            viewer_bytes,
        ) || !safe_content_security_policy(content_security_policy) {
            return Err(R16ContractError::AssetIntegrityMismatch);
        }
        let graph_digest = portable.canonical_sha256();
        let graph_len = portable.canonical_file().len() as u64;
        let capabilities = [
            "bounded_svg_neighborhood",
            "call_navigation",
            "claim_inspection",
            "declared_signature_cards",
            "derivation_inspection",
            "diagnostic_inspection",
            "evidence_inspection",
            "exact_id_search",
            "function_search",
            "history_navigation",
            "parameter_navigation",
            "uncertainty_inspection",
        ];
        let security = [
            "clipboard",
            "content_security_policy",
            "dynamic_code",
            "inference",
            "mutation",
            "network",
            "process_execution",
            "profile",
            "repair",
            "source_access",
            "storage",
            "telemetry",
        ];
        proof {
            assert(names_view(security@) =~= security_v10());
        }
        let capability_list = text_array(&capabilities);
        proof {
            let items = capability_list->Array_0@;
            assert forall|k: int| 0 <= k < items.len() implies as_text(#[trigger] items[k]) == Some(
                capabilities_v10()[k],
            ) by {
                assert(as_text(items[k]) == Some(capabilities@[k]@));
            }
        }
        let graph_entry = Json::Object(
            vec![
                entry("byte_length", Json::UInt(graph_len)),
                entry("path", Json::text("portable-graph.json")),
                entry("schema_version", Json::text(portable_graph_version)),
                entry("sha256", Json::Str(graph_digest)),
            ],
        );
        let limits = Json::Object(
            vec![
                entry("function_search_results", Json::UInt(MAX_R17_FUNCTION_SEARCH_RESULTS)),
                entry("navigation_history", Json::UInt(MAX_R17_NAVIGATION_HISTORY)),
                entry("neighborhood_relationships", Json::UInt(MAX_R17_LINKED_RELATIONSHIPS)),
                entry("neighborhood_subjects", Json::UInt(MAX_R17_LINKED_SUBJECTS)),
                entry("portable_graph_bytes", Json::UInt(MAX_R16_PORTABLE_GRAPH_BYTES)),
            ],
        );
        let value = Json::Object(
            vec![
                entry("capabilities", capability_list),
                entry("entrypoint", file_entry_json("index.html", expected_viewer_sha256.to_owned(), viewer_bytes.len() as u64)),
                entry("limits", limits),
                entry("portable_graph", graph_entry),
                entry("profile", Json::text(R17_CONTEXT_PROFILE)),
                entry("schema_version", Json::text(R17_LOCAL_EXPLORER_VERSION)),
                entry("security", security_json(&security, R17_EXPLORER_SECURITY_PROFILE, content_security_policy)),
            ],
        );
        Ok(Self { value })
    }

    /// The manifest document.
    pub fn value(&self) -> (r: &Json)
        ensures
            *r == self.document(),
    {
        &self.value
    }

    /// The canonical manifest followed by one LF.
    pub fn canonical_file(&self) -> (r: Vec<u8>)
        ensures
            r@ == json_bytes(self.document()).push(10u8),
    {
        let mut bytes = to_bytes(&self.value);
        bytes.push(10u8);
        bytes
    }
}

} // verus!
