//! What every portable export shares: binding the documentation manifest to
//! the snapshot head, flattening its documents and statements, and the
//! family digests of a projection.
use vstd::prelude::*;
use crate::json::{as_items, as_text, entry, json_copy, member, member_items, member_text, same_json, same_members, Json};
use crate::ordering::{is_arrangement, key_view, keys_of, ordered_keys, sort_keyed, SortKey};
use crate::s4_r18::{nested_text, LocalSnapshotHead};
use crate::text::{text_eq, text_less, text_lt};

verus! {

/// The manifest names the documentation schema and the head's repository,
/// snapshot and semantic hash.
pub open spec fn documentation_bound(manifest: Json, head: LocalSnapshotHead) -> bool {
    &&& member_text(manifest, "schema_version"@) == Some("codenoesis.documentation-manifest/v1"@)
    &&& member_text(manifest, "repository_identity"@) == Some(head.repository_identity@)
    &&& member_text(manifest, "snapshot_id"@) == Some(head.snapshot_id@)
    &&& nested_text(manifest, "snapshot_semantic_hash"@, "value"@) == Some(head.semantic_hash@)
}

/// Whether the manifest is bound to the head ([`documentation_bound`]).
pub fn documentation_binding(manifest: &Json, head: &LocalSnapshotHead) -> (r: bool)
    ensures
        r == documentation_bound(*manifest, *head),
{
    let schema_ok = match manifest.get_str("schema_version") {
        Some(t) => text_eq(t, "codenoesis.documentation-manifest/v1"),
        None => false,
    };
    let identity_ok = match manifest.get_str("repository_identity") {
        Some(t) => text_eq(t, head.repository_identity.as_str()),
        None => false,
    };
    let snapshot_ok = match manifest.get_str("snapshot_id") {
        Some(t) => text_eq(t, head.snapshot_id.as_str()),
        None => false,
    };
    let hash_ok = match manifest.get("snapshot_semantic_hash") {
        Some(h) => match h.get_str("value") {
            Some(t) => text_eq(t, head.semantic_hash.as_str()),
            None => false,
        },
        None => false,
    };
    schema_ok && identity_ok && snapshot_ok && hash_ok
}

/// The members of `fields` not named `name`, in order.
pub open spec fn drop_named(fields: Seq<(String, Json)>, name: Seq<char>) -> Seq<(String, Json)>
    decreases fields.len(),
{
    if fields.len() == 0 {
        Seq::empty()
    } else {
        let rest = drop_named(fields.drop_last(), name);
        if fields.last().0@ == name {
            rest
        } else {
            rest.push(fields.last())
        }
    }
}

/// Member-wise same members stay so with one more same member each.
proof fn lemma_same_members_push(a: Seq<(String, Json)>, b: Seq<(String, Json)>, x: (String, Json), y: (String, Json))
    requires
        same_members(a, b),
        x.0@ == y.0@,
        same_json(x.1, y.1),
    ensures
        same_members(a.push(x), b.push(y)),
{
    crate::json::lemma_same_members_pointwise(a, b);
    crate::json::lemma_same_members_pointwise(a.push(x), b.push(y));
    assert forall|k: int| 0 <= k < a.push(x).len() implies (#[trigger] a.push(x)[k]).0@ == b.push(y)[k].0@ && same_json(
        a.push(x)[k].1,
        b.push(y)[k].1,
    ) by {
        if k < a.len() {
            assert(a.push(x)[k] == a[k]);
            assert(b.push(y)[k] == b[k]);
        }
    }
}

/// Copies of the members of an object but those named `name`.
fn strip_member(fields: &Vec<(String, Json)>, name: &str) -> (r: Vec<(String, Json)>)
    ensures
        same_members(r@, drop_named(fields@, name@)),
{
    let mut out: Vec<(String, Json)> = Vec::new();
    let mut i: usize = 0;
    while i < fields.len()
        invariant
            i <= fields.len(),
            same_members(out@, drop_named(fields@.take(i as int), name@)),
        decreases fields.len() - i,
    {
        proof {
            assert(fields@.take(i + 1).drop_last() =~= fields@.take(i as int));
            assert(fields@.take(i + 1).last() == fields@[i as int]);
        }
        if !text_eq(fields[i].0.as_str(), name) {
            let n = fields[i].0.clone();
            let v = json_copy(&fields[i].1);
            let ghost before = out@;
            out.push((n, v));
            proof {
                lemma_same_members_push(before, drop_named(fields@.take(i as int), name@), (n, v), fields@[i as int]);
            }
        }
        i += 1;
    }
    proof {
        assert(fields@.take(i as int) =~= fields@);
    }
    out
}

/// The number of leading members whose names are below `key`: where the
/// names are in order, the position at which `key` belongs.
pub open spec fn names_below(fields: Seq<(String, Json)>, key: Seq<char>) -> int
    decreases fields.len(),
{
    if fields.len() == 0 {
        0
    } else if text_lt(fields[0].0@, key) {
        1 + names_below(fields.drop_first(), key)
    } else {
        0
    }
}

proof fn lemma_names_below(fields: Seq<(String, Json)>, key: Seq<char>)
    ensures
        0 <= names_below(fields, key) <= fields.len(),
        forall|j: int| 0 <= j < names_below(fields, key) ==> text_lt(#[trigger] fields[j].0@, key),
        names_below(fields, key) < fields.len() ==> !text_lt(fields[names_below(fields, key)].0@, key),
    decreases fields.len(),
{
    if fields.len() > 0 && text_lt(fields[0].0@, key) {
        lemma_names_below(fields.drop_first(), key);
        assert forall|j: int| 0 <= j < names_below(fields, key) implies text_lt(#[trigger] fields[j].0@, key) by {
            if j > 0 {
                assert(fields[j] == fields.drop_first()[j - 1]);
            }
        }
    }
}

/// `fs` is `gs` with the member `key` set to the text `text` at the place
/// where an ordered object keeps it: an existing member there is replaced,
/// else the member is inserted before the first name not below `key`;
/// every other member is the same.
pub open spec fn member_set(fs: Seq<(String, Json)>, gs: Seq<(String, Json)>, key: Seq<char>, text: Seq<char>) -> bool {
    let i = names_below(gs, key);
    if i < gs.len() && gs[i].0@ == key {
        &&& fs.len() == gs.len()
        &&& fs[i].0@ == key && as_text(fs[i].1) == Some(text)
        &&& forall|j: int| 0 <= j < gs.len() && j != i ==> (#[trigger] fs[j]).0@ == gs[j].0@ && same_json(fs[j].1, gs[j].1)
    } else {
        &&& fs.len() == gs.len() + 1
        &&& fs[i].0@ == key && as_text(fs[i].1) == Some(text)
        &&& forall|j: int| 0 <= j < i ==> (#[trigger] fs[j]).0@ == gs[j].0@ && same_json(fs[j].1, gs[j].1)
        &&& forall|j: int| i <= j < gs.len() ==> (#[trigger] fs[j + 1]).0@ == gs[j].0@ && same_json(fs[j + 1].1, gs[j].1)
    }
}

/// Copies of `fields` with the member `key` set to the text `text`
/// ([`member_set`]), as an ordered object's insert does.
fn with_text_member(fields: &Vec<(String, Json)>, key: &str, text: &str) -> (r: Vec<(String, Json)>)
    ensures
        member_set(r@, fields@, key@, text@),
{
    let ghost gs = fields@;
    proof {
        lemma_names_below(gs, key@);
    }
    let mut out: Vec<(String, Json)> = Vec::new();
    let mut i: usize = 0;
    while i < fields.len() && text_less(fields[i].0.as_str(), key)
        invariant
            gs == fields@,
            i <= fields.len(),
            i <= names_below(gs, key@),
            0 <= names_below(gs, key@) <= gs.len(),
            forall|j: int| 0 <= j < names_below(gs, key@) ==> text_lt(#[trigger] gs[j].0@, key@),
            names_below(gs, key@) < gs.len() ==> !text_lt(gs[names_below(gs, key@)].0@, key@),
            out@.len() == i,
            forall|j: int| 0 <= j < i ==> (#[trigger] out@[j]).0@ == gs[j].0@ && same_json(out@[j].1, gs[j].1),
        decreases fields.len() - i,
    {
        out.push((fields[i].0.clone(), json_copy(&fields[i].1)));
        i += 1;
    }
    let ghost at = i as int;
    proof {
        if at < names_below(gs, key@) {
            assert(text_lt(gs[at].0@, key@));
        }
        assert(at == names_below(gs, key@));
    }
    let replace = i < fields.len() && text_eq(fields[i].0.as_str(), key);
    out.push((key.to_owned(), Json::text(text)));
    let mut j: usize = if replace {
        i + 1
    } else {
        i
    };
    while j < fields.len()
        invariant
            gs == fields@,
            at == names_below(gs, key@),
            0 <= at <= j <= fields.len(),
            replace ==> at < gs.len() && gs[at].0@ == key@ && j >= at + 1,
            !replace ==> !(at < gs.len() && gs[at].0@ == key@),
            out@.len() == if replace {
                j as int
            } else {
                j + 1
            },
            out@[at].0@ == key@ && as_text(out@[at].1) == Some(text@),
            forall|m: int| 0 <= m < at ==> (#[trigger] out@[m]).0@ == gs[m].0@ && same_json(out@[m].1, gs[m].1),
            replace ==> forall|m: int|
                at < m < j ==> (#[trigger] out@[m]).0@ == gs[m].0@ && same_json(out@[m].1, gs[m].1),
            !replace ==> forall|m: int|
                at <= m < j ==> (#[trigger] out@[m + 1]).0@ == gs[m].0@ && same_json(out@[m + 1].1, gs[m].1),
        decreases fields.len() - j,
    {
        let ghost before = out@;
        let name = fields[j].0.clone();
        let value = json_copy(&fields[j].1);
        proof {
            assert(name@ == fields@[j as int].0@);
            assert(before.len() > at);
        }
        out.push((name, value));
        proof {
            assert(out@ == before.push((name, value)));
            assert(out@[at] == before[at]);
            assert forall|m: int| 0 <= m < before.len() implies #[trigger] out@[m] == before[m] by {}
        }
        j += 1;
    }
    out
}

/// A manifest document the export can take: an object with a textual
/// `document_id` and an array `statements` of objects.
pub open spec fn manifest_document_ok(d: Json) -> bool {
    &&& d is Object
    &&& member_text(d, "document_id"@) is Some
    &&& member_items(d, "statements"@) matches Some(ss) && forall|k: int| 0 <= k < ss.len() ==> (#[trigger] ss[k]) is Object
}

/// The documents of a manifest, where it has an array of documents the
/// export can take ([`manifest_document_ok`]).
pub open spec fn manifest_documents(manifest: Json) -> Option<Seq<Json>> {
    match member_items(manifest, "documents"@) {
        Some(ds) => if forall|k: int| 0 <= k < ds.len() ==> manifest_document_ok(#[trigger] ds[k]) {
            Some(ds)
        } else {
            None
        },
        None => None,
    }
}

/// The statements of documents, document by document, each with its
/// document's identifier.
pub open spec fn manifest_statements(ds: Seq<Json>) -> Seq<(Json, Seq<char>)>
    decreases ds.len(),
{
    if ds.len() == 0 {
        Seq::empty()
    } else {
        let d = ds.last();
        let ss = member_items(d, "statements"@).unwrap();
        let id = member_text(d, "document_id"@).unwrap();
        manifest_statements(ds.drop_last()) + Seq::new(ss.len(), |k: int| (ss[k], id))
    }
}

/// `d` is the manifest document `src` without its statements.
pub open spec fn document_record(d: Json, src: Json) -> bool {
    d matches Json::Object(fs) && src matches Json::Object(gs) && same_members(fs@, drop_named(gs@, "statements"@))
}

/// `s` is the manifest statement `src` with the document identifier `id`
/// set ([`member_set`]).
pub open spec fn statement_record(s: Json, src: Json, id: Seq<char>) -> bool {
    s matches Json::Object(fs) && src matches Json::Object(gs) && member_set(fs@, gs@, "document_id"@, id)
}

/// `p` arranges the positions `0..n`, each once.
pub open spec fn arranges(p: Seq<int>, n: nat) -> bool {
    &&& p.len() == n
    &&& forall|k: int| 0 <= k < n ==> 0 <= #[trigger] p[k] < n
    &&& forall|i: int, j: int| 0 <= i < j < n ==> #[trigger] p[i] != #[trigger] p[j]
}

/// `docs` are the manifest documents `ds` without their statements, the
/// `k`-th from `ds[p[k]]`, in non-decreasing order of `document_id`.
pub open spec fn documents_arranged(docs: Seq<Json>, ds: Seq<Json>, p: Seq<int>) -> bool {
    &&& arranges(p, ds.len())
    &&& docs.len() == ds.len()
    &&& forall|k: int| 0 <= k < docs.len() ==> document_record(#[trigger] docs[k], ds[p[k]])
    &&& forall|i: int, j: int|
        0 <= i < j < docs.len() ==> !text_lt(
            member_text(ds[#[trigger] p[j]], "document_id"@).unwrap(),
            member_text(ds[#[trigger] p[i]], "document_id"@).unwrap(),
        )
}

/// The portable documents of the manifest documents `ds`
/// ([`documents_arranged`]).
pub open spec fn portable_documents_of(docs: Seq<Json>, ds: Seq<Json>) -> bool {
    exists|p: Seq<int>| #[trigger] documents_arranged(docs, ds, p)
}

/// `stmts` are the statements of the manifest documents `ds`, each with its
/// document's identifier set, the `k`-th from the `p[k]`-th of
/// [`manifest_statements`], in non-decreasing order of `statement_id` (one
/// without it first).
pub open spec fn statements_arranged(stmts: Seq<Json>, ds: Seq<Json>, p: Seq<int>) -> bool {
    let ss = manifest_statements(ds);
    &&& arranges(p, ss.len())
    &&& stmts.len() == ss.len()
    &&& forall|k: int| 0 <= k < stmts.len() ==> statement_record(#[trigger] stmts[k], ss[p[k]].0, ss[p[k]].1)
    &&& forall|i: int, j: int|
        0 <= i < j < stmts.len() ==> !crate::ordering::text_opt_lt(
            member_text(ss[#[trigger] p[j]].0, "statement_id"@),
            member_text(ss[#[trigger] p[i]].0, "statement_id"@),
        )
}

/// The portable statements of the manifest documents `ds`
/// ([`statements_arranged`]).
pub open spec fn portable_statements_of(stmts: Seq<Json>, ds: Seq<Json>) -> bool {
    exists|p: Seq<int>| #[trigger] statements_arranged(stmts, ds, p)
}

/// The documents and statements of a documentation manifest: `None` where
/// its documents are not an array of documents the export can take
/// ([`manifest_documents`]); else the documents without their statements
/// ([`portable_documents_of`]) and all statements, each with its document's
/// identifier ([`portable_statements_of`]).
pub fn portable_documents(manifest: &Json) -> (r: Option<(Vec<Json>, Vec<Json>)>)
    ensures
        match manifest_documents(*manifest) {
            None => r is None,
            Some(ds) => r matches Some((docs, stmts)) && portable_documents_of(docs@, ds)
                && portable_statements_of(stmts@, ds),
        },
{
    let ds = match manifest.get_array("documents") {
        Some(v) => v,
        None => return None,
    };
    let ghost dsv = ds@;
    let ghost mut src_stmts: Seq<(Json, Seq<char>)> = Seq::empty();
    let mut docs_keyed: Vec<(SortKey, Json)> = Vec::new();
    let mut stmts_keyed: Vec<(SortKey, Json)> = Vec::new();
    let mut k: usize = 0;
    while k < ds.len()
        invariant
            dsv == ds@,
            member_items(*manifest, "documents"@) == Some(dsv),
            k <= ds.len(),
            forall|m: int| 0 <= m < k ==> manifest_document_ok(#[trigger] dsv[m]),
            src_stmts == manifest_statements(dsv.take(k as int)),
            docs_keyed@.len() == k,
            forall|m: int|
                0 <= m < k ==> document_record((#[trigger] docs_keyed@[m]).1, dsv[m]) && key_view(docs_keyed@[m].0) == (
                    None::<u64>,
                    member_text(dsv[m], "document_id"@),
                ),
            stmts_keyed@.len() == src_stmts.len(),
            forall|m: int|
                0 <= m < src_stmts.len() ==> statement_record((#[trigger] stmts_keyed@[m]).1, src_stmts[m].0, src_stmts[m].1)
                    && key_view(stmts_keyed@[m].0) == (None::<u64>, member_text(src_stmts[m].0, "statement_id"@)),
        decreases ds.len() - k,
    {
        let d = &ds[k];
        let fields = match d {
            Json::Object(f) => f,
            _ => return None,
        };
        let id = match d.get_str("document_id") {
            Some(t) => t,
            None => return None,
        };
        let ss = match d.get_array("statements") {
            Some(v) => v,
            None => return None,
        };
        let ghost before = src_stmts;
        let mut j: usize = 0;
        while j < ss.len()
            invariant
                j <= ss.len(),
                dsv == ds@,
                k < dsv.len(),
                member_items(*manifest, "documents"@) == Some(dsv),
                member_items(dsv[k as int], "statements"@) == Some(ss@),
                src_stmts == before + Seq::new(j as nat, |t: int| (ss@[t], id@)),
                forall|t: int| 0 <= t < j ==> (#[trigger] ss@[t]) is Object,
                stmts_keyed@.len() == src_stmts.len(),
                forall|m: int|
                    0 <= m < src_stmts.len() ==> statement_record(
                        (#[trigger] stmts_keyed@[m]).1,
                        src_stmts[m].0,
                        src_stmts[m].1,
                    ) && key_view(stmts_keyed@[m].0) == (None::<u64>, member_text(src_stmts[m].0, "statement_id"@)),
            decreases ss.len() - j,
        {
            let sf = match &ss[j] {
                Json::Object(f) => f,
                _ => {
                    proof {
                        assert(!manifest_document_ok(dsv[k as int]));
                    }
                    return None;
                },
            };
            let out = with_text_member(sf, "document_id", id);
            let key = match ss[j].get_str("statement_id") {
                Some(t) => Some(t.to_owned()),
                None => None,
            };
            let ghost kb = stmts_keyed@;
            stmts_keyed.push((SortKey { rank: None, text: key }, Json::Object(out)));
            proof {
                assert(src_stmts.push((ss@[j as int], id@)) =~= before + Seq::new((j + 1) as nat, |t: int| (ss@[t], id@)));
                src_stmts = src_stmts.push((ss@[j as int], id@));
                assert forall|m: int| 0 <= m < src_stmts.len() implies statement_record(
                    (#[trigger] stmts_keyed@[m]).1,
                    src_stmts[m].0,
                    src_stmts[m].1,
                ) && key_view(stmts_keyed@[m].0) == (None::<u64>, member_text(src_stmts[m].0, "statement_id"@)) by {
                    if m < kb.len() {
                        assert(stmts_keyed@[m] == kb[m]);
                    }
                }
            }
            j += 1;
        }
        let stripped = strip_member(fields, "statements");
        docs_keyed.push((SortKey { rank: None, text: Some(id.to_owned()) }, Json::Object(stripped)));
        proof {
            assert(manifest_document_ok(dsv[k as int]));
            assert(dsv.take(k + 1).drop_last() =~= dsv.take(k as int));
            assert(dsv.take(k + 1).last() == dsv[k as int]);
            assert(Seq::new(j as nat, |t: int| (ss@[t], id@)) =~= Seq::new(
                member_items(dsv[k as int], "statements"@).unwrap().len(),
                |t: int| (member_items(dsv[k as int], "statements"@).unwrap()[t], member_text(dsv[k as int], "document_id"@).unwrap()),
            ));
        }
        k += 1;
    }
    proof {
        assert(dsv.take(k as int) =~= dsv);
        assert(manifest_documents(*manifest) == Some(dsv));
    }
    let ghost dk = docs_keyed@;
    let ghost sk = stmts_keyed@;
    let (docs_sorted, dp) = sort_keyed(docs_keyed);
    let (stmts_sorted, sp) = sort_keyed(stmts_keyed);
    let ghost dsorted = docs_sorted@;
    let ghost ssorted = stmts_sorted@;
    let docs = crate::context::strip_keys(docs_sorted);
    let stmts = crate::context::strip_keys(stmts_sorted);
    proof {
        assert forall|m: int| 0 <= m < docs@.len() implies document_record(#[trigger] docs@[m], dsv[dp@[m]]) by {
            assert(docs@[m] == dsorted[m].1);
            assert(dsorted[m] == dk[dp@[m]]);
        }
        assert forall|i: int, j: int| 0 <= i < j < docs@.len() implies !text_lt(
            member_text(dsv[#[trigger] dp@[j]], "document_id"@).unwrap(),
            member_text(dsv[#[trigger] dp@[i]], "document_id"@).unwrap(),
        ) by {
            assert(!crate::ordering::key_lt(keys_of(dsorted)[j], keys_of(dsorted)[i]));
            assert(dsorted[i] == dk[dp@[i]]);
            assert(dsorted[j] == dk[dp@[j]]);
        }
        assert(arranges(dp@, dsv.len()));
        assert(documents_arranged(docs@, dsv, dp@));
        assert forall|m: int| 0 <= m < stmts@.len() implies statement_record(
            #[trigger] stmts@[m],
            src_stmts[sp@[m]].0,
            src_stmts[sp@[m]].1,
        ) by {
            assert(stmts@[m] == ssorted[m].1);
            assert(ssorted[m] == sk[sp@[m]]);
        }
        assert forall|i: int, j: int| 0 <= i < j < stmts@.len() implies !crate::ordering::text_opt_lt(
            member_text(src_stmts[#[trigger] sp@[j]].0, "statement_id"@),
            member_text(src_stmts[#[trigger] sp@[i]].0, "statement_id"@),
        ) by {
            assert(!crate::ordering::key_lt(keys_of(ssorted)[j], keys_of(ssorted)[i]));
            assert(ssorted[i] == sk[sp@[i]]);
            assert(ssorted[j] == sk[sp@[j]]);
        }
        assert(arranges(sp@, src_stmts.len()));
        assert(statements_arranged(stmts@, dsv, sp@));
    }
    Some((docs, stmts))
}

/// The digest function's answer for the canonical bytes of `x`.
pub fn digest_of_value<F: Fn(&[u8]) -> String>(x: &Json, sha256: &F) -> (r: String)
    requires
        crate::s4_r18::total_digest(*sha256),
    ensures
        crate::s4_r18::digest_of(*sha256, crate::json::json_bytes(*x), r@),
{
    let bytes = crate::json::to_bytes(x);
    let slice = bytes.as_slice();
    let digest = sha256(slice);
    proof {
        assert(call_ensures(*sha256, (slice,), digest));
    }
    digest
}

/// A copy of the member `key` of `j`.
pub fn copied_member(j: &Json, key: &str) -> (r: Option<Json>)
    ensures
        match member(*j, key@) {
            Some(x) => r matches Some(c) && same_json(c, x),
            None => r is None,
        },
{
    match j.get(key) {
        Some(x) => Some(json_copy(x)),
        None => None,
    }
}

/// Member `i` of `j` is named `name` and holds a copy of `x`.
pub open spec fn copy_member(j: Json, i: int, name: Seq<char>, x: Option<Json>) -> bool {
    crate::json::member_at(j, i, name) matches Some(v) && x matches Some(y) && same_json(v, y)
}

/// Member `i` of `j` is named `name` and holds a digest answer `d` of the
/// digest function for the canonical bytes of member `at` of `doc`.
pub open spec fn digest_member<F: Fn(&[u8]) -> String>(j: Json, i: int, name: Seq<char>, d: Seq<char>, doc: Json, at: int, f: F) -> bool {
    &&& crate::explorer::text_member(j, i, name, d)
    &&& crate::json::member_at(doc, at, name) matches Some(x) && crate::s4_r18::digest_of(f, crate::json::json_bytes(x), d)
}

} // verus!
