//! The function context of one callable: its signature, parameters, body
//! facts, calls, linked claims, evidence and uncertainty, projected from a
//! validated V18 snapshot.
use vstd::prelude::*;
use crate::json::{as_items, as_text, json_copy, json_text, member, member_items, member_text, member_u64, same_json, to_text, Json};
use crate::ordering::{
    distinct_keys, is_arrangement, key_lt, key_view, keys_of, ordered_keys, sort_distinct, sort_keyed, SortKey,
};
use crate::portable::texts;
use crate::s4_r17::{required_string, required_text, FunctionContextError};
use crate::text::{text_eq, text_lt};
use crate::textset::{insert_text, lemma_sorted_no_duplicates, sorted_texts};
use crate::portable::contains_text;
use crate::s4_r17::{collect_evidence_ids, contains_selected_reference, selected_uncertainty, validate_claim_subjects};
use crate::json::{entry, names_view, text_at, first_finding, json_bytes, member_at, member_count, text_array, to_bytes, FindingView};
use crate::s4_r17::{
    display_signature, r17_private_fields, signature_text, validate_function_context_limits,
    validate_function_context_output_bytes, validate_private_fields, FunctionContextCounts,
    MAX_R17_CONTEXT_OUTPUT_BYTES, R17_FUNCTION_CONTEXT_VERSION,
};
use crate::s4_r18::{nested_text, LocalSnapshotHead, SnapshotVersions};
use crate::explorer::{text_member, value_member};

verus! {

/// The identifier of a record.
pub open spec fn id_of(record: Json) -> Option<Seq<char>> {
    member_text(record, "id"@)
}

/// Every record has an identifier and no two records share one.
pub open spec fn identified(records: Seq<Json>) -> bool {
    &&& forall|k: int| 0 <= k < records.len() ==> (#[trigger] id_of(records[k])) is Some
    &&& forall|i: int, j: int| 0 <= i < j < records.len() ==> #[trigger] id_of(records[i]) != #[trigger] id_of(
        records[j],
    )
}

/// The identifiers of identified records, in order.
pub open spec fn ids_of(records: Seq<Json>) -> Seq<Seq<char>> {
    records.map_values(|r: Json| id_of(r).unwrap())
}

/// The records of `family`, when it is an array of identified records.
pub open spec fn identified_family(graph: Json, family: Seq<char>) -> Option<Seq<Json>> {
    match member_items(graph, family) {
        Some(records) => if identified(records) {
            Some(records)
        } else {
            None
        },
        None => None,
    }
}

/// The identifiers of the records of `family`: the family must be an array
/// of records that each have an identifier, no two the same; anything else
/// is an invalid snapshot.
pub fn family_ids(graph: &Json, family: &str) -> (r: Result<Vec<String>, FunctionContextError>)
    ensures
        match identified_family(*graph, family@) {
            Some(records) => r matches Ok(ids) && texts(ids@) == ids_of(records),
            None => r matches Err(FunctionContextError::InvalidSnapshot),
        },
{
    let records = match graph.get_array(family) {
        Some(records) => records,
        None => return Err(FunctionContextError::InvalidSnapshot),
    };
    let mut ids: Vec<String> = Vec::new();
    let mut seen: Vec<String> = Vec::new();
    let mut k: usize = 0;
    while k < records.len()
        invariant
            k <= records.len(),
            member_items(*graph, family@) == Some(records@),
            ids@.len() == k,
            sorted_texts(texts(seen@)),
            forall|m: int| 0 <= m < k ==> (#[trigger] id_of(records@[m])) == Some(ids@[m]@),
            forall|i: int, j: int| 0 <= i < j < k ==> #[trigger] id_of(records@[i]) != #[trigger] id_of(records@[j]),
            forall|x: Seq<char>| #[trigger] texts(seen@).contains(x) <==> exists|m: int| 0 <= m < k && ids@[m]@ == x,
        decreases records.len() - k,
    {
        let id = match records[k].get_str("id") {
            Some(t) => t,
            None => {
                proof {
                    assert(id_of(records@[k as int]) is None);
                    assert(!identified(records@));
                }
                return Err(FunctionContextError::InvalidSnapshot);
            },
        };
        let ghost before = texts(seen@);
        if !insert_text(&mut seen, id) {
            proof {
                let m = choose|m: int| 0 <= m < k && ids@[m]@ == id@;
                assert(id_of(records@[m]) == id_of(records@[k as int]));
                assert(!identified(records@));
            }
            return Err(FunctionContextError::InvalidSnapshot);
        }
        let ghost old_ids = ids@;
        ids.push(id.to_owned());
        proof {
            assert forall|x: Seq<char>| #[trigger] texts(seen@).contains(x) <==> exists|m: int|
                0 <= m < k + 1 && ids@[m]@ == x by {
                if x == id@ {
                    assert(ids@[k as int]@ == x);
                }
                if before.contains(x) {
                    let m = choose|m: int| 0 <= m < k && old_ids[m]@ == x;
                    assert(ids@[m] == old_ids[m]);
                }
                if exists|m: int| 0 <= m < k + 1 && ids@[m]@ == x {
                    let m = choose|m: int| 0 <= m < k + 1 && ids@[m]@ == x;
                    if m < k {
                        assert(ids@[m] == old_ids[m]);
                        assert(before.contains(x));
                    }
                }
            }
            assert forall|i: int, j: int| 0 <= i < j < k + 1 implies #[trigger] id_of(records@[i])
                != #[trigger] id_of(records@[j]) by {
                if j == k {
                    if id_of(records@[i]) == id_of(records@[j]) {
                        assert(ids@[i]@ == id@);
                        assert(before.contains(id@));
                    }
                }
            }
        }
        k += 1;
    }
    proof {
        assert(texts(ids@) =~= ids_of(records@));
    }
    Ok(ids)
}

/// The position of `id` among `ids`.
pub fn position_of(ids: &[String], id: &str) -> (r: Option<usize>)
    ensures
        match r {
            Some(k) => k < ids@.len() && ids@[k as int]@ == id@,
            None => !texts(ids@).contains(id@),
        },
{
    let mut k: usize = 0;
    while k < ids.len()
        invariant
            k <= ids.len(),
            forall|m: int| 0 <= m < k ==> ids@[m]@ != id@,
        decreases ids.len() - k,
    {
        if text_eq(ids[k].as_str(), id) {
            return Some(k);
        }
        k += 1;
    }
    proof {
        if texts(ids@).contains(id@) {
            let m = choose|m: int| 0 <= m < texts(ids@).len() && texts(ids@)[m] == id@;
            assert(ids@[m]@ == id@);
        }
    }
    None
}

/// The record of an identified family with the identifier `id`.
pub open spec fn record_with_id(records: Seq<Json>, id: Seq<char>) -> Option<Json> {
    if exists|k: int| 0 <= k < records.len() && #[trigger] id_of(records[k]) == Some(id) {
        Some(records[choose|k: int| 0 <= k < records.len() && #[trigger] id_of(records[k]) == Some(id)])
    } else {
        None
    }
}

/// In an identified family, the record found at a position with the
/// identifier is the record with that identifier.
pub proof fn lemma_record_with_id(records: Seq<Json>, k: int)
    requires
        identified(records),
        0 <= k < records.len(),
    ensures
        record_with_id(records, id_of(records[k]).unwrap()) == Some(records[k]),
{
    let id = id_of(records[k]).unwrap();
    assert(id_of(records[k]) == Some(id));
    let c = choose|c: int| 0 <= c < records.len() && #[trigger] id_of(records[c]) == Some(id);
    if c != k {
        if c < k {
            assert(id_of(records[c]) != id_of(records[k]));
        } else {
            assert(id_of(records[k]) != id_of(records[c]));
        }
    }
}

/// Looks up the record with the identifier `id` in an identified family
/// whose identifiers are `ids`; a missing record is a dangling reference.
pub fn entity_with_id<'a>(records: &'a [Json], ids: &[String], id: &str) -> (r: Result<
    &'a Json,
    FunctionContextError,
>)
    requires
        identified(records@),
        texts(ids@) == ids_of(records@),
    ensures
        match record_with_id(records@, id@) {
            Some(e) => r matches Ok(x) && *x == e,
            None => r matches Err(FunctionContextError::DanglingReference(s)) && s@ == id@,
        },
{
    match position_of(ids, id) {
        Some(k) => {
            proof {
                assert(texts(ids@)[k as int] == ids@[k as int]@);
                assert(ids_of(records@).len() == records@.len());
                assert(ids_of(records@)[k as int] == id_of(records@[k as int]).unwrap());
                lemma_record_with_id(records@, k as int);
            }
            Ok(&records[k])
        },
        None => {
            proof {
                if exists|k: int| 0 <= k < records@.len() && #[trigger] id_of(records@[k]) == Some(id@) {
                    let k = choose|k: int| 0 <= k < records@.len() && #[trigger] id_of(records@[k]) == Some(id@);
                    assert(texts(ids@)[k] == ids_of(records@)[k]);
                    assert(texts(ids@).contains(id@));
                }
            }
            Err(FunctionContextError::DanglingReference(id.to_owned()))
        },
    }
}

/// A relationship of `kind` whose `field` is `endpoint`.
pub open spec fn links(r: Json, kind: Seq<char>, field: Seq<char>, endpoint: Seq<char>) -> bool {
    member_text(r, "kind"@) == Some(kind) && member_text(r, field) == Some(endpoint)
}

/// The positions, in order, of the relationships of `kind` whose `field` is
/// `endpoint`.
pub open spec fn link_positions(rels: Seq<Json>, kind: Seq<char>, field: Seq<char>, endpoint: Seq<char>) -> Seq<int>
    decreases rels.len(),
{
    if rels.len() == 0 {
        Seq::empty()
    } else {
        let rest = link_positions(rels.drop_last(), kind, field, endpoint);
        if links(rels.last(), kind, field, endpoint) {
            rest.push(rels.len() - 1)
        } else {
            rest
        }
    }
}

/// The positions of the relationships of `kind` whose `field` is `endpoint`
/// ([`link_positions`]).
pub fn linked_positions(rels: &[Json], kind: &str, field: &str, endpoint: &str) -> (r: Vec<usize>)
    ensures
        r@.map_values(|k: usize| k as int) == link_positions(rels@, kind@, field@, endpoint@),
{
    let mut out: Vec<usize> = Vec::new();
    let mut k: usize = 0;
    while k < rels.len()
        invariant
            k <= rels.len(),
            out@.map_values(|k: usize| k as int) == link_positions(rels@.take(k as int), kind@, field@, endpoint@),
        decreases rels.len() - k,
    {
        proof {
            assert(rels@.take(k + 1).drop_last() =~= rels@.take(k as int));
            assert(rels@.take(k + 1).last() == rels@[k as int]);
        }
        let ghost before = out@;
        let kind_ok = match rels[k].get_str("kind") {
            Some(t) => text_eq(t, kind),
            None => false,
        };
        let end_ok = match rels[k].get_str(field) {
            Some(t) => text_eq(t, endpoint),
            None => false,
        };
        if kind_ok && end_ok {
            out.push(k);
            proof {
                assert(out@.map_values(|k: usize| k as int) =~= before.map_values(|k: usize| k as int).push(k as int));
            }
        }
        k += 1;
    }
    proof {
        assert(rels@.take(k as int) =~= rels@);
    }
    out
}

/// Every position that [`link_positions`] lists is a position of a
/// relationship of that kind and endpoint, and they increase.
pub proof fn lemma_link_positions(rels: Seq<Json>, kind: Seq<char>, field: Seq<char>, endpoint: Seq<char>)
    ensures
        forall|k: int|
            0 <= k < link_positions(rels, kind, field, endpoint).len() ==> {
                let p = #[trigger] link_positions(rels, kind, field, endpoint)[k];
                0 <= p < rels.len() && links(rels[p], kind, field, endpoint)
            },
        forall|i: int, j: int|
            0 <= i < j < link_positions(rels, kind, field, endpoint).len() ==> #[trigger] link_positions(
                rels,
                kind,
                field,
                endpoint,
            )[i] < #[trigger] link_positions(rels, kind, field, endpoint)[j],
        forall|p: int|
            0 <= p < rels.len() && links(rels[p], kind, field, endpoint) ==> link_positions(
                rels,
                kind,
                field,
                endpoint,
            ).contains(p),
    decreases rels.len(),
{
    if rels.len() > 0 {
        let init = rels.drop_last();
        lemma_link_positions(init, kind, field, endpoint);
        let rest = link_positions(init, kind, field, endpoint);
        assert forall|k: int| 0 <= k < rest.len() implies rels[#[trigger] rest[k]] == init[rest[k]] by {}
        assert forall|p: int| 0 <= p < rels.len() && links(rels[p], kind, field, endpoint) implies link_positions(
            rels,
            kind,
            field,
            endpoint,
        ).contains(p) by {
            if p < rels.len() - 1 {
                assert(init[p] == rels[p]);
                assert(links(init[p], kind, field, endpoint));
                assert(rest.contains(p));
                let k = choose|k: int| 0 <= k < rest.len() && rest[k] == p;
                if links(rels.last(), kind, field, endpoint) {
                    assert(rest.push(rels.len() - 1)[k] == p);
                }
            } else {
                assert(rest.push(rels.len() - 1)[rest.len() as int] == p);
            }
        }
    }
}


/// The records with their keys removed.
pub open spec fn records_of(s: Seq<(SortKey, Json)>) -> Seq<Json> {
    s.map_values(|p: (SortKey, Json)| p.1)
}

pub(crate) fn strip_keys(items: Vec<(SortKey, Json)>) -> (r: Vec<Json>)
    ensures
        r@ == records_of(items@),
{
    let ghost original = items@;
    let mut rest = items;
    let mut reversed: Vec<Json> = Vec::new();
    while rest.len() > 0
        invariant
            rest@.len() + reversed@.len() == original.len(),
            forall|k: int| 0 <= k < rest@.len() ==> #[trigger] rest@[k] == original[k],
            forall|k: int| 0 <= k < reversed@.len() ==> #[trigger] reversed@[k] == original[original.len() - 1 - k].1,
        decreases rest@.len(),
    {
        let (_, record) = rest.pop().unwrap();
        reversed.push(record);
    }
    let mut out: Vec<Json> = Vec::new();
    while reversed.len() > 0
        invariant
            reversed@.len() + out@.len() == original.len(),
            forall|k: int| 0 <= k < reversed@.len() ==> #[trigger] reversed@[k] == original[original.len() - 1 - k].1,
            forall|k: int| 0 <= k < out@.len() ==> #[trigger] out@[k] == original[k].1,
        decreases reversed@.len(),
    {
        let record = reversed.pop().unwrap();
        out.push(record);
    }
    assert(out@ =~= records_of(original));
    out
}

/// No two records hold the same text under `field`.
pub open spec fn distinct_texts(s: Seq<Json>, field: Seq<char>) -> bool {
    forall|i: int, j: int| 0 <= i < j < s.len() ==> member_text(#[trigger] s[i], field) != member_text(#[trigger] s[j], field)
}

/// No two records have the same canonical text.
pub open spec fn distinct_canonical_texts(s: Seq<Json>) -> bool {
    forall|i: int, j: int| 0 <= i < j < s.len() ==> json_text(#[trigger] s[i]) != json_text(#[trigger] s[j])
}

/// Records sorted by the text under `field`, which each must hold (else an
/// invalid snapshot) and no two the same (else an invalid relationship).
pub open spec fn sorted_by_text(s: Seq<Json>, field: Seq<char>) -> bool {
    forall|i: int, j: int|
        0 <= i < j < s.len() ==> text_lt(
            member_text(#[trigger] s[i], field).unwrap(),
            member_text(#[trigger] s[j], field).unwrap(),
        )
}

/// Sorts records by the text under `field`: every record must hold one
/// (else `InvalidSnapshot`) and no two the same (else
/// `InvalidRelationship`); the result arranges the same records in strictly
/// increasing order of that text.
pub fn sort_by_string_field(values: Vec<Json>, field: &str) -> (r: Result<Vec<Json>, FunctionContextError>)
    ensures
        (exists|k: int| 0 <= k < values@.len() && member_text(#[trigger] values@[k], field@) is None) ==> r matches Err(
            FunctionContextError::InvalidSnapshot,
        ),
        r matches Ok(v) ==> v@.len() == values@.len() && sorted_by_text(v@, field@) && (forall|k: int|
            0 <= k < v@.len() ==> member_text(#[trigger] v@[k], field@) is Some) && exists|perm: Seq<int>|
            is_arrangement(v@, values@, perm),
        r matches Err(e) ==> e is InvalidSnapshot || e is InvalidRelationship,
        r is Ok <==> ((forall|k: int| 0 <= k < values@.len() ==> (#[trigger] member_text(values@[k], field@)) is Some)
            && distinct_texts(values@, field@)),
{
    let ghost original = values@;
    let mut rest = values;
    let mut keyed: Vec<(SortKey, Json)> = Vec::new();
    while rest.len() > 0
        invariant
            original == values@,
            rest@.len() + keyed@.len() == original.len(),
            forall|k: int| 0 <= k < rest@.len() ==> #[trigger] rest@[k] == original[k],
            forall|k: int|
                0 <= k < keyed@.len() ==> (#[trigger] keyed@[k]).1 == original[original.len() - 1 - k] && key_view(
                    keyed@[k].0,
                ) == (None::<u64>, member_text(original[original.len() - 1 - k], field@)),
            forall|k: int| 0 <= k < keyed@.len() ==> member_text(#[trigger] keyed@[k].1, field@) is Some,
        decreases rest@.len(),
    {
        let record = rest.pop().unwrap();
        let text = match record.get_str(field) {
            Some(t) => t.to_owned(),
            None => {
                proof {
                    let i = rest@.len() as int;
                    assert(record == original[i]);
                }
                return Err(FunctionContextError::InvalidSnapshot);
            },
        };
        keyed.push((SortKey { rank: None, text: Some(text) }, record));
    }
    proof {
        let n = original.len() as int;
        assert forall|k: int| 0 <= k < n implies member_text(#[trigger] original[k], field@) is Some by {
            assert(keyed@[n - 1 - k].1 == original[k]);
        }
    }
    let ghost keyed_view = keyed@;
    proof {
        let n = original.len() as int;
        assert(distinct_keys(keys_of(keyed_view)) <==> distinct_texts(original, field@)) by {
            if distinct_keys(keys_of(keyed_view)) {
                assert forall|a: int, b: int| 0 <= a < b < n implies member_text(#[trigger] original[a], field@)
                    != member_text(#[trigger] original[b], field@) by {
                    assert(keys_of(keyed_view)[n - 1 - b] != keys_of(keyed_view)[n - 1 - a]);
                }
            }
            if distinct_texts(original, field@) {
                assert forall|i: int, j: int| 0 <= i < j < n implies #[trigger] keys_of(keyed_view)[i]
                    != #[trigger] keys_of(keyed_view)[j] by {
                    assert(member_text(original[n - 1 - j], field@) != member_text(original[n - 1 - i], field@));
                }
            }
        }
    }
    match sort_distinct(keyed) {
        None => Err(FunctionContextError::InvalidRelationship),
        Some((sorted, perm)) => {
            let ghost sorted_view = sorted@;
            let out = strip_keys(sorted);
            proof {
                let n = original.len() as int;
                let p2 = Seq::new(n as nat, |k: int| n - 1 - perm@[k]);
                assert forall|k: int| 0 <= k < n implies #[trigger] out@[k] == original[p2[k]] by {
                    assert(out@[k] == sorted_view[k].1);
                    assert(sorted_view[k] == keyed_view[perm@[k]]);
                }
                assert forall|i: int, j: int| 0 <= i < j < n implies #[trigger] p2[i] != #[trigger] p2[j] by {
                    assert(perm@[i] != perm@[j]);
                }
                assert(is_arrangement(out@, original, p2));
                assert forall|i: int, j: int| 0 <= i < j < out@.len() implies text_lt(
                    member_text(#[trigger] out@[i], field@).unwrap(),
                    member_text(#[trigger] out@[j], field@).unwrap(),
                ) by {
                    assert(key_lt(keys_of(sorted_view)[i], keys_of(sorted_view)[j]));
                    assert(sorted_view[i] == keyed_view[perm@[i]]);
                    assert(sorted_view[j] == keyed_view[perm@[j]]);
                }
                assert forall|k: int| 0 <= k < out@.len() implies member_text(#[trigger] out@[k], field@) is Some by {
                    assert(sorted_view[k] == keyed_view[perm@[k]]);
                }
            }
            Ok(out)
        },
    }
}


/// Sorts records by identifier ([`sort_by_string_field`] on `id`).
pub fn sort_identified(values: Vec<Json>) -> (r: Result<Vec<Json>, FunctionContextError>)
    ensures
        (exists|k: int| 0 <= k < values@.len() && member_text(#[trigger] values@[k], "id"@) is None) ==> r matches Err(
            FunctionContextError::InvalidSnapshot,
        ),
        r matches Ok(v) ==> v@.len() == values@.len() && sorted_by_text(v@, "id"@) && (forall|k: int|
            0 <= k < v@.len() ==> member_text(#[trigger] v@[k], "id"@) is Some) && exists|perm: Seq<int>|
            is_arrangement(v@, values@, perm),
        r matches Err(e) ==> e is InvalidSnapshot || e is InvalidRelationship,
        r is Ok <==> ((forall|k: int| 0 <= k < values@.len() ==> (#[trigger] member_text(values@[k], "id"@)) is Some)
            && distinct_texts(values@, "id"@)),
{
    sort_by_string_field(values, "id")
}

/// Records sorted by their canonical text.
pub open spec fn sorted_by_canonical_text(s: Seq<Json>) -> bool {
    forall|i: int, j: int| 0 <= i < j < s.len() ==> text_lt(json_text(#[trigger] s[i]), json_text(#[trigger] s[j]))
}

/// Sorts derivations by their canonical compact text; two with the same
/// text are an invalid relationship.
pub fn sort_derivations(values: Vec<Json>) -> (r: Result<Vec<Json>, FunctionContextError>)
    ensures
        r matches Ok(v) ==> v@.len() == values@.len() && sorted_by_canonical_text(v@) && exists|perm: Seq<int>|
            is_arrangement(v@, values@, perm),
        r matches Err(e) ==> e is InvalidRelationship,
        r is Ok <==> distinct_canonical_texts(values@),
{
    let ghost original = values@;
    let mut rest = values;
    let mut keyed: Vec<(SortKey, Json)> = Vec::new();
    while rest.len() > 0
        invariant
            rest@.len() + keyed@.len() == original.len(),
            forall|k: int| 0 <= k < rest@.len() ==> #[trigger] rest@[k] == original[k],
            forall|k: int|
                0 <= k < keyed@.len() ==> (#[trigger] keyed@[k]).1 == original[original.len() - 1 - k] && key_view(
                    keyed@[k].0,
                ) == (None::<u64>, Some(json_text(original[original.len() - 1 - k]))),
        decreases rest@.len(),
    {
        let record = rest.pop().unwrap();
        let text = to_text(&record);
        keyed.push((SortKey { rank: None, text: Some(text) }, record));
    }
    let ghost keyed_view = keyed@;
    proof {
        let n = original.len() as int;
        assert(distinct_keys(keys_of(keyed_view)) <==> distinct_canonical_texts(original)) by {
            if distinct_keys(keys_of(keyed_view)) {
                assert forall|a: int, b: int| 0 <= a < b < n implies json_text(#[trigger] original[a])
                    != json_text(#[trigger] original[b]) by {
                    assert(keys_of(keyed_view)[n - 1 - b] != keys_of(keyed_view)[n - 1 - a]);
                }
            }
            if distinct_canonical_texts(original) {
                assert forall|i: int, j: int| 0 <= i < j < n implies #[trigger] keys_of(keyed_view)[i]
                    != #[trigger] keys_of(keyed_view)[j] by {
                    assert(json_text(original[n - 1 - j]) != json_text(original[n - 1 - i]));
                }
            }
        }
    }
    match sort_distinct(keyed) {
        None => Err(FunctionContextError::InvalidRelationship),
        Some((sorted, perm)) => {
            let ghost sorted_view = sorted@;
            let out = strip_keys(sorted);
            proof {
                let n = original.len() as int;
                let p2 = Seq::new(n as nat, |k: int| n - 1 - perm@[k]);
                assert forall|k: int| 0 <= k < n implies #[trigger] out@[k] == original[p2[k]] by {
                    assert(out@[k] == sorted_view[k].1);
                    assert(sorted_view[k] == keyed_view[perm@[k]]);
                }
                assert forall|i: int, j: int| 0 <= i < j < n implies #[trigger] p2[i] != #[trigger] p2[j] by {
                    assert(perm@[i] != perm@[j]);
                }
                assert(is_arrangement(out@, original, p2));
                assert forall|i: int, j: int| 0 <= i < j < out@.len() implies text_lt(
                    json_text(#[trigger] out@[i]),
                    json_text(#[trigger] out@[j]),
                ) by {
                    assert(key_lt(keys_of(sorted_view)[i], keys_of(sorted_view)[j]));
                    assert(sorted_view[i] == keyed_view[perm@[i]]);
                    assert(sorted_view[j] == keyed_view[perm@[j]]);
                }
            }
            Ok(out)
        },
    }
}

/// A callable: a function or a method.
pub open spec fn is_callable_kind(kind: Seq<char>) -> bool {
    kind == "rust.function"@ || kind == "rust.method"@
}

fn callable_kind(kind: &str) -> (r: bool)
    ensures
        r == is_callable_kind(kind@),
{
    text_eq(kind, "rust.function") || text_eq(kind, "rust.method")
}

/// What selecting the root callable gives: the entity with the requested
/// identifier (else `NotFound`), whose kind must be present (else
/// `InvalidSnapshot`) and name a callable (else `InvalidRootKind`).
pub open spec fn root_outcome(entities: Seq<Json>, requested: Seq<char>) -> Result<Json, FunctionContextError> {
    match record_with_id(entities, requested) {
        None => Err(FunctionContextError::NotFound),
        Some(root) => match required_text(root, "kind"@) {
            None => Err(FunctionContextError::InvalidSnapshot),
            Some(kind) => if is_callable_kind(kind) {
                Ok(root)
            } else {
                Err(FunctionContextError::InvalidRootKind)
            },
        },
    }
}

/// Selects the root callable ([`root_outcome`]).
pub fn select_root<'a>(entities: &'a [Json], ids: &[String], requested: &str) -> (r: Result<
    &'a Json,
    FunctionContextError,
>)
    requires
        identified(entities@),
        texts(ids@) == ids_of(entities@),
    ensures
        match root_outcome(entities@, requested@) {
            Ok(root) => r matches Ok(x) && *x == root,
            Err(e) => r matches Err(f) && f == e,
        },
{
    let root = match entity_with_id(entities, ids, requested) {
        Ok(root) => root,
        Err(_) => return Err(FunctionContextError::NotFound),
    };
    let kind = required_string(root, "kind")?;
    if !callable_kind(kind) {
        return Err(FunctionContextError::InvalidRootKind);
    }
    Ok(root)
}

/// The signature relationships of the root: those of kind `HAS_SIGNATURE`
/// from it.
pub open spec fn signature_links(rels: Seq<Json>, requested: Seq<char>) -> Seq<int> {
    link_positions(rels, "HAS_SIGNATURE"@, "source"@, requested)
}

/// What selecting the signature gives, once the root is found: exactly one
/// signature relationship (none is `MissingSignature`, more
/// `DuplicateSignature`), whose target names an entity (else a dangling
/// reference) of kind `rust.callable_signature` about the root (else
/// `InvalidRelationship`).
pub open spec fn signature_outcome(rels: Seq<Json>, entities: Seq<Json>, requested: Seq<char>) -> Result<
    (int, Json),
    FunctionContextError,
> {
    let links = signature_links(rels, requested);
    if links.len() == 0 {
        Err(FunctionContextError::MissingSignature)
    } else if links.len() > 1 {
        Err(FunctionContextError::DuplicateSignature)
    } else {
        match required_text(rels[links[0]], "target"@) {
            None => Err(FunctionContextError::InvalidSnapshot),
            Some(target) => match record_with_id(entities, target) {
                None => Err(FunctionContextError::DanglingReference(arbitrary())),
                Some(signature) => match required_text(signature, "kind"@) {
                    None => Err(FunctionContextError::InvalidSnapshot),
                    Some(kind) => if kind == "rust.callable_signature"@ && member_text(signature, "subject_id"@) == Some(
                        requested,
                    ) {
                        Ok((links[0], signature))
                    } else {
                        Err(FunctionContextError::InvalidRelationship)
                    },
                },
            },
        }
    }
}

/// Selects the signature of the root ([`signature_outcome`]); the result is
/// the position of the signature relationship and the signature entity.
pub fn select_signature<'a>(rels: &'a [Json], entities: &'a [Json], ids: &[String], requested: &str) -> (r: Result<
    (usize, &'a Json),
    FunctionContextError,
>)
    requires
        identified(entities@),
        texts(ids@) == ids_of(entities@),
    ensures
        match signature_outcome(rels@, entities@, requested@) {
            Ok((k, signature)) => r matches Ok((i, x)) && i == k && *x == signature && i < rels@.len(),
            Err(FunctionContextError::DanglingReference(_)) => r matches Err(FunctionContextError::DanglingReference(s))
                && required_text(rels@[signature_links(rels@, requested@)[0]], "target"@) == Some(s@),
            Err(e) => r matches Err(f) && f == e,
        },
{
    let links = linked_positions(rels, "HAS_SIGNATURE", "source", requested);
    proof {
        assert(links@.len() == signature_links(rels@, requested@).len());
        lemma_link_positions(rels@, "HAS_SIGNATURE"@, "source"@, requested@);
    }
    if links.len() == 0 {
        return Err(FunctionContextError::MissingSignature);
    }
    if links.len() > 1 {
        return Err(FunctionContextError::DuplicateSignature);
    }
    let k = links[0];
    proof {
        assert(signature_links(rels@, requested@)[0] == k as int);
        assert(links@.map_values(|k: usize| k as int)[0] == k as int);
    }
    let target = required_string(&rels[k], "target")?;
    let signature = entity_with_id(entities, ids, target)?;
    let kind = required_string(signature, "kind")?;
    let subject_ok = match signature.get_str("subject_id") {
        Some(t) => text_eq(t, requested),
        None => false,
    };
    if !text_eq(kind, "rust.callable_signature") || !subject_ok {
        return Err(FunctionContextError::InvalidRelationship);
    }
    Ok((k, signature))
}


/// `j` is a copy of a parameter entity of the root callable `requested`
/// whose ordinal is `ordinal`.
pub open spec fn parameter_of(j: Json, entities: Seq<Json>, requested: Seq<char>, ordinal: u64) -> bool {
    exists|e: Json|
        #![trigger entities.contains(e)]
        entities.contains(e) && same_json(j, e) && member_u64(e, "ordinal"@) == Some(ordinal) && required_text(
            e,
            "kind"@,
        ) == Some("rust.parameter"@) && member_text(e, "subject_id"@) == Some(requested)
}

/// The parameters of the signature `signature_id`: the targets of its
/// `HAS_PARAMETER` relationships, each a different entity (else
/// `InvalidRelationship`) that exists (else a dangling reference), is a
/// parameter of the root (else `InvalidRelationship`) and has an ordinal,
/// the ordinals being exactly `0..n` (else `InvalidParameterOrdinal`).
/// The result lists copies of them by ordinal, the positions of their
/// relationships and their identifiers.
pub fn select_parameters(
    rels: &[Json],
    entities: &[Json],
    ids: &[String],
    requested: &str,
    signature_id: &str,
) -> (r: Result<(Vec<Json>, Vec<usize>, Vec<String>), FunctionContextError>)
    requires
        identified(entities@),
        texts(ids@) == ids_of(entities@),
    ensures
        r matches Ok((params, links, targets)) ==> {
            &&& links@.map_values(|k: usize| k as int) == link_positions(rels@, "HAS_PARAMETER"@, "source"@, signature_id@)
            &&& params@.len() == links@.len()
            &&& forall|k: int| 0 <= k < links@.len() ==> #[trigger] links@[k] < rels@.len()
            &&& targets@.len() == links@.len()
            &&& forall|k: int| 0 <= k < params@.len() ==> parameter_of(#[trigger] params@[k], entities@, requested@, k as u64)
            &&& forall|k: int| 0 <= k < targets@.len() ==> required_text(rels@[#[trigger] links@[k] as int], "target"@) == Some(targets@[k]@)
            &&& forall|k: int|
                0 <= k < params@.len() ==> (#[trigger] id_of(params@[k])) is Some && same_json(
                    params@[k],
                    record_with_id(entities@, id_of(params@[k]).unwrap()).unwrap(),
                )
            &&& forall|x: Seq<char>| #[trigger] id_set(params@).contains(x) <==> texts(targets@).contains(x)
        },
        r matches Err(e) ==> e is InvalidSnapshot || e is InvalidRelationship || e is DanglingReference
            || e is InvalidParameterOrdinal,
{
    let links = linked_positions(rels, "HAS_PARAMETER", "source", signature_id);
    proof {
        lemma_link_positions(rels@, "HAS_PARAMETER"@, "source"@, signature_id@);
        assert forall|m: int| 0 <= m < links@.len() implies 0 <= #[trigger] links@[m] < rels@.len() by {
            assert(links@.map_values(|k: usize| k as int)[m] == links@[m] as int);
        }
    }
    let mut seen: Vec<String> = Vec::new();
    let mut targets: Vec<String> = Vec::new();
    let mut ordinals: Vec<u64> = Vec::new();
    let mut keyed: Vec<(SortKey, Json)> = Vec::new();
    let mut k: usize = 0;
    while k < links.len()
        invariant
            k <= links.len(),
            identified(entities@),
            texts(ids@) == ids_of(entities@),
            links@.map_values(|k: usize| k as int) == link_positions(rels@, "HAS_PARAMETER"@, "source"@, signature_id@),
            forall|m: int| 0 <= m < links@.len() ==> 0 <= #[trigger] links@[m] < rels@.len(),
            sorted_texts(texts(seen@)),
            targets@.len() == k,
            ordinals@.len() == k,
            keyed@.len() == k,
            forall|m: int| 0 <= m < k ==> required_text(rels@[#[trigger] links@[m] as int], "target"@) == Some(targets@[m]@),
            forall|m: int| 0 <= m < k ==> key_view((#[trigger] keyed@[m]).0) == (Some(ordinals@[m]), None::<Seq<char>>),
            forall|m: int| 0 <= m < k ==> parameter_of((#[trigger] keyed@[m]).1, entities@, requested@, ordinals@[m]),
            forall|i: int, j: int| 0 <= i < j < k ==> #[trigger] ordinals@[i] != #[trigger] ordinals@[j],
            forall|m: int|
                0 <= m < k ==> id_of((#[trigger] keyed@[m]).1) == Some(targets@[m]@) && same_json(
                    keyed@[m].1,
                    record_with_id(entities@, targets@[m]@).unwrap(),
                ),
        decreases links.len() - k,
    {
        proof {
            assert(links@.map_values(|k: usize| k as int)[k as int] == links@[k as int] as int);
        }
        let relationship = &rels[links[k]];
        let target = required_string(relationship, "target")?;
        if !insert_text(&mut seen, target) {
            return Err(FunctionContextError::InvalidRelationship);
        }
        let parameter = entity_with_id(entities, ids, target)?;
        let kind = required_string(parameter, "kind")?;
        let subject_ok = match parameter.get_str("subject_id") {
            Some(t) => text_eq(t, requested),
            None => false,
        };
        if !text_eq(kind, "rust.parameter") || !subject_ok {
            return Err(FunctionContextError::InvalidRelationship);
        }
        let ordinal = match parameter.get_u64("ordinal") {
            Some(n) => n,
            None => return Err(FunctionContextError::InvalidParameterOrdinal),
        };
        let mut j: usize = 0;
        while j < ordinals.len()
            invariant
                j <= ordinals@.len(),
                forall|m: int| 0 <= m < j ==> ordinals@[m] != ordinal,
            decreases ordinals.len() - j,
        {
            if ordinals[j] == ordinal {
                return Err(FunctionContextError::InvalidParameterOrdinal);
            }
            j += 1;
        }
        proof {
            let e = record_with_id(entities@, target@).unwrap();
            let c = choose|c: int| 0 <= c < entities@.len() && #[trigger] id_of(entities@[c]) == Some(target@);
            assert(entities@[c] == e);
            assert(entities@.contains(e));
        }
        let copy = json_copy(parameter);
        proof {
            let e = *parameter;
            assert(entities@.contains(e) && same_json(copy, e) && member_u64(e, "ordinal"@) == Some(ordinal));
            crate::json::lemma_same_json_members(copy, e);
            assert(id_of(copy) == Some(target@));
        }
        targets.push(target.to_owned());
        ordinals.push(ordinal);
        keyed.push((SortKey { rank: Some(ordinal), text: None }, copy));
        k += 1;
    }
    let ghost keyed_view = keyed@;
    let (sorted, perm) = sort_keyed(keyed);
    let mut i: usize = 0;
    while i < sorted.len()
        invariant
            i <= sorted@.len(),
            forall|m: int| 0 <= m < i ==> key_view((#[trigger] sorted@[m]).0).0 == Some(m as u64),
        decreases sorted.len() - i,
    {
        match sorted[i].0.rank {
            Some(n) => if n != i as u64 {
                return Err(FunctionContextError::InvalidParameterOrdinal);
            },
            None => return Err(FunctionContextError::InvalidParameterOrdinal),
        }
        i += 1;
    }
    let ghost sorted_view = sorted@;
    let params = strip_keys(sorted);
    proof {
        assert forall|m: int| 0 <= m < params@.len() implies parameter_of(#[trigger] params@[m], entities@, requested@, m as u64) by {
            assert(params@[m] == sorted_view[m].1);
            assert(sorted_view[m] == keyed_view[perm@[m]]);
            assert(key_view(keyed_view[perm@[m]].0) == (Some(ordinals@[perm@[m]]), None::<Seq<char>>));
        }
        let kv = keyed_view.map_values(|p: (SortKey, Json)| p.1);
        assert forall|m: int| 0 <= m < params@.len() implies #[trigger] params@[m] == kv[perm@[m]] by {
            assert(params@[m] == sorted_view[m].1);
            assert(sorted_view[m] == keyed_view[perm@[m]]);
        }
        assert(is_arrangement(params@, kv, perm@));
        lemma_arrangement_ids(params@, kv, perm@);
        assert forall|k: int| 0 <= k < params@.len() implies (#[trigger] id_of(params@[k])) is Some && same_json(
            params@[k],
            record_with_id(entities@, id_of(params@[k]).unwrap()).unwrap(),
        ) by {
            assert(params@[k] == keyed_view[perm@[k]].1);
        }
        assert forall|x: Seq<char>| #[trigger] id_set(params@).contains(x) <==> texts(targets@).contains(x) by {
            if id_set(kv).contains(x) {
                let m = choose|m: int| 0 <= m < kv.len() && id_of(#[trigger] kv[m]) == Some(x);
                assert(texts(targets@)[m] == x);
            }
            if texts(targets@).contains(x) {
                let m = choose|m: int| 0 <= m < texts(targets@).len() && texts(targets@)[m] == x;
                assert(id_of(kv[m]) == Some(x));
                assert(id_set(kv).contains(x));
            }
        }
    }
    Ok((params, links, targets))
}


/// A body-fact kind: a local binding, a call site or a control fact.
pub open spec fn is_body_kind(kind: Seq<char>) -> bool {
    kind == "rust.local_binding"@ || kind == "rust.call_site"@ || kind == "rust.control"@
}

/// `j` is a copy of a body fact of the root callable `requested`.
pub open spec fn body_fact_of(j: Json, entities: Seq<Json>, requested: Seq<char>) -> bool {
    exists|e: Json|
        #![trigger entities.contains(e)]
        entities.contains(e) && same_json(j, e) && member_text(e, "subject_id"@) == Some(requested) && (
        required_text(e, "kind"@) matches Some(kind) && is_body_kind(kind))
}

/// The sort key of a body fact: its ordinal, then its identifier.
pub open spec fn body_key(e: Json) -> (Option<u64>, Option<Seq<char>>) {
    (member_u64(e, "ordinal"@), member_text(e, "id"@))
}

/// The body facts of the root: the targets of its `HAS_BODY_FACT`
/// relationships, each a different entity (else `InvalidRelationship`) that
/// exists (else a dangling reference) and is a local binding, call site or
/// control fact of the root (else `InvalidRelationship`; a missing kind is
/// an invalid snapshot). The result lists copies of them ordered by
/// ordinal, then identifier, the positions of their relationships and
/// their identifiers.
pub fn select_body_facts(rels: &[Json], entities: &[Json], ids: &[String], requested: &str) -> (r: Result<
    (Vec<Json>, Vec<usize>, Vec<String>),
    FunctionContextError,
>)
    requires
        identified(entities@),
        texts(ids@) == ids_of(entities@),
    ensures
        r matches Ok((facts, links, targets)) ==> {
            &&& links@.map_values(|k: usize| k as int) == link_positions(rels@, "HAS_BODY_FACT"@, "source"@, requested@)
            &&& facts@.len() == links@.len()
            &&& forall|k: int| 0 <= k < links@.len() ==> #[trigger] links@[k] < rels@.len()
            &&& targets@.len() == links@.len()
            &&& forall|k: int| 0 <= k < facts@.len() ==> body_fact_of(#[trigger] facts@[k], entities@, requested@)
            &&& forall|i: int, j: int| 0 <= i < j < facts@.len() ==> !key_lt(body_key(#[trigger] facts@[j]), body_key(#[trigger] facts@[i]))
        },
        r matches Err(e) ==> e is InvalidSnapshot || e is InvalidRelationship || e is DanglingReference,
{
    let links = linked_positions(rels, "HAS_BODY_FACT", "source", requested);
    proof {
        lemma_link_positions(rels@, "HAS_BODY_FACT"@, "source"@, requested@);
        assert forall|m: int| 0 <= m < links@.len() implies 0 <= #[trigger] links@[m] < rels@.len() by {
            assert(links@.map_values(|k: usize| k as int)[m] == links@[m] as int);
        }
    }
    let mut seen: Vec<String> = Vec::new();
    let mut targets: Vec<String> = Vec::new();
    let mut keyed: Vec<(SortKey, Json)> = Vec::new();
    let mut k: usize = 0;
    while k < links.len()
        invariant
            k <= links.len(),
            identified(entities@),
            texts(ids@) == ids_of(entities@),
            forall|m: int| 0 <= m < links@.len() ==> 0 <= #[trigger] links@[m] < rels@.len(),
            sorted_texts(texts(seen@)),
            targets@.len() == k,
            keyed@.len() == k,
            forall|m: int|
                0 <= m < k ==> body_fact_of((#[trigger] keyed@[m]).1, entities@, requested@) && key_view(keyed@[m].0)
                    == body_key(keyed@[m].1),
        decreases links.len() - k,
    {
        let relationship = &rels[links[k]];
        let target = required_string(relationship, "target")?;
        if !insert_text(&mut seen, target) {
            return Err(FunctionContextError::InvalidRelationship);
        }
        let body = entity_with_id(entities, ids, target)?;
        let subject_ok = match body.get_str("subject_id") {
            Some(t) => text_eq(t, requested),
            None => false,
        };
        if !subject_ok {
            return Err(FunctionContextError::InvalidRelationship);
        }
        let kind = required_string(body, "kind")?;
        if !(text_eq(kind, "rust.local_binding") || text_eq(kind, "rust.call_site") || text_eq(kind, "rust.control")) {
            return Err(FunctionContextError::InvalidRelationship);
        }
        proof {
            let e = record_with_id(entities@, target@).unwrap();
            let c = choose|c: int| 0 <= c < entities@.len() && #[trigger] id_of(entities@[c]) == Some(target@);
            assert(entities@[c] == e);
            assert(entities@.contains(e));
        }
        let key = SortKey {
            rank: body.get_u64("ordinal"),
            text: match body.get_str("id") {
                Some(t) => Some(t.to_owned()),
                None => None,
            },
        };
        let copy = json_copy(body);
        proof {
            crate::json::lemma_same_json_members(copy, *body);
            assert(entities@.contains(*body) && same_json(copy, *body));
        }
        targets.push(target.to_owned());
        keyed.push((key, copy));
        k += 1;
    }
    let ghost keyed_view = keyed@;
    let (sorted, perm) = sort_keyed(keyed);
    let ghost sorted_view = sorted@;
    let facts = strip_keys(sorted);
    proof {
        assert forall|m: int| 0 <= m < facts@.len() implies body_fact_of(#[trigger] facts@[m], entities@, requested@) by {
            assert(facts@[m] == sorted_view[m].1);
            assert(sorted_view[m] == keyed_view[perm@[m]]);
        }
        assert forall|i: int, j: int| 0 <= i < j < facts@.len() implies !key_lt(
            body_key(#[trigger] facts@[j]),
            body_key(#[trigger] facts@[i]),
        ) by {
            assert(facts@[i] == sorted_view[i].1);
            assert(facts@[j] == sorted_view[j].1);
            assert(sorted_view[i] == keyed_view[perm@[i]]);
            assert(sorted_view[j] == keyed_view[perm@[j]]);
            assert(keys_of(sorted_view)[i] == key_view(sorted_view[i].0));
            assert(keys_of(sorted_view)[j] == key_view(sorted_view[j].0));
        }
    }
    Ok((facts, links, targets))
}


/// A `CALLS` relationship with the root at either end.
pub open spec fn calls_root(r: Json, requested: Seq<char>) -> bool {
    member_text(r, "kind"@) == Some("CALLS"@) && (member_text(r, "source"@) == Some(requested) || member_text(
        r,
        "target"@,
    ) == Some(requested))
}

/// The positions, in order, of the calls from or to the root.
pub open spec fn call_positions(rels: Seq<Json>, requested: Seq<char>) -> Seq<int>
    decreases rels.len(),
{
    if rels.len() == 0 {
        Seq::empty()
    } else {
        let rest = call_positions(rels.drop_last(), requested);
        if calls_root(rels.last(), requested) {
            rest.push(rels.len() - 1)
        } else {
            rest
        }
    }
}

/// The positions of the calls from or to the root ([`call_positions`]);
/// each is a position of `rels`.
pub fn calls_of(rels: &[Json], requested: &str) -> (r: Vec<usize>)
    ensures
        r@.map_values(|k: usize| k as int) == call_positions(rels@, requested@),
        forall|k: int| 0 <= k < r@.len() ==> #[trigger] r@[k] < rels@.len(),
{
    let mut out: Vec<usize> = Vec::new();
    let mut k: usize = 0;
    while k < rels.len()
        invariant
            k <= rels.len(),
            out@.map_values(|k: usize| k as int) == call_positions(rels@.take(k as int), requested@),
            forall|m: int| 0 <= m < out@.len() ==> #[trigger] out@[m] < k,
        decreases rels.len() - k,
    {
        proof {
            assert(rels@.take(k + 1).drop_last() =~= rels@.take(k as int));
            assert(rels@.take(k + 1).last() == rels@[k as int]);
        }
        let ghost before = out@;
        let kind_ok = match rels[k].get_str("kind") {
            Some(t) => text_eq(t, "CALLS"),
            None => false,
        };
        let source_ok = match rels[k].get_str("source") {
            Some(t) => text_eq(t, requested),
            None => false,
        };
        let target_ok = match rels[k].get_str("target") {
            Some(t) => text_eq(t, requested),
            None => false,
        };
        if kind_ok && (source_ok || target_ok) {
            out.push(k);
            proof {
                assert(out@.map_values(|k: usize| k as int) =~= before.map_values(|k: usize| k as int).push(k as int));
            }
        }
        k += 1;
    }
    proof {
        assert(rels@.take(k as int) =~= rels@);
    }
    out
}

/// What a call between two callables needs: both ends named and present
/// among the entities, each of a callable kind, and the relationship's
/// identifier and both ends' identifier and name present.
pub open spec fn call_well_formed(rel: Json, entities: Seq<Json>) -> bool {
    match (required_text(rel, "source"@), required_text(rel, "target"@)) {
        (Some(sid), Some(tid)) => match (record_with_id(entities, sid), record_with_id(entities, tid)) {
            (Some(s), Some(t)) => {
                &&& required_text(s, "kind"@) matches Some(sk) && is_callable_kind(sk)
                &&& required_text(t, "kind"@) matches Some(tk) && is_callable_kind(tk)
                &&& required_text(rel, "id"@) is Some
                &&& required_text(s, "id"@) is Some
                &&& required_text(s, "name"@) is Some
                &&& required_text(t, "id"@) is Some
                &&& required_text(t, "name"@) is Some
            },
            _ => false,
        },
        _ => false,
    }
}

/// `s` summarizes the call `rel` between callables of `entities`: the
/// relationship's identifier, the identifier, kind and name of its source
/// and of its target, and the state `proven_unique_local`, in key order.
#[verifier::opaque]
pub open spec fn call_summary_view(s: Json, rel: Json, entities: Seq<Json>) -> bool {
    let src = record_with_id(entities, required_text(rel, "source"@).unwrap()).unwrap();
    let tgt = record_with_id(entities, required_text(rel, "target"@).unwrap()).unwrap();
    &&& member_count(s) == 8
    &&& text_at(s, seq![(0int, "relationship_id"@)]) == required_text(rel, "id"@)
    &&& text_at(s, seq![(1int, "source_id"@)]) == required_text(src, "id"@)
    &&& text_at(s, seq![(2int, "source_kind"@)]) == required_text(src, "kind"@)
    &&& text_at(s, seq![(3int, "source_name"@)]) == required_text(src, "name"@)
    &&& text_at(s, seq![(4int, "state"@)]) == Some("proven_unique_local"@)
    &&& text_at(s, seq![(5int, "target_id"@)]) == required_text(tgt, "id"@)
    &&& text_at(s, seq![(6int, "target_kind"@)]) == required_text(tgt, "kind"@)
    &&& text_at(s, seq![(7int, "target_name"@)]) == required_text(tgt, "name"@)
}

/// `s` summarizes a call at `positions` whose `end` is `requested`.
pub open spec fn summarizes_a_call(
    s: Json,
    rels: Seq<Json>,
    positions: Seq<int>,
    end: Seq<char>,
    requested: Seq<char>,
    entities: Seq<Json>,
) -> bool {
    exists|m: int|
        0 <= m < positions.len() && required_text(rels[positions[m]], end) == Some(requested) && call_summary_view(
            s,
            #[trigger] rels[positions[m]],
            entities,
        )
}

/// The summaries `xs` are one per call at `positions` whose `end` is
/// `requested`: each summarizes such a call ([`call_summary_view`]), and
/// each such call has a summary with its identifier.
#[verifier::opaque]
pub open spec fn summaries_of_calls(
    xs: Seq<Json>,
    rels: Seq<Json>,
    positions: Seq<int>,
    end: Seq<char>,
    requested: Seq<char>,
    entities: Seq<Json>,
) -> bool {
    &&& forall|i: int|
        0 <= i < xs.len() ==> summarizes_a_call(#[trigger] xs[i], rels, positions, end, requested, entities)
    &&& forall|m: int|
        0 <= m < positions.len() && required_text(#[trigger] rels[positions[m]], end) == Some(requested)
            ==> exists|i: int|
            0 <= i < xs.len() && member_text(xs[i], "relationship_id"@) == required_text(rels[positions[m]], "id"@)
}

/// No two of the relationships at `positions` whose `end` is `requested`
/// have the same identifier.
pub open spec fn distinct_call_ids(rels: Seq<Json>, positions: Seq<int>, end: Seq<char>, requested: Seq<char>) -> bool {
    forall|i: int, j: int|
        0 <= i < j < positions.len() && required_text(rels[positions[i]], end) == Some(requested)
            && required_text(rels[positions[j]], end) == Some(requested) ==> required_text(
            #[trigger] rels[positions[i]],
            "id"@,
        ) != required_text(#[trigger] rels[positions[j]], "id"@)
}

/// The calls of the root: for each call from or to it, both ends must name
/// callables (a missing end is an invalid snapshot, an unknown one a
/// dangling reference, another kind `InvalidRelationship`); the result
/// holds the summaries of the outgoing and of the incoming calls, each
/// sorted by relationship identifier (two the same are an invalid
/// relationship), the positions of the calls and the identifiers at their
/// ends (source, then target, call by call).
pub fn select_calls(rels: &[Json], entities: &[Json], ids: &[String], requested: &str) -> (r: Result<
    (Vec<Json>, Vec<Json>, Vec<usize>, Vec<String>),
    FunctionContextError,
>)
    requires
        identified(entities@),
        texts(ids@) == ids_of(entities@),
    ensures
        r is Ok <==> ({
            let ps = call_positions(rels@, requested@);
            &&& forall|k: int| 0 <= k < ps.len() ==> call_well_formed(#[trigger] rels@[ps[k]], entities@)
            &&& distinct_call_ids(rels@, ps, "source"@, requested@)
            &&& distinct_call_ids(rels@, ps, "target"@, requested@)
        }),
        r matches Ok((outgoing, incoming, links, ends)) ==> {
            &&& links@.map_values(|k: usize| k as int) == call_positions(rels@, requested@)
            &&& forall|k: int| 0 <= k < links@.len() ==> #[trigger] links@[k] < rels@.len()
            &&& sorted_by_text(outgoing@, "relationship_id"@)
            &&& sorted_by_text(incoming@, "relationship_id"@)
            &&& summaries_of_calls(outgoing@, rels@, call_positions(rels@, requested@), "source"@, requested@, entities@)
            &&& summaries_of_calls(incoming@, rels@, call_positions(rels@, requested@), "target"@, requested@, entities@)
            &&& ends@.len() == 2 * links@.len()
            &&& forall|k: int|
                0 <= k < links@.len() ==> Some(#[trigger] ends@[2 * k]@) == required_text(rels@[links@[k] as int], "source"@)
                    && Some(ends@[2 * k + 1]@) == required_text(rels@[links@[k] as int], "target"@)
        },
        r matches Err(e) ==> e is InvalidSnapshot || e is DanglingReference || e is InvalidRelationship,
{
    let links = calls_of(rels, requested);
    let ghost ps = call_positions(rels@, requested@);
    let ghost mut op: Seq<int> = Seq::empty();
    let ghost mut ip: Seq<int> = Seq::empty();
    let mut outgoing: Vec<Json> = Vec::new();
    let mut incoming: Vec<Json> = Vec::new();
    let mut ends: Vec<String> = Vec::new();
    proof {
        assert forall|m: int| 0 <= m < links@.len() implies ps[m] == #[trigger] links@[m] as int by {
            assert(links@.map_values(|k: usize| k as int)[m] == links@[m] as int);
        }
    }
    let mut k: usize = 0;
    while k < links.len()
        invariant
            k <= links.len(),
            identified(entities@),
            texts(ids@) == ids_of(entities@),
            ps == call_positions(rels@, requested@),
            links@.map_values(|k: usize| k as int) == ps,
            ps.len() == links@.len(),
            forall|m: int| 0 <= m < links@.len() ==> #[trigger] links@[m] < rels@.len(),
            forall|m: int| 0 <= m < links@.len() ==> ps[m] == #[trigger] links@[m] as int,
            forall|m: int| 0 <= m < k ==> call_well_formed(#[trigger] rels@[ps[m]], entities@),
            ends@.len() == 2 * k,
            forall|m: int|
                0 <= m < k ==> Some(#[trigger] ends@[2 * m]@) == required_text(rels@[ps[m]], "source"@) && Some(
                    ends@[2 * m + 1]@,
                ) == required_text(rels@[ps[m]], "target"@),
            outgoing@.len() == op.len(),
            forall|i: int| 0 <= i < op.len() ==> 0 <= #[trigger] op[i] < k,
            forall|i: int, j: int| 0 <= i < j < op.len() ==> #[trigger] op[i] < #[trigger] op[j],
            forall|i: int|
                0 <= i < op.len() ==> required_text(rels@[ps[#[trigger] op[i]]], "source"@) == Some(requested@)
                    && member_text(outgoing@[i], "relationship_id"@) == required_text(rels@[ps[op[i]]], "id"@)
                    && member_text(outgoing@[i], "relationship_id"@) is Some
                    && call_summary_view(outgoing@[i], rels@[ps[op[i]]], entities@),
            forall|m: int|
                0 <= m < k && required_text(#[trigger] rels@[ps[m]], "source"@) == Some(requested@) ==> exists|i: int|
                    0 <= i < op.len() && op[i] == m,
            incoming@.len() == ip.len(),
            forall|i: int| 0 <= i < ip.len() ==> 0 <= #[trigger] ip[i] < k,
            forall|i: int, j: int| 0 <= i < j < ip.len() ==> #[trigger] ip[i] < #[trigger] ip[j],
            forall|i: int|
                0 <= i < ip.len() ==> required_text(rels@[ps[#[trigger] ip[i]]], "target"@) == Some(requested@)
                    && member_text(incoming@[i], "relationship_id"@) == required_text(rels@[ps[ip[i]]], "id"@)
                    && member_text(incoming@[i], "relationship_id"@) is Some
                    && call_summary_view(incoming@[i], rels@[ps[ip[i]]], entities@),
            forall|m: int|
                0 <= m < k && required_text(#[trigger] rels@[ps[m]], "target"@) == Some(requested@) ==> exists|i: int|
                    0 <= i < ip.len() && ip[i] == m,
        decreases links.len() - k,
    {
        let relationship = &rels[links[k]];
        let ghost op0 = op;
        let ghost ip0 = ip;
        let ghost rel = rels@[ps[k as int]];
        let ghost wf = call_well_formed(rel, entities@);
        proof {
            assert(*relationship == rel);
        }
        let source_id = match required_string(relationship, "source") {
            Ok(t) => t,
            Err(e) => {
                proof {
                    assert(!wf);
                }
                return Err(e);
            },
        };
        let target_id = match crate::s4_r17::relationship_target(relationship) {
            Ok(t) => t,
            Err(e) => {
                proof {
                    assert(!wf);
                }
                return Err(e);
            },
        };
        let source = match entity_with_id(entities, ids, source_id) {
            Ok(x) => x,
            Err(e) => {
                proof {
                    assert(!wf);
                }
                return Err(e);
            },
        };
        let target = match entity_with_id(entities, ids, target_id) {
            Ok(x) => x,
            Err(e) => {
                proof {
                    assert(!wf);
                }
                return Err(e);
            },
        };
        let source_kind = match required_string(source, "kind") {
            Ok(t) => t,
            Err(e) => {
                proof {
                    assert(!wf);
                }
                return Err(e);
            },
        };
        if !callable_kind(source_kind) {
            proof {
                assert(!wf);
            }
            return Err(FunctionContextError::InvalidRelationship);
        }
        let target_kind = match required_string(target, "kind") {
            Ok(t) => t,
            Err(e) => {
                proof {
                    assert(!wf);
                }
                return Err(e);
            },
        };
        if !callable_kind(target_kind) {
            proof {
                assert(!wf);
            }
            return Err(FunctionContextError::InvalidRelationship);
        }
        let summary = match crate::s4_r17::call_summary(relationship, source, target) {
            Ok(v) => v,
            Err(e) => {
                proof {
                    assert(!wf);
                }
                return Err(e);
            },
        };
        proof {
            assert(wf);
            reveal(call_summary_view);
            assert(call_summary_view(summary, rel, entities@));
        }
        if text_eq(source_id, requested) {
            let ghost before = outgoing@;
            let copy = json_copy(&summary);
            proof {
                crate::json::lemma_same_json_members(copy, summary);
                crate::json::lemma_same_json_text_at(copy, summary, 0, "relationship_id"@);
                crate::json::lemma_same_json_text_at(copy, summary, 1, "source_id"@);
                crate::json::lemma_same_json_text_at(copy, summary, 2, "source_kind"@);
                crate::json::lemma_same_json_text_at(copy, summary, 3, "source_name"@);
                crate::json::lemma_same_json_text_at(copy, summary, 4, "state"@);
                crate::json::lemma_same_json_text_at(copy, summary, 5, "target_id"@);
                crate::json::lemma_same_json_text_at(copy, summary, 6, "target_kind"@);
                crate::json::lemma_same_json_text_at(copy, summary, 7, "target_name"@);
                reveal(call_summary_view);
                assert(call_summary_view(copy, rel, entities@));
            }
            outgoing.push(copy);
            proof {
                op = op.push(k as int);
                assert(outgoing@[before.len() as int] == copy);
            }
        }
        if text_eq(target_id, requested) {
            incoming.push(summary);
            proof {
                ip = ip.push(k as int);
            }
        }
        ends.push(source_id.to_owned());
        ends.push(target_id.to_owned());
        proof {
            assert forall|m: int|
                0 <= m < k + 1 && required_text(#[trigger] rels@[ps[m]], "source"@) == Some(requested@) implies exists|i: int|
                    0 <= i < op.len() && op[i] == m by {
                if m < k {
                    let i = choose|i: int| 0 <= i < op0.len() && op0[i] == m;
                    assert(op[i] == m);
                } else {
                    assert(op[op.len() - 1] == m);
                }
            }
            assert forall|m: int|
                0 <= m < k + 1 && required_text(#[trigger] rels@[ps[m]], "target"@) == Some(requested@) implies exists|i: int|
                    0 <= i < ip.len() && ip[i] == m by {
                if m < k {
                    let i = choose|i: int| 0 <= i < ip0.len() && ip0[i] == m;
                    assert(ip[i] == m);
                } else {
                    assert(ip[ip.len() - 1] == m);
                }
            }
        }
        k += 1;
    }
    let ghost out_view = outgoing@;
    let ghost in_view = incoming@;
    proof {
        lemma_call_ids_distinct(rels@, ps, "source"@, requested@, out_view, op);
        lemma_call_ids_distinct(rels@, ps, "target"@, requested@, in_view, ip);
    }
    let outgoing = sort_by_string_field(outgoing, "relationship_id")?;
    let incoming = sort_by_string_field(incoming, "relationship_id")?;
    proof {
        let p1 = choose|perm: Seq<int>| is_arrangement(outgoing@, out_view, perm);
        lemma_sorted_summaries(outgoing@, out_view, p1, rels@, ps, "source"@, requested@, entities@, op);
        let p2 = choose|perm: Seq<int>| is_arrangement(incoming@, in_view, perm);
        lemma_sorted_summaries(incoming@, in_view, p2, rels@, ps, "target"@, requested@, entities@, ip);
    }
    Ok((outgoing, incoming, links, ends))
}

/// Rearranged summaries of the calls at `ps[op[i]]` whose `end` is
/// `requested`, one for each such call, are still one per such call.
proof fn lemma_sorted_summaries(
    xs: Seq<Json>,
    pre: Seq<Json>,
    perm: Seq<int>,
    rels: Seq<Json>,
    ps: Seq<int>,
    end: Seq<char>,
    requested: Seq<char>,
    entities: Seq<Json>,
    op: Seq<int>,
)
    requires
        is_arrangement(xs, pre, perm),
        pre.len() == op.len(),
        forall|i: int| 0 <= i < op.len() ==> 0 <= #[trigger] op[i] < ps.len(),
        forall|i: int|
            0 <= i < op.len() ==> required_text(rels[ps[#[trigger] op[i]]], end) == Some(requested)
                && member_text(pre[i], "relationship_id"@) == required_text(rels[ps[op[i]]], "id"@)
                && call_summary_view(pre[i], rels[ps[op[i]]], entities),
        forall|m: int|
            0 <= m < ps.len() && required_text(#[trigger] rels[ps[m]], end) == Some(requested) ==> exists|i: int|
                0 <= i < op.len() && op[i] == m,
    ensures
        summaries_of_calls(xs, rels, ps, end, requested, entities),
{
    reveal(summaries_of_calls);
    assert forall|i: int| 0 <= i < xs.len() implies summarizes_a_call(#[trigger] xs[i], rels, ps, end, requested, entities) by {
        assert(xs[i] == pre[perm[i]]);
        let m = op[perm[i]];
        assert(0 <= m < ps.len());
        assert(call_summary_view(xs[i], rels[ps[m]], entities));
    }
    assert forall|m: int| 0 <= m < ps.len() && required_text(#[trigger] rels[ps[m]], end) == Some(requested) implies exists|
        i: int,
    | 0 <= i < xs.len() && member_text(xs[i], "relationship_id"@) == required_text(rels[ps[m]], "id"@) by {
        let i = choose|i: int| 0 <= i < op.len() && op[i] == m;
        crate::ordering::lemma_arrangement_onto(perm, pre.len() as int);
        assert(crate::ordering::reaches(perm, i));
        let w = choose|w: int| 0 <= w < perm.len() && perm[w] == i;
        assert(xs[w] == pre[i]);
    }
}

/// The summaries of the calls at `ps[op[i]]` have distinct identifiers
/// exactly when those calls do.
proof fn lemma_call_ids_distinct(
    rels: Seq<Json>,
    ps: Seq<int>,
    end: Seq<char>,
    requested: Seq<char>,
    summaries: Seq<Json>,
    op: Seq<int>,
)
    requires
        summaries.len() == op.len(),
        forall|i: int| 0 <= i < op.len() ==> 0 <= #[trigger] op[i] < ps.len(),
        forall|i: int, j: int| 0 <= i < j < op.len() ==> #[trigger] op[i] < #[trigger] op[j],
        forall|i: int|
            0 <= i < op.len() ==> required_text(rels[ps[#[trigger] op[i]]], end) == Some(requested)
                && member_text(summaries[i], "relationship_id"@) == required_text(rels[ps[op[i]]], "id"@)
                && member_text(summaries[i], "relationship_id"@) is Some,
        forall|m: int|
            0 <= m < ps.len() && required_text(#[trigger] rels[ps[m]], end) == Some(requested) ==> exists|i: int|
                0 <= i < op.len() && op[i] == m,
    ensures
        forall|k: int| 0 <= k < summaries.len() ==> (#[trigger] member_text(summaries[k], "relationship_id"@)) is Some,
        distinct_texts(summaries, "relationship_id"@) <==> distinct_call_ids(rels, ps, end, requested),
{
    assert forall|k: int| 0 <= k < summaries.len() implies (#[trigger] member_text(
        summaries[k],
        "relationship_id"@,
    )) is Some by {
        assert(0 <= op[k] < ps.len());
    }
    if distinct_texts(summaries, "relationship_id"@) {
        assert forall|i: int, j: int|
            0 <= i < j < ps.len() && required_text(rels[ps[i]], end) == Some(requested) && required_text(
                rels[ps[j]],
                end,
            ) == Some(requested) implies required_text(#[trigger] rels[ps[i]], "id"@) != required_text(
            #[trigger] rels[ps[j]],
            "id"@,
        ) by {
            assert(required_text(rels[ps[i]], end) == Some(requested));
            assert(required_text(rels[ps[j]], end) == Some(requested));
            let a = choose|a: int| 0 <= a < op.len() && op[a] == i;
            let b = choose|b: int| 0 <= b < op.len() && op[b] == j;
            if b < a {
                assert(op[b] < op[a]);
            }
            assert(a < b);
            assert(member_text(summaries[a], "relationship_id"@) != member_text(summaries[b], "relationship_id"@));
        }
    }
    if distinct_call_ids(rels, ps, end, requested) {
        assert forall|a: int, b: int| 0 <= a < b < summaries.len() implies member_text(
            #[trigger] summaries[a],
            "relationship_id"@,
        ) != member_text(#[trigger] summaries[b], "relationship_id"@) by {
            assert(op[a] < op[b]);
            assert(required_text(rels[ps[op[a]]], end) == Some(requested));
            assert(required_text(rels[ps[op[b]]], end) == Some(requested));
        }
    }
}

/// Copies of the records at `positions`, appended to `out`.
fn copy_at(records: &[Json], positions: &[usize], out: &mut Vec<Json>)
    requires
        forall|k: int| 0 <= k < positions@.len() ==> #[trigger] positions@[k] < records@.len(),
    ensures
        final(out)@.len() == old(out)@.len() + positions@.len(),
        forall|k: int| 0 <= k < old(out)@.len() ==> #[trigger] final(out)@[k] == old(out)@[k],
        forall|k: int|
            0 <= k < positions@.len() ==> same_json(
                #[trigger] final(out)@[old(out)@.len() + k],
                records@[positions@[k] as int],
            ),
{
    let mut k: usize = 0;
    while k < positions.len()
        invariant
            k <= positions.len(),
            forall|m: int| 0 <= m < positions@.len() ==> #[trigger] positions@[m] < records@.len(),
            out@.len() == old(out)@.len() + k,
            forall|m: int| 0 <= m < old(out)@.len() ==> #[trigger] out@[m] == old(out)@[m],
            forall|m: int|
                0 <= m < k ==> same_json(#[trigger] out@[old(out)@.len() + m], records@[positions@[m] as int]),
        decreases positions.len() - k,
    {
        out.push(json_copy(&records[positions[k]]));
        k += 1;
    }
}

/// Adds `id` to the ordered set `set`.
fn add_id(set: &mut Vec<String>, id: &str)
    requires
        sorted_texts(texts(old(set)@)),
    ensures
        sorted_texts(texts(final(set)@)),
        forall|y: Seq<char>| #[trigger]
            texts(final(set)@).contains(y) <==> (texts(old(set)@).contains(y) || y == id@),
{
    insert_text(set, id);
}

/// The identifiers of records, added to the ordered set `set`; a record
/// without one is an invalid snapshot.
fn add_record_ids(records: &[Json], set: &mut Vec<String>) -> (r: Result<(), FunctionContextError>)
    requires
        sorted_texts(texts(old(set)@)),
    ensures
        sorted_texts(texts(final(set)@)),
        r is Ok <==> forall|k: int| 0 <= k < records@.len() ==> (#[trigger] id_of(records@[k])) is Some,
        r is Err ==> r matches Err(FunctionContextError::InvalidSnapshot),
        r is Ok ==> forall|x: Seq<char>| #[trigger] texts(final(set)@).contains(x) <==> (texts(old(set)@).contains(x)
            || exists|k: int| 0 <= k < records@.len() && id_of(#[trigger] records@[k]) == Some(x)),
{
    let ghost start = texts(set@);
    let mut k: usize = 0;
    while k < records.len()
        invariant
            k <= records.len(),
            start == texts(old(set)@),
            sorted_texts(texts(set@)),
            forall|m: int| 0 <= m < k ==> (#[trigger] id_of(records@[m])) is Some,
            forall|x: Seq<char>| #[trigger] texts(set@).contains(x) <==> (start.contains(x) || exists|m: int|
                0 <= m < k && id_of(#[trigger] records@[m]) == Some(x)),
        decreases records.len() - k,
    {
        let id = match records[k].get_str("id") {
            Some(t) => t,
            None => {
                assert(id_of(records@[k as int]) is None);
                return Err(FunctionContextError::InvalidSnapshot);
            },
        };
        let ghost before = texts(set@);
        insert_text(set, id);
        proof {
            assert forall|x: Seq<char>| #[trigger] texts(set@).contains(x) <==> (start.contains(x) || exists|m: int|
                0 <= m < k + 1 && id_of(#[trigger] records@[m]) == Some(x)) by {
                if x == id@ {
                    assert(id_of(records@[k as int]) == Some(x));
                }
                if exists|m: int| 0 <= m < k + 1 && id_of(#[trigger] records@[m]) == Some(x) {
                    let m = choose|m: int| 0 <= m < k + 1 && id_of(#[trigger] records@[m]) == Some(x);
                    if m < k {
                        assert(before.contains(x));
                    }
                }
            }
        }
        k += 1;
    }
    Ok(())
}

/// Each of `xs` has an identifier and is a copy of the record of `family`
/// with it.
pub open spec fn copies_of_family(xs: Seq<Json>, family: Seq<Json>) -> bool {
    forall|k: int|
        0 <= k < xs.len() ==> (#[trigger] id_of(xs[k])) is Some && same_json(
            xs[k],
            record_with_id(family, id_of(xs[k]).unwrap()).unwrap(),
        )
}

/// Each of `xs` is a copy of some record of `records`.
pub open spec fn copies_from(xs: Seq<Json>, records: Seq<Json>) -> bool {
    forall|k: int| 0 <= k < xs.len() ==> copy_of_some(#[trigger] xs[k], records)
}

/// `x` is a copy of some record of `records`.
pub open spec fn copy_of_some(x: Json, records: Seq<Json>) -> bool {
    exists|p: int| 0 <= p < records.len() && same_json(x, #[trigger] records[p])
}

/// A copy of a record of an identified family has that record's
/// identifier and is a copy of the record with it.
proof fn lemma_copy_of_identified(x: Json, records: Seq<Json>)
    requires
        identified(records),
        copy_of_some(x, records),
    ensures
        id_of(x) is Some,
        same_json(x, record_with_id(records, id_of(x).unwrap()).unwrap()),
{
    let p = choose|p: int| 0 <= p < records.len() && same_json(x, #[trigger] records[p]);
    crate::json::lemma_same_json_members(x, records[p]);
    lemma_record_with_id(records, p);
}

/// A claim about a selected entity or relationship.
pub open spec fn about_selected(claim: Json, entities: Seq<Seq<char>>, relationships: Seq<Seq<char>>) -> bool {
    member_text(claim, "subject_id"@) matches Some(t) && (entities.contains(t) || relationships.contains(t))
}

/// The positions, in order, of the claims about a selected entity or
/// relationship.
pub open spec fn subject_positions(claims: Seq<Json>, entities: Seq<Seq<char>>, relationships: Seq<Seq<char>>) -> Seq<
    int,
>
    decreases claims.len(),
{
    if claims.len() == 0 {
        Seq::empty()
    } else {
        let rest = subject_positions(claims.drop_last(), entities, relationships);
        if about_selected(claims.last(), entities, relationships) {
            rest.push(claims.len() - 1)
        } else {
            rest
        }
    }
}

/// Copies of the claims about a selected entity or relationship, in order
/// ([`subject_positions`]); the claims family must be an array.
fn claims_about(graph: &Json, entity_ids: &[String], relationship_ids: &[String]) -> (r: Result<
    Vec<Json>,
    FunctionContextError,
>)
    ensures
        match member_items(*graph, "claims"@) {
            None => r matches Err(FunctionContextError::InvalidSnapshot),
            Some(cs) => r matches Ok(v) && {
                let ps = subject_positions(cs, texts(entity_ids@), texts(relationship_ids@));
                &&& v@.len() == ps.len()
                &&& forall|k: int| 0 <= k < v@.len() ==> same_json(#[trigger] v@[k], cs[ps[k]])
                &&& copies_from(v@, cs)
            },
        },
{
    let claims = match graph.get_array("claims") {
        Some(v) => v,
        None => return Err(FunctionContextError::InvalidSnapshot),
    };
    let ghost es = texts(entity_ids@);
    let ghost rs = texts(relationship_ids@);
    let ghost mut ps: Seq<int> = Seq::empty();
    let mut out: Vec<Json> = Vec::new();
    let mut k: usize = 0;
    while k < claims.len()
        invariant
            k <= claims.len(),
            es == texts(entity_ids@),
            rs == texts(relationship_ids@),
            ps == subject_positions(claims@.take(k as int), es, rs),
            out@.len() == ps.len(),
            forall|m: int| 0 <= m < ps.len() ==> 0 <= #[trigger] ps[m] < k,
            forall|m: int| 0 <= m < out@.len() ==> same_json(#[trigger] out@[m], claims@[ps[m]]),
        decreases claims.len() - k,
    {
        proof {
            assert(claims@.take(k + 1).drop_last() =~= claims@.take(k as int));
            assert(claims@.take(k + 1).last() == claims@[k as int]);
        }
        let keep = match claims[k].get_str("subject_id") {
            Some(t) => contains_text(entity_ids, t) || contains_text(relationship_ids, t),
            None => false,
        };
        if keep {
            out.push(json_copy(&claims[k]));
            proof {
                ps = ps.push(k as int);
            }
        }
        k += 1;
    }
    proof {
        assert(claims@.take(k as int) =~= claims@);
        assert forall|m: int| 0 <= m < out@.len() implies copy_of_some(#[trigger] out@[m], claims@) by {
            assert(same_json(out@[m], claims@[ps[m]]));
        }
    }
    Ok(out)
}

/// The derivations that the index under `index` holds, where it is an
/// object whose `derivations` member is an array.
pub open spec fn index_derivations(graph: Json, index: Seq<char>) -> Option<Seq<Json>> {
    match member(graph, index) {
        Some(i) => member_items(i, "derivations"@),
        None => None,
    }
}

/// The derivations, in order, that mention a selected entity or
/// relationship.
pub open spec fn derivations_mentioning(
    ds: Seq<Json>,
    entities: Seq<Seq<char>>,
    relationships: Seq<Seq<char>>,
) -> Seq<Json>
    decreases ds.len(),
{
    if ds.len() == 0 {
        Seq::empty()
    } else {
        let rest = derivations_mentioning(ds.drop_last(), entities, relationships);
        if crate::s4_r17::mentions_selected(ds.last(), entities, relationships) {
            rest.push(ds.last())
        } else {
            rest
        }
    }
}

/// `copies` holds one copy ([`same_json`]) of each record of `original`,
/// its `k`-th one of `original[perm[k]]`.
pub open spec fn copies_arranged(copies: Seq<Json>, original: Seq<Json>, perm: Seq<int>) -> bool {
    &&& copies.len() == original.len()
    &&& perm.len() == copies.len()
    &&& forall|k: int| 0 <= k < perm.len() ==> 0 <= #[trigger] perm[k] < original.len()
    &&& forall|k: int| 0 <= k < perm.len() ==> same_json(#[trigger] copies[k], original[perm[k]])
    &&& forall|i: int, j: int| 0 <= i < j < perm.len() ==> #[trigger] perm[i] != #[trigger] perm[j]
}

/// Appends to `out` copies of the derivations of the index under `index`
/// that mention a selected entity or relationship, in order; the index must
/// hold an array of derivations (else an invalid snapshot).
fn push_index_mentions(
    graph: &Json,
    index: &str,
    entity_ids: &[String],
    relationship_ids: &[String],
    out: &mut Vec<Json>,
) -> (r: Result<(), FunctionContextError>)
    ensures
        match index_derivations(*graph, index@) {
            Some(ds) => r is Ok && {
                let m = derivations_mentioning(ds, texts(entity_ids@), texts(relationship_ids@));
                &&& final(out)@.len() == old(out)@.len() + m.len()
                &&& forall|k: int| 0 <= k < old(out)@.len() ==> #[trigger] final(out)@[k] == old(out)@[k]
                &&& forall|k: int| 0 <= k < m.len() ==> same_json(#[trigger] final(out)@[old(out)@.len() + k], m[k])
            },
            None => r matches Err(FunctionContextError::InvalidSnapshot),
        },
{
    let values = match graph.get(index) {
        Some(i) => match i.get_array("derivations") {
            Some(v) => v,
            None => return Err(FunctionContextError::InvalidSnapshot),
        },
        None => return Err(FunctionContextError::InvalidSnapshot),
    };
    let ghost es = texts(entity_ids@);
    let ghost rs = texts(relationship_ids@);
    let ghost base = out@.len();
    let mut k: usize = 0;
    while k < values.len()
        invariant
            k <= values.len(),
            es == texts(entity_ids@),
            rs == texts(relationship_ids@),
            base == old(out)@.len(),
            out@.len() == base + derivations_mentioning(values@.take(k as int), es, rs).len(),
            forall|m: int| 0 <= m < base ==> #[trigger] out@[m] == old(out)@[m],
            forall|m: int|
                0 <= m < derivations_mentioning(values@.take(k as int), es, rs).len() ==> same_json(
                    #[trigger] out@[base + m],
                    derivations_mentioning(values@.take(k as int), es, rs)[m],
                ),
        decreases values.len() - k,
    {
        proof {
            assert(values@.take(k + 1).drop_last() =~= values@.take(k as int));
            assert(values@.take(k + 1).last() == values@[k as int]);
        }
        if contains_selected_reference(&values[k], entity_ids, relationship_ids) {
            out.push(json_copy(&values[k]));
        }
        k += 1;
    }
    proof {
        assert(values@.take(k as int) =~= values@);
    }
    Ok(())
}

/// Copies of the derivations of the local-flow and constant-evaluation
/// indexes (in that order) that mention a selected entity or relationship,
/// sorted by their canonical text: both indexes must hold an array of
/// derivations (else an invalid snapshot), and no two of those copies may
/// have the same text (else an invalid relationship).
fn derivations_about(graph: &Json, entity_ids: &[String], relationship_ids: &[String]) -> (r: Result<
    Vec<Json>,
    FunctionContextError,
>)
    ensures
        match (
            index_derivations(*graph, "local_flow_index"@),
            index_derivations(*graph, "constant_evaluation_index"@),
        ) {
            (Some(lf), Some(ce)) => {
                let sel = derivations_mentioning(lf, texts(entity_ids@), texts(relationship_ids@))
                    + derivations_mentioning(ce, texts(entity_ids@), texts(relationship_ids@));
                &&& (r is Ok <==> distinct_canonical_texts(sel))
                &&& (r matches Err(e) ==> e is InvalidRelationship)
                &&& (r matches Ok(v) ==> sorted_by_canonical_text(v@) && exists|perm: Seq<int>|
                    copies_arranged(v@, sel, perm))
            },
            _ => r matches Err(FunctionContextError::InvalidSnapshot),
        },
{
    let mut out: Vec<Json> = Vec::new();
    push_index_mentions(graph, "local_flow_index", entity_ids, relationship_ids, &mut out)?;
    let ghost mid = out@;
    push_index_mentions(graph, "constant_evaluation_index", entity_ids, relationship_ids, &mut out)?;
    let ghost es = texts(entity_ids@);
    let ghost rs = texts(relationship_ids@);
    let ghost sel = derivations_mentioning(
        index_derivations(*graph, "local_flow_index"@)->Some_0,
        es,
        rs,
    ) + derivations_mentioning(index_derivations(*graph, "constant_evaluation_index"@)->Some_0, es, rs);
    let ghost copies = out@;
    proof {
        assert forall|k: int| 0 <= k < sel.len() implies same_json(#[trigger] copies[k], sel[k]) by {
            let a = derivations_mentioning(index_derivations(*graph, "local_flow_index"@)->Some_0, es, rs);
            let b = derivations_mentioning(index_derivations(*graph, "constant_evaluation_index"@)->Some_0, es, rs);
            assert(mid.len() == a.len());
            if k >= a.len() {
                assert(sel[k] == b[k - a.len()]);
                assert(same_json(copies[a.len() + (k - a.len())], b[k - a.len()]));
            } else {
                assert(sel[k] == a[k]);
                assert(copies[k] == mid[k]);
                assert(same_json(mid[0 + k], a[k]));
            }
        }
        assert forall|k: int| 0 <= k < sel.len() implies json_text(#[trigger] copies[k]) == json_text(sel[k]) by {
            crate::json::lemma_same_json_text(copies[k], sel[k]);
        }
        assert(distinct_canonical_texts(copies) <==> distinct_canonical_texts(sel)) by {
            if distinct_canonical_texts(copies) {
                assert forall|i: int, j: int| 0 <= i < j < sel.len() implies json_text(#[trigger] sel[i])
                    != json_text(#[trigger] sel[j]) by {
                    assert(json_text(copies[i]) != json_text(copies[j]));
                }
            }
            if distinct_canonical_texts(sel) {
                assert forall|i: int, j: int| 0 <= i < j < sel.len() implies json_text(#[trigger] copies[i])
                    != json_text(#[trigger] copies[j]) by {
                    assert(json_text(sel[i]) != json_text(sel[j]));
                }
            }
        }
    }
    let sorted = sort_derivations(out)?;
    proof {
        let perm = choose|perm: Seq<int>| is_arrangement(sorted@, copies, perm);
        assert forall|k: int| 0 <= k < perm.len() implies same_json(#[trigger] sorted@[k], sel[perm[k]]) by {
            assert(sorted@[k] == copies[perm[k]]);
        }
        assert(copies_arranged(sorted@, sel, perm));
    }
    Ok(sorted)
}

/// The input-claim tokens of one derivation: none where it names no input
/// claims, a lone `None` where they are not an array, else the text of each
/// name in order (`None` for one that is not a string).
pub open spec fn derivation_tokens(d: Json) -> Seq<Option<Seq<char>>> {
    match member(d, "input_claim_ids"@) {
        None => Seq::empty(),
        Some(v) => match as_items(v) {
            None => seq![None],
            Some(items) => Seq::new(items.len(), |k: int| crate::json::as_text(items[k])),
        },
    }
}

/// The input-claim tokens of the derivations, in order.
pub open spec fn input_tokens(ds: Seq<Json>) -> Seq<Option<Seq<char>>>
    decreases ds.len(),
{
    if ds.len() == 0 {
        Seq::empty()
    } else {
        input_tokens(ds.drop_last()) + derivation_tokens(ds.last())
    }
}

/// A token that is a string naming a claim.
pub open spec fn names_claim(all: Seq<Json>, t: Option<Seq<char>>) -> bool {
    t matches Some(n) && record_with_id(all, n) is Some
}

/// The first token, if any, that names no claim: `Some(None)` where it is
/// no string, `Some(Some(n))` where it is the dangling name `n`.
pub open spec fn token_failure(all: Seq<Json>, toks: Seq<Option<Seq<char>>>) -> Option<Option<Seq<char>>>
    decreases toks.len(),
{
    if toks.len() == 0 {
        None
    } else {
        match token_failure(all, toks.drop_last()) {
            Some(f) => Some(f),
            None => if names_claim(all, toks.last()) {
                None
            } else {
                Some(toks.last())
            },
        }
    }
}

/// The claims that the named tokens add to a selection that starts as
/// `start`: the claim of each name that neither `start` nor an earlier token
/// holds, in order.
pub open spec fn added_claims(all: Seq<Json>, start: Seq<Seq<char>>, toks: Seq<Option<Seq<char>>>) -> Seq<Json>
    decreases toks.len(),
{
    if toks.len() == 0 {
        Seq::empty()
    } else {
        let prev = added_claims(all, start, toks.drop_last());
        let x = toks.last().unwrap();
        if start.contains(x) || toks.drop_last().contains(Some(x)) {
            prev
        } else {
            prev.push(record_with_id(all, x).unwrap())
        }
    }
}

/// A failure among the first tokens is the failure of them all.
proof fn lemma_token_failure_prefix(all: Seq<Json>, toks: Seq<Option<Seq<char>>>, n: int)
    requires
        0 <= n <= toks.len(),
        token_failure(all, toks.take(n)) is Some,
    ensures
        token_failure(all, toks) == token_failure(all, toks.take(n)),
    decreases toks.len(),
{
    if n == toks.len() {
        assert(toks.take(n) =~= toks);
    } else {
        assert(toks.drop_last().take(n) =~= toks.take(n));
        lemma_token_failure_prefix(all, toks.drop_last(), n);
    }
}

/// The tokens of the first derivations begin the tokens of them all.
proof fn lemma_input_tokens_prefix(ds: Seq<Json>, m: int)
    requires
        0 <= m <= ds.len(),
    ensures
        input_tokens(ds.take(m)).len() <= input_tokens(ds).len(),
        input_tokens(ds).take(input_tokens(ds.take(m)).len() as int) == input_tokens(ds.take(m)),
    decreases ds.len(),
{
    if m == ds.len() {
        assert(ds.take(m) =~= ds);
        assert(input_tokens(ds).take(input_tokens(ds).len() as int) =~= input_tokens(ds));
    } else {
        assert(ds.drop_last().take(m) =~= ds.take(m));
        lemma_input_tokens_prefix(ds.drop_last(), m);
        let l = input_tokens(ds.take(m)).len() as int;
        assert(input_tokens(ds).take(l) =~= input_tokens(ds.drop_last()).take(l));
    }
}

/// A failure among the tokens read so far, which begin those of the
/// derivations up to `d`, is the failure of all tokens.
proof fn lemma_failure_persists(all: Seq<Json>, ds: Seq<Json>, d: int, toks: Seq<Option<Seq<char>>>)
    requires
        0 <= d < ds.len(),
        toks.len() <= input_tokens(ds.take(d + 1)).len(),
        toks == input_tokens(ds.take(d + 1)).take(toks.len() as int),
        token_failure(all, toks) is Some,
    ensures
        token_failure(all, input_tokens(ds)) == token_failure(all, toks),
{
    lemma_input_tokens_prefix(ds, d + 1);
    let whole = input_tokens(ds);
    assert(whole.take(toks.len() as int) =~= toks);
    lemma_token_failure_prefix(all, whole, toks.len() as int);
}

/// Adds to `claims` a copy of every claim that a derivation names among its
/// input claims and that is not selected yet, in order; the names must be
/// strings (else an invalid snapshot) naming claims (else a dangling
/// reference), and the first that is neither decides the error.
fn add_input_claims(
    derivations: &[Json],
    all_claims: &[Json],
    claim_family_ids: &[String],
    selected_claim_ids: &mut Vec<String>,
    claims: &mut Vec<Json>,
) -> (r: Result<(), FunctionContextError>)
    requires
        identified(all_claims@),
        texts(claim_family_ids@) == ids_of(all_claims@),
        sorted_texts(texts(old(selected_claim_ids)@)),
    ensures
        sorted_texts(texts(final(selected_claim_ids)@)),
        forall|k: int|
            old(claims)@.len() <= k < final(claims)@.len() ==> copy_of_some(#[trigger] final(claims)@[k], all_claims@),
        forall|k: int| 0 <= k < old(claims)@.len() ==> #[trigger] final(claims)@[k] == old(claims)@[k],
        match token_failure(all_claims@, input_tokens(derivations@)) {
            None => r is Ok && {
                let toks = input_tokens(derivations@);
                let added = added_claims(all_claims@, texts(old(selected_claim_ids)@), toks);
                &&& forall|y: Seq<char>| #[trigger]
                    texts(final(selected_claim_ids)@).contains(y) <==> (texts(old(selected_claim_ids)@).contains(y)
                        || toks.contains(Some(y)))
                &&& final(claims)@.len() == old(claims)@.len() + added.len()
                &&& forall|k: int| 0 <= k < old(claims)@.len() ==> #[trigger] final(claims)@[k] == old(claims)@[k]
                &&& forall|k: int|
                    0 <= k < added.len() ==> same_json(#[trigger] final(claims)@[old(claims)@.len() + k], added[k])
            },
            Some(None) => r matches Err(FunctionContextError::InvalidSnapshot),
            Some(Some(n)) => r matches Err(FunctionContextError::DanglingReference(s)) && s@ == n,
        },
{
    let ghost all = all_claims@;
    let ghost start = texts(selected_claim_ids@);
    let ghost base = claims@.len();
    let ghost mut toks: Seq<Option<Seq<char>>> = Seq::empty();
    let mut d: usize = 0;
    while d < derivations.len()
        invariant
            d <= derivations.len(),
            all == all_claims@,
            identified(all_claims@),
            texts(claim_family_ids@) == ids_of(all_claims@),
            sorted_texts(texts(selected_claim_ids@)),
            start == texts(old(selected_claim_ids)@),
            base == old(claims)@.len(),
            toks == input_tokens(derivations@.take(d as int)),
            token_failure(all, toks) is None,
            forall|y: Seq<char>| #[trigger]
                texts(selected_claim_ids@).contains(y) <==> (start.contains(y) || toks.contains(Some(y))),
            claims@.len() == base + added_claims(all, start, toks).len(),
            forall|k: int| 0 <= k < base ==> #[trigger] claims@[k] == old(claims)@[k],
            forall|m: int| base <= m < claims@.len() ==> copy_of_some(#[trigger] claims@[m], all_claims@),
            forall|k: int|
                0 <= k < added_claims(all, start, toks).len() ==> same_json(
                    #[trigger] claims@[base + k],
                    added_claims(all, start, toks)[k],
                ),
        decreases derivations.len() - d,
    {
        let ghost prefix = toks;
        proof {
            assert(derivations@.take(d + 1).drop_last() =~= derivations@.take(d as int));
            assert(derivations@.take(d + 1).last() == derivations@[d as int]);
        }
        match derivations[d].get("input_claim_ids") {
            None => {
                proof {
                    assert(input_tokens(derivations@.take(d + 1)) =~= toks);
                }
            },
            Some(values) => {
                let items = match values.as_array() {
                    Some(items) => items,
                    None => {
                        proof {
                            let t2 = toks.push(None);
                            assert(t2.drop_last() =~= toks);
                            assert(input_tokens(derivations@.take(d + 1)) =~= t2);
                            assert(t2 =~= input_tokens(derivations@.take(d + 1)).take(t2.len() as int));
                            lemma_failure_persists(all, derivations@, d as int, t2);
                        }
                        return Err(FunctionContextError::InvalidSnapshot);
                    },
                };
                let ghost dt = derivation_tokens(derivations@[d as int]);
                let mut k: usize = 0;
                while k < items.len()
                    invariant
                        k <= items.len(),
                        d < derivations.len(),
                        all == all_claims@,
                        identified(all_claims@),
                        texts(claim_family_ids@) == ids_of(all_claims@),
                        sorted_texts(texts(selected_claim_ids@)),
                        start == texts(old(selected_claim_ids)@),
                        base == old(claims)@.len(),
                        prefix == input_tokens(derivations@.take(d as int)),
                        input_tokens(derivations@.take(d + 1)) == prefix + dt,
                        dt == Seq::new(items@.len(), |i: int| crate::json::as_text(items@[i])),
                        toks == prefix + dt.take(k as int),
                        token_failure(all, toks) is None,
                        forall|y: Seq<char>| #[trigger]
                            texts(selected_claim_ids@).contains(y) <==> (start.contains(y) || toks.contains(Some(y))),
                        claims@.len() == base + added_claims(all, start, toks).len(),
                        forall|m: int| 0 <= m < base ==> #[trigger] claims@[m] == old(claims)@[m],
                        forall|m: int| base <= m < claims@.len() ==> copy_of_some(#[trigger] claims@[m], all_claims@),
                        forall|m: int|
                            0 <= m < added_claims(all, start, toks).len() ==> same_json(
                                #[trigger] claims@[base + m],
                                added_claims(all, start, toks)[m],
                            ),
                    decreases items.len() - k,
                {
                    let ghost t2 = toks.push(dt[k as int]);
                    proof {
                        assert(t2.drop_last() =~= toks);
                        assert(t2 =~= prefix + dt.take(k + 1));
                        assert(t2 =~= input_tokens(derivations@.take(d + 1)).take(t2.len() as int));
                    }
                    let id = match items[k].as_str() {
                        Some(t) => t,
                        None => {
                            proof {
                                lemma_failure_persists(all, derivations@, d as int, t2);
                            }
                            return Err(FunctionContextError::InvalidSnapshot);
                        },
                    };
                    let claim = match entity_with_id(all_claims, claim_family_ids, id) {
                        Ok(c) => c,
                        Err(e) => {
                            proof {
                                lemma_failure_persists(all, derivations@, d as int, t2);
                            }
                            return Err(e);
                        },
                    };
                    let ghost sel_before = texts(selected_claim_ids@);
                    let ghost claims_before = claims@;
                    let inserted = insert_text(selected_claim_ids, id);
                    proof {
                        let c = choose|c: int| 0 <= c < all_claims@.len() && #[trigger] id_of(all_claims@[c]) == Some(id@);
                        assert(all_claims@[c] == *claim);
                    }
                    if inserted {
                        let ghost before_push = claims@;
                        let copy = json_copy(claim);
                        claims.push(copy);
                        proof {
                            let c = choose|c: int| 0 <= c < all_claims@.len() && #[trigger] id_of(all_claims@[c]) == Some(id@);
                            assert(same_json(copy, all_claims@[c]));
                            assert(copy_of_some(claims@[before_push.len() as int], all_claims@));
                        }
                    }
                    proof {
                        assert(t2.last() == Some(id@));
                        assert forall|y: Seq<char>| #[trigger]
                            texts(selected_claim_ids@).contains(y) <==> (start.contains(y) || t2.contains(Some(y))) by {
                            if toks.contains(Some(y)) {
                                let w = choose|w: int| 0 <= w < toks.len() && toks[w] == Some(y);
                                assert(t2[w] == Some(y));
                            }
                            if t2.contains(Some(y)) && y != id@ {
                                let w = choose|w: int| 0 <= w < t2.len() && t2[w] == Some(y);
                                assert(w < toks.len());
                                assert(toks[w] == Some(y));
                            }
                            if y == id@ {
                                assert(t2[t2.len() - 1] == Some(y));
                            }
                        }
                        assert(sel_before.contains(id@) <==> (start.contains(id@) || toks.contains(Some(id@))));
                    }
                    proof {
                        toks = t2;
                    }
                    k += 1;
                }
                proof {
                    assert(dt.take(k as int) =~= dt);
                }
            },
        }
        d += 1;
    }
    proof {
        assert(derivations@.take(d as int) =~= derivations@);
    }
    Ok(())
}

/// The positions that [`selected_positions`] lists are positions of the
/// records.
proof fn lemma_selected_positions_in_range(records: Seq<Json>, entities: Seq<Seq<char>>)
    ensures
        forall|k: int|
            0 <= k < crate::s4_r17::selected_positions(records, entities).len() ==> 0 <= #[trigger] crate::s4_r17::selected_positions(
                records,
                entities,
            )[k] < records.len(),
    decreases records.len(),
{
    if records.len() > 0 {
        lemma_selected_positions_in_range(records.drop_last(), entities);
        let rest = crate::s4_r17::selected_positions(records.drop_last(), entities);
        let all = crate::s4_r17::selected_positions(records, entities);
        assert forall|k: int| 0 <= k < all.len() implies 0 <= #[trigger] all[k] < records.len() by {
            if k < rest.len() {
                assert(all[k] == rest[k]);
            }
        }
    }
}

/// Copies of the uncertainty records of `family` about a selected entity,
/// in order ([`selected_positions`]); the family must be an array.
fn uncertainty_about(graph: &Json, family: &str, entity_ids: &[String]) -> (r: Result<
    Vec<Json>,
    FunctionContextError,
>)
    ensures
        match member_items(*graph, family@) {
            None => r matches Err(FunctionContextError::InvalidSnapshot),
            Some(records) => r matches Ok(v) && {
                let ps = crate::s4_r17::selected_positions(records, texts(entity_ids@));
                &&& v@.len() == ps.len()
                &&& forall|k: int| 0 <= k < v@.len() ==> same_json(#[trigger] v@[k], records[ps[k]])
            },
        },
{
    let positions = selected_uncertainty(graph, family, entity_ids)?;
    let records = match graph.get_array(family) {
        Some(v) => v,
        None => return Err(FunctionContextError::InvalidSnapshot),
    };
    let ghost ps = crate::s4_r17::selected_positions(records@, texts(entity_ids@));
    proof {
        lemma_selected_positions_in_range(records@, texts(entity_ids@));
        assert forall|m: int| 0 <= m < positions@.len() implies #[trigger] positions@[m] as int == ps[m] by {
            assert(positions@.map_values(|k: usize| k as int)[m] == positions@[m] as int);
        }
    }
    let mut out: Vec<Json> = Vec::new();
    let mut k: usize = 0;
    while k < positions.len()
        invariant
            k <= positions.len(),
            positions@.len() == ps.len(),
            forall|m: int| 0 <= m < positions@.len() ==> #[trigger] positions@[m] as int == ps[m],
            forall|m: int| 0 <= m < ps.len() ==> 0 <= #[trigger] ps[m] < records@.len(),
            out@.len() == k,
            forall|m: int| 0 <= m < k ==> same_json(#[trigger] out@[m], records@[ps[m]]),
        decreases positions.len() - k,
    {
        assert(positions@[k as int] as int == ps[k as int]);
        if positions[k] < records.len() {
            out.push(json_copy(&records[positions[k]]));
        }
        k += 1;
    }
    Ok(out)
}

/// A sequence without repeats that lies within `b` is no longer than `b`.
proof fn lemma_distinct_within(a: Seq<Seq<char>>, b: Seq<Seq<char>>)
    requires
        a.no_duplicates(),
        forall|x: Seq<char>| #[trigger] a.contains(x) ==> b.contains(x),
    ensures
        a.len() <= b.len(),
{
    a.unique_seq_to_set();
    b.lemma_cardinality_of_set();
    assert(a.to_set().subset_of(b.to_set()));
    vstd::seq_lib::seq_to_set_is_finite(b);
    vstd::set_lib::lemma_len_subset(a.to_set(), b.to_set());
}

/// Every text of `s` lies in `q`.
pub open spec fn texts_within(s: Seq<Seq<char>>, q: Set<Seq<char>>) -> bool {
    forall|x: Seq<char>| #[trigger] s.contains(x) ==> q.contains(x)
}

/// The evidence record with the identifier `x` exists, its evidence
/// references are well formed ([`crate::s4_r17::evidence_refs`]) and each
/// lies in `q`.
pub open spec fn refs_within(records: Seq<Json>, x: Seq<char>, q: Set<Seq<char>>) -> bool {
    match record_with_id(records, x) {
        Some(rec) => match crate::s4_r17::evidence_refs(rec) {
            Some(refs) => texts_within(refs, q),
            None => false,
        },
        None => false,
    }
}

/// `q` holds the identifiers of `initial`, and each identifier it holds
/// names an evidence record whose references lie in `q`.
pub open spec fn evidence_closed(records: Seq<Json>, initial: Seq<Seq<char>>, q: Set<Seq<char>>) -> bool {
    &&& texts_within(initial, q)
    &&& forall|x: Seq<char>| #[trigger] q.contains(x) ==> refs_within(records, x, q)
}

/// The identifiers of records.
pub open spec fn id_set(records: Seq<Json>) -> Set<Seq<char>> {
    Set::new(|x: Seq<char>| exists|k: int| 0 <= k < records.len() && id_of(#[trigger] records[k]) == Some(x))
}

/// What lies in a smaller set of references lies in a larger one.
proof fn lemma_refs_within_grow(records: Seq<Json>, x: Seq<char>, a: Set<Seq<char>>, b: Set<Seq<char>>)
    requires
        refs_within(records, x, a),
        a.subset_of(b),
    ensures
        refs_within(records, x, b),
{
    let refs = crate::s4_r17::evidence_refs(record_with_id(records, x).unwrap()).unwrap();
    assert forall|y: Seq<char>| #[trigger] refs.contains(y) implies b.contains(y) by {
        assert(a.contains(y));
    }
}

/// A sequence without repeats that holds all of another as long as itself
/// holds nothing else.
proof fn lemma_same_len_superset(a: Seq<Seq<char>>, b: Seq<Seq<char>>)
    requires
        a.no_duplicates(),
        b.no_duplicates(),
        a.len() == b.len(),
        forall|x: Seq<char>| #[trigger] a.contains(x) ==> b.contains(x),
    ensures
        forall|x: Seq<char>| #[trigger] b.contains(x) ==> a.contains(x),
{
    assert forall|y: Seq<char>| #[trigger] b.contains(y) implies a.contains(y) by {
        if !a.contains(y) {
            a.unique_seq_to_set();
            b.unique_seq_to_set();
            vstd::seq_lib::seq_to_set_is_finite(b);
            assert(a.to_set().insert(y).subset_of(b.to_set()));
            vstd::set_lib::lemma_len_subset(a.to_set().insert(y), b.to_set());
        }
    }
}

/// Appends to `pending`, in order, each identifier of `ids` that no record
/// of `evidence` has.
fn queue_unprocessed(ids: &[String], evidence: &[Json], pending: &mut Vec<String>)
    ensures
        forall|x: Seq<char>| #[trigger]
            texts(final(pending)@).contains(x) <==> (texts(old(pending)@).contains(x) || (texts(ids@).contains(x)
                && !id_set(evidence@).contains(x))),
{
    let mut i: usize = 0;
    while i < ids.len()
        invariant
            i <= ids.len(),
            forall|x: Seq<char>| #[trigger]
                texts(pending@).contains(x) <==> (texts(old(pending)@).contains(x) || (texts(ids@).take(
                    i as int,
                ).contains(x) && !id_set(evidence@).contains(x))),
        decreases ids.len() - i,
    {
        let mut present = false;
        let mut j: usize = 0;
        while j < evidence.len()
            invariant
                j <= evidence.len(),
                i < ids.len(),
                present <==> exists|m: int| 0 <= m < j && id_of(#[trigger] evidence@[m]) == Some(ids@[i as int]@),
                forall|x: Seq<char>| #[trigger]
                    texts(pending@).contains(x) <==> (texts(old(pending)@).contains(x) || (texts(ids@).take(
                        i as int,
                    ).contains(x) && !id_set(evidence@).contains(x))),
            decreases evidence.len() - j,
        {
            match evidence[j].get_str("id") {
                Some(t) => if text_eq(t, ids[i].as_str()) {
                    present = true;
                },
                None => {},
            }
            j += 1;
        }
        let ghost p0 = texts(pending@);
        let ghost x0 = ids@[i as int]@;
        proof {
            assert(texts(ids@).take(i + 1) =~= texts(ids@).take(i as int).push(x0));
            assert(present <==> id_set(evidence@).contains(x0));
        }
        if !present {
            let c = ids[i].clone();
            pending.push(c);
            proof {
                assert(texts(pending@) =~= p0.push(x0));
            }
        }
        proof {
            assert forall|x: Seq<char>| #[trigger]
                texts(pending@).contains(x) <==> (texts(old(pending)@).contains(x) || (texts(ids@).take(
                    i + 1,
                ).contains(x) && !id_set(evidence@).contains(x))) by {
                assert(texts(ids@).take(i + 1)[i as int] == x0);
                assert(texts(ids@).take(i + 1).contains(x) <==> (texts(ids@).take(i as int).contains(x) || x == x0));
                if texts(ids@).take(i + 1).contains(x) && !texts(ids@).take(i as int).contains(x) {
                    let w = choose|w: int| 0 <= w < i + 1 && #[trigger] texts(ids@).take(i + 1)[w] == x;
                    assert(w == i);
                }
                if texts(ids@).take(i as int).contains(x) {
                    let w = choose|w: int| 0 <= w < i && #[trigger] texts(ids@).take(i as int)[w] == x;
                    assert(texts(ids@).take(i + 1)[w] == x);
                }
                if !present && x == x0 {
                    assert(texts(pending@)[p0.len() as int] == x0);
                }
                if !present && texts(pending@).contains(x) && x != x0 {
                    let w = choose|w: int| 0 <= w < texts(pending@).len() && #[trigger] texts(pending@)[w] == x;
                    assert(w < p0.len());
                    assert(p0[w] == x);
                }
                if !present && p0.contains(x) {
                    let w = choose|w: int| 0 <= w < p0.len() && #[trigger] p0[w] == x;
                    assert(texts(pending@)[w] == x);
                }
            }
        }
        i += 1;
    }
    proof {
        assert(texts(ids@).take(i as int) =~= texts(ids@));
    }
}

/// Copies of the evidence records that the selection references, directly
/// or through other evidence, sorted by identifier: the least set of
/// identifiers that holds those of `initial` and is closed under the
/// references of the records it names ([`evidence_closed`]). It exists
/// exactly when the closure succeeds; else a referenced record that does
/// not exist is a dangling reference, and malformed evidence references an
/// invalid snapshot.
fn evidence_closure(
    evidence_records: &[Json],
    evidence_family_ids: &[String],
    initial: Vec<String>,
) -> (r: Result<Vec<Json>, FunctionContextError>)
    requires
        identified(evidence_records@),
        texts(evidence_family_ids@) == ids_of(evidence_records@),
        sorted_texts(texts(initial@)),
    ensures
        r is Ok <==> exists|q: Set<Seq<char>>| evidence_closed(evidence_records@, texts(initial@), q),
        r matches Err(e) ==> e is InvalidSnapshot || e is DanglingReference,
        r matches Ok(v) ==> {
            &&& sorted_by_text(v@, "id"@)
            &&& forall|k: int| 0 <= k < v@.len() ==> (#[trigger] id_of(v@[k])) is Some
            &&& evidence_closed(evidence_records@, texts(initial@), id_set(v@))
            &&& forall|q: Set<Seq<char>>|
                evidence_closed(evidence_records@, texts(initial@), q) ==> #[trigger] id_set(v@).subset_of(q)
            &&& forall|k: int|
                0 <= k < v@.len() ==> same_json(
                    #[trigger] v@[k],
                    record_with_id(evidence_records@, id_of(v@[k]).unwrap()).unwrap(),
                )
        },
{
    let ghost recs = evidence_records@;
    let ghost start = texts(initial@);
    let mut evidence_ids = initial;
    let mut pending: Vec<String> = Vec::new();
    let mut k: usize = 0;
    while k < evidence_ids.len()
        invariant
            k <= evidence_ids.len(),
            start == texts(evidence_ids@),
            pending@.len() == k,
            forall|m: int| 0 <= m < k ==> #[trigger] pending@[m]@ == evidence_ids@[m]@,
        decreases evidence_ids.len() - k,
    {
        pending.push(evidence_ids[k].clone());
        k += 1;
    }
    proof {
        assert(texts(pending@) =~= texts(evidence_ids@));
        assert forall|q: Set<Seq<char>>| #[trigger] evidence_closed(recs, start, q) implies texts_within(
            texts(evidence_ids@),
            q,
        ) && texts_within(texts(Seq::<String>::empty()), q) && texts_within(texts(pending@), q) by {
            assert(texts(Seq::<String>::empty()) =~= Seq::<Seq<char>>::empty());
        }
        assert(texts(Seq::<String>::empty()) =~= Seq::<Seq<char>>::empty());
    }
    let mut processed: Vec<String> = Vec::new();
    let mut evidence: Vec<Json> = Vec::new();
    let ghost mut order: Seq<Seq<char>> = Seq::empty();
    let ghost bound = evidence_records@.len();
    while pending.len() > 0
        invariant
            recs == evidence_records@,
            start == texts(initial@),
            identified(evidence_records@),
            texts(evidence_family_ids@) == ids_of(evidence_records@),
            sorted_texts(texts(evidence_ids@)),
            sorted_texts(texts(processed@)),
            bound == evidence_records@.len(),
            forall|x: Seq<char>| #[trigger] texts(processed@).contains(x) ==> texts(evidence_family_ids@).contains(x),
            processed@.len() <= bound,
            texts_within(start, texts(evidence_ids@).to_set()),
            forall|x: Seq<char>| #[trigger]
                texts(evidence_ids@).contains(x) ==> texts(processed@).contains(x) || texts(pending@).contains(x),
            forall|x: Seq<char>| #[trigger]
                texts(processed@).contains(x) ==> refs_within(recs, x, texts(evidence_ids@).to_set()),
            forall|q: Set<Seq<char>>| #[trigger]
                evidence_closed(recs, start, q) ==> texts_within(texts(evidence_ids@), q) && texts_within(
                    texts(processed@),
                    q,
                ) && texts_within(texts(pending@), q),
            evidence@.len() == order.len(),
            order.no_duplicates(),
            forall|x: Seq<char>| #[trigger] order.contains(x) <==> texts(processed@).contains(x),
            forall|j: int|
                0 <= j < order.len() ==> id_of(#[trigger] evidence@[j]) == Some(order[j]) && same_json(
                    evidence@[j],
                    record_with_id(recs, order[j]).unwrap(),
                ),
        decreases bound - processed@.len(), pending@.len(),
    {
        let ghost pend0 = texts(pending@);
        let identifier = pending.pop().unwrap();
        let ghost x0 = identifier@;
        proof {
            assert(pend0[pend0.len() - 1] == x0);
            assert(pend0.contains(x0));
            assert forall|x: Seq<char>| #[trigger] pend0.contains(x) && x != x0 implies texts(pending@).contains(x) by {
                let w = choose|w: int| 0 <= w < pend0.len() && #[trigger] pend0[w] == x;
                assert(w < pend0.len() - 1);
                assert(texts(pending@)[w] == x);
            }
            assert forall|x: Seq<char>| #[trigger] texts(pending@).contains(x) implies pend0.contains(x) by {
                let w = choose|w: int| 0 <= w < texts(pending@).len() && #[trigger] texts(pending@)[w] == x;
                assert(pend0[w] == x);
            }
        }
        let ghost before = texts(processed@);
        let value = match entity_with_id(evidence_records, evidence_family_ids, identifier.as_str()) {
            Ok(v) => v,
            Err(e) => {
                proof {
                    assert forall|q: Set<Seq<char>>| !evidence_closed(recs, start, q) by {
                        if evidence_closed(recs, start, q) {
                            assert(q.contains(x0));
                        }
                    }
                }
                return Err(e);
            },
        };
        let ghost ev0 = texts(evidence_ids@);
        if !insert_text(&mut processed, identifier.as_str()) {
            proof {
                assert forall|x: Seq<char>| #[trigger] ev0.contains(x) implies texts(processed@).contains(x) || texts(
                    pending@,
                ).contains(x) by {
                    if x != x0 && !texts(processed@).contains(x) {
                        assert(pend0.contains(x));
                    }
                }
                assert forall|q: Set<Seq<char>>| #[trigger] evidence_closed(recs, start, q) implies texts_within(
                    texts(pending@),
                    q,
                ) by {
                    assert forall|x: Seq<char>| #[trigger] texts(pending@).contains(x) implies q.contains(x) by {
                        assert(pend0.contains(x));
                    }
                }
            }
            continue;
        }
        proof {
            let c = choose|c: int| 0 <= c < evidence_records@.len() && #[trigger] id_of(evidence_records@[c]) == Some(identifier@);
            assert(ids_of(evidence_records@)[c] == identifier@);
            assert(texts(evidence_family_ids@)[c] == identifier@);
            assert forall|x: Seq<char>| #[trigger] texts(processed@).contains(x) implies texts(evidence_family_ids@).contains(x) by {
                if x != identifier@ {
                    assert(before.contains(x));
                }
            }
            lemma_sorted_no_duplicates(texts(processed@));
            lemma_distinct_within(texts(processed@), texts(evidence_family_ids@));
            assert(id_of(*value) == Some(x0));
        }
        let copy = json_copy(value);
        proof {
            crate::json::lemma_same_json_members(copy, *value);
        }
        let ghost ev_len0 = evidence@.len();
        let ghost order0 = order;
        evidence.push(copy);
        proof {
            assert(evidence@[ev_len0 as int] == copy);
            assert(!order0.contains(x0));
            order = order.push(x0);
            assert forall|i: int, j: int| 0 <= i < order.len() && 0 <= j < order.len() && i != j implies order[i]
                != order[j] by {
                if i < order0.len() && j < order0.len() {
                    assert(order0[i] != order0[j]);
                } else if i < order0.len() {
                    assert(order0.contains(order0[i]));
                } else if j < order0.len() {
                    assert(order0.contains(order0[j]));
                }
            }
        }
        let before_len = evidence_ids.len();
        match collect_evidence_ids(value, &mut evidence_ids) {
            Ok(()) => {},
            Err(e) => {
                proof {
                    assert forall|q: Set<Seq<char>>| !evidence_closed(recs, start, q) by {
                        if evidence_closed(recs, start, q) {
                            assert(q.contains(x0));
                            assert(refs_within(recs, x0, q));
                        }
                    }
                }
                return Err(e);
            },
        }
        let ghost ev1 = texts(evidence_ids@);
        proof {
            let refs = crate::s4_r17::evidence_refs(*value).unwrap();
            assert(ev0.to_set().subset_of(ev1.to_set()));
            assert forall|x: Seq<char>| #[trigger] texts(processed@).contains(x) implies refs_within(
                recs,
                x,
                ev1.to_set(),
            ) by {
                if x == x0 {
                    assert forall|y: Seq<char>| #[trigger] refs.contains(y) implies ev1.to_set().contains(y) by {
                        assert(ev1.contains(y));
                    }
                } else {
                    assert(before.contains(x));
                    lemma_refs_within_grow(recs, x, ev0.to_set(), ev1.to_set());
                }
            }
            assert forall|x: Seq<char>| #[trigger] start.contains(x) implies ev1.to_set().contains(x) by {
                assert(ev0.to_set().contains(x));
            }
            assert forall|q: Set<Seq<char>>| #[trigger] evidence_closed(recs, start, q) implies texts_within(ev1, q)
                && texts_within(texts(processed@), q) && texts_within(texts(pending@), q) by {
                assert(q.contains(x0));
                assert(refs_within(recs, x0, q));
                assert forall|x: Seq<char>| #[trigger] ev1.contains(x) implies q.contains(x) by {
                    if ev0.contains(x) {
                    } else {
                        assert(refs.contains(x));
                    }
                }
                assert forall|x: Seq<char>| #[trigger] texts(processed@).contains(x) implies q.contains(x) by {
                    if x != x0 {
                        assert(before.contains(x));
                    }
                }
                assert forall|x: Seq<char>| #[trigger] texts(pending@).contains(x) implies q.contains(x) by {
                    assert(pend0.contains(x));
                }
            }
            assert forall|x: Seq<char>| #[trigger] order.contains(x) <==> texts(processed@).contains(x) by {
                assert(order.drop_last() =~= order0);
                if order.contains(x) && x != x0 {
                    let w = choose|w: int| 0 <= w < order.len() && #[trigger] order[w] == x;
                    assert(order0[w] == x);
                    assert(order0.contains(x));
                    assert(before.contains(x));
                }
                if texts(processed@).contains(x) && x != x0 {
                    assert(before.contains(x));
                    assert(order0.contains(x));
                    let w = choose|w: int| 0 <= w < order0.len() && #[trigger] order0[w] == x;
                    assert(order[w] == x);
                }
                if x == x0 {
                    assert(order[order.len() - 1] == x0);
                }
            }
        }
        if evidence_ids.len() != before_len {
            let ghost pend1 = texts(pending@);
            queue_unprocessed(&evidence_ids, &evidence, &mut pending);
            proof {
                assert forall|x: Seq<char>| id_set(evidence@).contains(x) <==> #[trigger] order.contains(x) by {
                    if id_set(evidence@).contains(x) {
                        let m = choose|m: int| 0 <= m < evidence@.len() && id_of(#[trigger] evidence@[m]) == Some(x);
                        assert(order[m] == x);
                        assert(order.contains(x));
                    }
                    if order.contains(x) {
                        let m = choose|m: int| 0 <= m < order.len() && #[trigger] order[m] == x;
                        assert(id_of(evidence@[m]) == Some(x));
                    }
                }
                assert forall|x: Seq<char>| #[trigger] ev1.contains(x) implies texts(processed@).contains(x) || texts(
                    pending@,
                ).contains(x) by {
                    assert(order.contains(x) <==> id_set(evidence@).contains(x));
                }
                assert forall|q: Set<Seq<char>>| #[trigger] evidence_closed(recs, start, q) implies texts_within(
                    texts(pending@),
                    q,
                ) by {
                    assert(texts_within(pend1, q));
                    assert(texts_within(ev1, q));
                    assert forall|x: Seq<char>| #[trigger] texts(pending@).contains(x) implies q.contains(x) by {
                        if pend1.contains(x) {
                        } else {
                            assert(ev1.contains(x));
                        }
                    }
                }
            }
        } else {
            proof {
                lemma_sorted_no_duplicates(ev0);
                lemma_sorted_no_duplicates(ev1);
                lemma_same_len_superset(ev0, ev1);
                assert forall|x: Seq<char>| #[trigger] ev1.contains(x) implies texts(processed@).contains(x) || texts(
                    pending@,
                ).contains(x) by {
                    assert(ev0.contains(x));
                    if x != x0 && !texts(processed@).contains(x) {
                        assert(pend0.contains(x));
                    }
                }
            }
        }
    }
    proof {
        let p = texts(processed@).to_set();
        assert(texts(pending@).len() == 0);
        assert forall|x: Seq<char>| #[trigger] texts(evidence_ids@).contains(x) implies p.contains(x) by {
            if texts(pending@).contains(x) {
                let w = choose|w: int| 0 <= w < texts(pending@).len() && #[trigger] texts(pending@)[w] == x;
            }
        }
        assert(texts(evidence_ids@).to_set().subset_of(p));
        assert forall|x: Seq<char>| #[trigger] p.contains(x) implies refs_within(recs, x, p) by {
            lemma_refs_within_grow(recs, x, texts(evidence_ids@).to_set(), p);
        }
        assert forall|x: Seq<char>| #[trigger] start.contains(x) implies p.contains(x) by {
            assert(texts(evidence_ids@).to_set().contains(x));
        }
        assert(evidence_closed(recs, start, p));
        assert forall|x: Seq<char>| #[trigger] id_set(evidence@).contains(x) <==> p.contains(x) by {
            if id_set(evidence@).contains(x) {
                let m = choose|m: int| 0 <= m < evidence@.len() && id_of(#[trigger] evidence@[m]) == Some(x);
                assert(order[m] == x);
                assert(order.contains(x));
            }
            if p.contains(x) {
                assert(order.contains(x));
                let m = choose|m: int| 0 <= m < order.len() && #[trigger] order[m] == x;
                assert(id_of(evidence@[m]) == Some(x));
            }
        }
        assert(id_set(evidence@) =~= p);
        assert forall|k: int| 0 <= k < evidence@.len() implies (#[trigger] member_text(evidence@[k], "id"@)) is Some by {
            assert(id_of(evidence@[k]) == Some(order[k]));
        }
        assert forall|i: int, j: int| 0 <= i < j < evidence@.len() implies member_text(#[trigger] evidence@[i], "id"@)
            != member_text(#[trigger] evidence@[j], "id"@) by {
            assert(id_of(evidence@[i]) == Some(order[i]));
            assert(id_of(evidence@[j]) == Some(order[j]));
        }
    }
    let ghost ev_view = evidence@;
    let ghost ord = order;
    match sort_identified(evidence) {
        Ok(v) => {
            proof {
                let perm = choose|perm: Seq<int>| is_arrangement(v@, ev_view, perm);
                assert forall|x: Seq<char>| #[trigger] id_set(v@).contains(x) <==> id_set(ev_view).contains(x) by {
                    if id_set(v@).contains(x) {
                        let m = choose|m: int| 0 <= m < v@.len() && id_of(#[trigger] v@[m]) == Some(x);
                        assert(v@[m] == ev_view[perm[m]]);
                    }
                    if id_set(ev_view).contains(x) {
                        let m = choose|m: int| 0 <= m < ev_view.len() && id_of(#[trigger] ev_view[m]) == Some(x);
                        crate::ordering::lemma_arrangement_onto(perm, ev_view.len() as int);
                        assert(crate::ordering::reaches(perm, m));
                        let w = choose|w: int| 0 <= w < perm.len() && perm[w] == m;
                        assert(v@[w] == ev_view[m]);
                    }
                }
                assert(id_set(v@) =~= id_set(ev_view));
                assert forall|k: int| 0 <= k < v@.len() implies same_json(
                    #[trigger] v@[k],
                    record_with_id(recs, id_of(v@[k]).unwrap()).unwrap(),
                ) by {
                    assert(v@[k] == ev_view[perm[k]]);
                    assert(id_of(ev_view[perm[k]]) == Some(ord[perm[k]]));
                }
            }
            Ok(v)
        },
        Err(e) => Err(e),
    }
}


/// The non-empty texts under `field` of the records, in order; `None` when
/// a record lacks one.
pub open spec fn required_texts(records: Seq<Json>, field: Seq<char>) -> Option<Seq<Seq<char>>> {
    if forall|k: int| 0 <= k < records.len() ==> (#[trigger] required_text(records[k], field)) is Some {
        Some(records.map_values(|r: Json| required_text(r, field).unwrap()))
    } else {
        None
    }
}

/// The identifiers of the records ([`required_texts`] of `id`).
fn record_ids_of(records: &[Json]) -> (r: Result<Vec<String>, FunctionContextError>)
    ensures
        match required_texts(records@, "id"@) {
            Some(ts) => r matches Ok(v) && texts(v@) == ts,
            None => r matches Err(FunctionContextError::InvalidSnapshot),
        },
{
    texts_of_field(records, "id")
}

/// The texts under `field` of the records ([`required_texts`]).
fn texts_of_field(records: &[Json], field: &str) -> (r: Result<Vec<String>, FunctionContextError>)
    ensures
        match required_texts(records@, field@) {
            Some(ts) => r matches Ok(v) && texts(v@) == ts,
            None => r matches Err(FunctionContextError::InvalidSnapshot),
        },
{
    let mut out: Vec<String> = Vec::new();
    let mut k: usize = 0;
    while k < records.len()
        invariant
            k <= records.len(),
            out@.len() == k,
            forall|m: int| 0 <= m < k ==> required_text(records@[m], field@) == Some(#[trigger] out@[m]@),
        decreases records.len() - k,
    {
        match required_string(&records[k], field) {
            Ok(t) => out.push(t.to_owned()),
            Err(e) => {
                assert(required_texts(records@, field@) is None);
                return Err(e);
            },
        }
        k += 1;
    }
    proof {
        assert forall|m: int| 0 <= m < records@.len() implies (#[trigger] required_text(records@[m], field@)) is Some by {
            assert(required_text(records@[m], field@) == Some(out@[m]@));
        }
        assert(texts(out@) =~= records@.map_values(|r: Json| required_text(r, field@).unwrap()));
    }
    Ok(out)
}

/// One role name when `holds`, else none.
pub open spec fn role_if(holds: bool, name: Seq<char>) -> Seq<Seq<char>> {
    if holds {
        seq![name]
    } else {
        Seq::empty()
    }
}

/// The roles of `id` in a context, in name order: body fact, callable,
/// incoming caller, outgoing callee, owner, parameter, signature.
pub open spec fn role_list(
    id: Seq<char>,
    root: Seq<char>,
    owner: Option<Seq<char>>,
    signature: Seq<char>,
    parameters: Seq<Seq<char>>,
    body: Seq<Seq<char>>,
    callees: Seq<Seq<char>>,
    callers: Seq<Seq<char>>,
) -> Seq<Seq<char>> {
    role_if(body.contains(id), "body_fact"@) + role_if(root == id, "callable"@) + role_if(
        callers.contains(id),
        "incoming_caller"@,
    ) + role_if(callees.contains(id), "outgoing_callee"@) + role_if(owner == Some(id), "owner"@) + role_if(
        parameters.contains(id),
        "parameter"@,
    ) + role_if(signature == id, "signature"@)
}

/// An optional text as the contracts see it.
pub open spec fn opt_view(t: Option<&str>) -> Option<Seq<char>> {
    match t {
        Some(x) => Some(x@),
        None => None,
    }
}

/// The roles of `id` in the context, in name order ([`role_list`]).
#[verifier::rlimit(40)]
fn roles_of(
    id: &str,
    root_id: &str,
    owner_id: Option<&str>,
    signature_id: &str,
    parameter_ids: &[String],
    body_ids: &[String],
    callee_ids: &[String],
    caller_ids: &[String],
) -> (r: Vec<&'static str>)
    ensures
        names_view(r@) == role_list(
            id@,
            root_id@,
            opt_view(owner_id),
            signature_id@,
            texts(parameter_ids@),
            texts(body_ids@),
            texts(callee_ids@),
            texts(caller_ids@),
        ),
{
    let mut roles: Vec<&'static str> = Vec::new();
    let ghost mut acc: Seq<Seq<char>> = Seq::empty();
    let b = contains_text(body_ids, id);
    if b {
        roles.push("body_fact");
    }
    proof {
        acc = acc + role_if(b, "body_fact"@);
        assert(names_view(roles@) =~= acc);
    }
    let c = text_eq(root_id, id);
    if c {
        roles.push("callable");
    }
    proof {
        acc = acc + role_if(c, "callable"@);
        assert(names_view(roles@) =~= acc);
    }
    let i = contains_text(caller_ids, id);
    if i {
        roles.push("incoming_caller");
    }
    proof {
        acc = acc + role_if(i, "incoming_caller"@);
        assert(names_view(roles@) =~= acc);
    }
    let o = contains_text(callee_ids, id);
    if o {
        roles.push("outgoing_callee");
    }
    proof {
        acc = acc + role_if(o, "outgoing_callee"@);
        assert(names_view(roles@) =~= acc);
    }
    let w = match owner_id {
        Some(x) => text_eq(x, id),
        None => false,
    };
    if w {
        roles.push("owner");
    }
    proof {
        acc = acc + role_if(w, "owner"@);
        assert(names_view(roles@) =~= acc);
    }
    let p = contains_text(parameter_ids, id);
    if p {
        roles.push("parameter");
    }
    proof {
        acc = acc + role_if(p, "parameter"@);
        assert(names_view(roles@) =~= acc);
    }
    let g = text_eq(signature_id, id);
    if g {
        roles.push("signature");
    }
    proof {
        acc = acc + role_if(g, "signature"@);
        assert(names_view(roles@) =~= acc);
        assert(w == (opt_view(owner_id) == Some(id@)));
        assert(Seq::<Seq<char>>::empty() + role_if(b, "body_fact"@) =~= role_if(b, "body_fact"@));
    }
    roles
}

/// The relationship touches the entity `x`: its source or its target is `x`.
pub open spec fn touches(rel: Json, x: Seq<char>) -> bool {
    member_text(rel, "source"@) == Some(x) || member_text(rel, "target"@) == Some(x)
}

/// Every relationship that touches `x` has an identifier.
pub open spec fn touching_identified(rels: Seq<Json>, x: Seq<char>) -> bool {
    forall|k: int| 0 <= k < rels.len() && touches(#[trigger] rels[k], x) ==> required_text(rels[k], "id"@) is Some
}

/// The identifiers, in order, of the relationships that touch `x`.
pub open spec fn touching_ids(rels: Seq<Json>, x: Seq<char>) -> Seq<Seq<char>>
    decreases rels.len(),
{
    if rels.len() == 0 {
        Seq::empty()
    } else {
        let rest = touching_ids(rels.drop_last(), x);
        if touches(rels.last(), x) {
            rest.push(required_text(rels.last(), "id"@).unwrap())
        } else {
            rest
        }
    }
}

/// An array of strings with the texts `expected`, in order.
pub open spec fn text_items(j: Json, expected: Seq<Seq<char>>) -> bool {
    j matches Json::Array(items) && items@.len() == expected.len() && forall|m: int|
        0 <= m < expected.len() ==> as_text(#[trigger] items@[m]) == Some(expected[m])
}

/// The roles that the navigation gives `x`: [`role_list`] over the texts of
/// the context's parameters, body facts, callees and callers.
pub open spec fn navigation_roles(
    x: Seq<char>,
    root: Seq<char>,
    owner: Option<Seq<char>>,
    signature: Seq<char>,
    lists: (Seq<Seq<char>>, Seq<Seq<char>>, Seq<Seq<char>>, Seq<Seq<char>>),
) -> Seq<Seq<char>> {
    role_list(x, root, owner, signature, lists.0, lists.1, lists.2, lists.3)
}

/// Whether the entity `x` can have a navigation entry: it exists, each
/// relationship that touches it has an identifier, it has a role, and it
/// has a kind and a name.
pub open spec fn navigable(
    entities: Seq<Json>,
    rels: Seq<Json>,
    x: Seq<char>,
    root: Seq<char>,
    owner: Option<Seq<char>>,
    signature: Seq<char>,
    lists: (Seq<Seq<char>>, Seq<Seq<char>>, Seq<Seq<char>>, Seq<Seq<char>>),
) -> bool {
    &&& record_with_id(entities, x) is Some
    &&& touching_identified(rels, x)
    &&& navigation_roles(x, root, owner, signature, lists).len() > 0
    &&& required_text(record_with_id(entities, x).unwrap(), "kind"@) is Some
    &&& required_text(record_with_id(entities, x).unwrap(), "name"@) is Some
}

/// The navigation entry of the entity `x`: family, identifier, kind, name,
/// the identifiers of the relationships that touch it, and its roles.
pub open spec fn navigation_entry(
    v: Json,
    entities: Seq<Json>,
    rels: Seq<Json>,
    x: Seq<char>,
    roles: Seq<Seq<char>>,
) -> bool {
    &&& member_count(v) == 6
    &&& text_member(v, 0, "family"@, "entities"@)
    &&& text_member(v, 1, "id"@, x)
    &&& text_member(v, 2, "kind"@, required_text(record_with_id(entities, x).unwrap(), "kind"@).unwrap())
    &&& text_member(v, 3, "name"@, required_text(record_with_id(entities, x).unwrap(), "name"@).unwrap())
    &&& member_at(v, 4, "relationship_ids"@) matches Some(a) && text_items(a, touching_ids(rels, x))
    &&& member_at(v, 5, "roles"@) matches Some(a) && text_items(a, roles)
}

/// The navigation entries of the selected entities, in the order given:
/// family, identifier, kind, name, the relationships that touch the entity
/// and its roles. The parameters and body facts need identifiers and the
/// outgoing and incoming calls their target and source (else an invalid
/// snapshot), and each selected entity must be [`navigable`] (else the
/// first failing check decides the error).
fn build_navigation(
    entities: &[Json],
    ids: &[String],
    selected_ids: &[String],
    relationships: &[Json],
    root_id: &str,
    owner_id: Option<&str>,
    signature_id: &str,
    parameters: &[Json],
    body_facts: &[Json],
    outgoing_calls: &[Json],
    incoming_calls: &[Json],
) -> (r: Result<Vec<Json>, FunctionContextError>)
    requires
        identified(entities@),
        texts(ids@) == ids_of(entities@),
    ensures
        match (
            required_texts(parameters@, "id"@),
            required_texts(body_facts@, "id"@),
            required_texts(outgoing_calls@, "target_id"@),
            required_texts(incoming_calls@, "source_id"@),
        ) {
            (Some(ps), Some(bs), Some(cs), Some(ks)) => {
                let lists = (ps, bs, cs, ks);
                &&& (r is Ok <==> forall|k: int|
                    0 <= k < selected_ids@.len() ==> navigable(
                        entities@,
                        relationships@,
                        (#[trigger] selected_ids@[k])@,
                        root_id@,
                        opt_view(owner_id),
                        signature_id@,
                        lists,
                    ))
                &&& (r matches Ok(v) ==> v@.len() == selected_ids@.len() && forall|k: int|
                    0 <= k < v@.len() ==> navigation_entry(
                        #[trigger] v@[k],
                        entities@,
                        relationships@,
                        selected_ids@[k]@,
                        navigation_roles(selected_ids@[k]@, root_id@, opt_view(owner_id), signature_id@, lists),
                    ))
            },
            _ => r matches Err(FunctionContextError::InvalidSnapshot),
        },
{
    let parameter_ids = record_ids_of(parameters)?;
    let body_ids = record_ids_of(body_facts)?;
    let callee_ids = texts_of_field(outgoing_calls, "target_id")?;
    let caller_ids = texts_of_field(incoming_calls, "source_id")?;
    let ghost lists = (texts(parameter_ids@), texts(body_ids@), texts(callee_ids@), texts(caller_ids@));
    let ghost ents = entities@;
    let ghost rels = relationships@;
    let ghost owner = opt_view(owner_id);
    let mut navigation: Vec<Json> = Vec::new();
    let mut k: usize = 0;
    while k < selected_ids.len()
        invariant
            k <= selected_ids.len(),
            identified(entities@),
            texts(ids@) == ids_of(entities@),
            ents == entities@,
            rels == relationships@,
            owner == opt_view(owner_id),
            lists == (texts(parameter_ids@), texts(body_ids@), texts(callee_ids@), texts(caller_ids@)),
            required_texts(parameters@, "id"@) == Some(lists.0),
            required_texts(body_facts@, "id"@) == Some(lists.1),
            required_texts(outgoing_calls@, "target_id"@) == Some(lists.2),
            required_texts(incoming_calls@, "source_id"@) == Some(lists.3),
            navigation@.len() == k,
            forall|m: int|
                0 <= m < k ==> navigable(ents, rels, (#[trigger] selected_ids@[m])@, root_id@, owner, signature_id@, lists),
            forall|m: int|
                0 <= m < k ==> navigation_entry(
                    #[trigger] navigation@[m],
                    ents,
                    rels,
                    selected_ids@[m]@,
                    navigation_roles(selected_ids@[m]@, root_id@, owner, signature_id@, lists),
                ),
        decreases selected_ids.len() - k,
    {
        let identifier = selected_ids[k].as_str();
        let ghost x = identifier@;
        let ghost ok = navigable(ents, rels, x, root_id@, owner, signature_id@, lists);
        let entity = match entity_with_id(entities, ids, identifier) {
            Ok(e) => e,
            Err(e) => {
                proof {
                    assert(!ok);
                }
                return Err(e);
            },
        };
        let mut relationship_ids: Vec<Json> = Vec::new();
        let mut j: usize = 0;
        while j < relationships.len()
            invariant
                j <= relationships.len(),
                rels == relationships@,
                x == identifier@,
                k < selected_ids@.len(),
                x == selected_ids@[k as int]@,
                ok == navigable(ents, rels, x, root_id@, owner, signature_id@, lists),
                ents == entities@,
                owner == opt_view(owner_id),
                required_texts(parameters@, "id"@) == Some(lists.0),
                required_texts(body_facts@, "id"@) == Some(lists.1),
                required_texts(outgoing_calls@, "target_id"@) == Some(lists.2),
                required_texts(incoming_calls@, "source_id"@) == Some(lists.3),
                forall|m: int| 0 <= m < j && touches(#[trigger] rels[m], x) ==> required_text(rels[m], "id"@) is Some,
                relationship_ids@.len() == touching_ids(rels.take(j as int), x).len(),
                forall|m: int|
                    0 <= m < relationship_ids@.len() ==> as_text(#[trigger] relationship_ids@[m]) == Some(
                        touching_ids(rels.take(j as int), x)[m],
                    ),
            decreases relationships.len() - j,
        {
            proof {
                assert(rels.take(j + 1).drop_last() =~= rels.take(j as int));
                assert(rels.take(j + 1).last() == rels[j as int]);
            }
            let touches_now = match relationships[j].get_str("source") {
                Some(t) => text_eq(t, identifier),
                None => false,
            } || match relationships[j].get_str("target") {
                Some(t) => text_eq(t, identifier),
                None => false,
            };
            if touches_now {
                let rid = match required_string(&relationships[j], "id") {
                    Ok(t) => t,
                    Err(e) => {
                        proof {
                            assert(!touching_identified(rels, x)) by {
                                assert(touches(rels[j as int], x));
                            }
                            assert(!ok);
                        }
                        return Err(e);
                    },
                };
                let ghost before = relationship_ids@;
                relationship_ids.push(Json::text(rid));
                proof {
                    assert forall|m: int| 0 <= m < relationship_ids@.len() implies as_text(
                        #[trigger] relationship_ids@[m],
                    ) == Some(touching_ids(rels.take(j + 1), x)[m]) by {
                        if m < before.len() {
                            assert(relationship_ids@[m] == before[m]);
                        }
                    }
                }
            }
            j += 1;
        }
        proof {
            assert(rels.take(j as int) =~= rels);
        }
        let roles = roles_of(
            identifier,
            root_id,
            owner_id,
            signature_id,
            &parameter_ids,
            &body_ids,
            &callee_ids,
            &caller_ids,
        );
        let ghost expected = navigation_roles(x, root_id@, owner, signature_id@, lists);
        proof {
            assert(names_view(roles@) == expected);
            assert(names_view(roles@).len() == roles@.len());
        }
        if roles.len() == 0 {
            proof {
                assert(!ok);
            }
            return Err(FunctionContextError::InvalidRelationship);
        }
        let kind = match required_string(entity, "kind") {
            Ok(t) => t,
            Err(e) => {
                proof {
                    assert(!ok);
                }
                return Err(e);
            },
        };
        let name = match required_string(entity, "name") {
            Ok(t) => t,
            Err(e) => {
                proof {
                    assert(!ok);
                }
                return Err(e);
            },
        };
        let roles_json = crate::json::text_array(roles.as_slice());
        let ghost rel_view = relationship_ids@;
        let value = Json::Object(
            vec![
                entry("family", Json::text("entities")),
                entry("id", Json::text(identifier)),
                entry("kind", Json::text(kind)),
                entry("name", Json::text(name)),
                entry("relationship_ids", Json::Array(relationship_ids)),
                entry("roles", roles_json),
            ],
        );
        proof {
            assert(ok);
            assert(text_items(Json::Array(relationship_ids), touching_ids(rels, x)));
            assert forall|m: int| 0 <= m < expected.len() implies as_text(
                #[trigger] roles_json->Array_0@[m],
            ) == Some(expected[m]) by {
                assert(names_view(roles@)[m] == roles@[m]@);
            }
            assert(navigation_entry(value, ents, rels, x, expected));
        }
        navigation.push(value);
        k += 1;
    }
    Ok(navigation)
}

/// What the first stages of a function context give: the snapshot's
/// knowledge graph (an object, else `InvalidSnapshot`) with identified
/// entity, relationship, claim and evidence families (else
/// `InvalidSnapshot`), the root callable ([`root_outcome`]) and its
/// signature ([`signature_outcome`]).
pub open spec fn context_prefix(semantic: Json, requested: Seq<char>) -> Result<
    (Json, Json, int, Json),
    FunctionContextError,
> {
    match member(semantic, "knowledge_graph"@) {
        None => Err(FunctionContextError::InvalidSnapshot),
        Some(graph) => if !(graph is Object) || identified_family(graph, "entities"@) is None || identified_family(
            graph,
            "relationships"@,
        ) is None || identified_family(graph, "claims"@) is None || identified_family(graph, "evidence"@) is None {
            Err(FunctionContextError::InvalidSnapshot)
        } else {
            let entities = identified_family(graph, "entities"@).unwrap();
            let rels = identified_family(graph, "relationships"@).unwrap();
            match root_outcome(entities, requested) {
                Err(e) => Err(e),
                Ok(root) => match signature_outcome(rels, entities, requested) {
                    Err(e) => Err(e),
                    Ok((k, signature)) => Ok((graph, root, k, signature)),
                },
            }
        }
    }
}

/// The function context document of the root `root` with the signature
/// `signature` (whose relationship stands at `link` of `rels`): eighteen
/// members in key order; the callable and signature are copies of the root
/// and the signature; the parameters are copies of the signature's
/// parameters, one per `HAS_PARAMETER` relationship, the `k`-th with
/// ordinal `k`; the display signature is that of the root, signature and
/// parameters; the schema version, the authority and the source come from
/// the snapshot, its head and the versions.
pub open spec fn context_document(
    doc: Json,
    semantic: Json,
    head: LocalSnapshotHead,
    versions: SnapshotVersions,
    entities: Seq<Json>,
    rels: Seq<Json>,
    root: Json,
    link: int,
    signature: Json,
    requested: Seq<char>,
) -> bool {
    &&& doc is Object
    &&& member_count(doc) == 18
    &&& text_member(doc, 0, "authority"@, "declared_source_only"@)
    &&& member_at(doc, 2, "callable"@) matches Some(c) && same_json(c, root)
    &&& member_at(doc, 13, "parameters"@) matches Some(Json::Array(ps)) && {
        &&& ps@.len() == link_positions(
            rels,
            "HAS_PARAMETER"@,
            "source"@,
            required_text(rels[link], "target"@).unwrap(),
        ).len()
        &&& forall|k: int| 0 <= k < ps@.len() ==> parameter_of(#[trigger] ps@[k], entities, requested, k as u64)
        &&& forall|k: int|
            0 <= k < ps@.len() ==> (#[trigger] id_of(ps@[k])) is Some && same_json(
                ps@[k],
                record_with_id(entities, id_of(ps@[k]).unwrap()).unwrap(),
            )
        &&& forall|x: Seq<char>| #[trigger] id_set(ps@).contains(x) <==> exists|p: int|
            link_positions(rels, "HAS_PARAMETER"@, "source"@, required_text(rels[link], "target"@).unwrap()).contains(p)
                && required_text(#[trigger] rels[p], "target"@) == Some(x)
        &&& text_member(doc, 8, "display_signature"@, signature_text(root, signature, ps@).unwrap())
    }
    &&& member_at(doc, 1, "body_facts"@) matches Some(Json::Array(fs)) && {
        &&& fs@.len() == link_positions(rels, "HAS_BODY_FACT"@, "source"@, requested).len()
        &&& forall|k: int| 0 <= k < fs@.len() ==> body_fact_of(#[trigger] fs@[k], entities, requested)
        &&& forall|i: int, j: int|
            0 <= i < j < fs@.len() ==> !key_lt(body_key(#[trigger] fs@[j]), body_key(#[trigger] fs@[i]))
    }
    &&& member_at(doc, 3, "calls"@) matches Some(calls) && member_count(calls) == 2 && (member_at(
        calls,
        0,
        "incoming"@,
    ) matches Some(Json::Array(xs)) && sorted_by_text(xs@, "relationship_id"@)) && (member_at(
        calls,
        1,
        "outgoing"@,
    ) matches Some(Json::Array(ys)) && sorted_by_text(ys@, "relationship_id"@))
    &&& member_at(doc, 4, "claims"@) matches Some(Json::Array(xs)) && sorted_by_text(xs@, "id"@)
    &&& member_at(doc, 5, "coverage_gaps"@) matches Some(Json::Array(xs)) && sorted_by_text(xs@, "id"@)
    &&& member_at(doc, 6, "derivations"@) matches Some(Json::Array(xs)) && sorted_by_canonical_text(xs@)
    &&& member_at(doc, 7, "diagnostics"@) matches Some(Json::Array(xs)) && sorted_by_text(xs@, "id"@)
    &&& member_at(doc, 9, "evidence"@) matches Some(Json::Array(xs)) && sorted_by_text(xs@, "id"@)
    &&& member_at(doc, 12, "owner"@) matches Some(o) && match member_text(root, "owner_id"@) {
        None => o == Json::Null,
        Some(owner_id) => record_with_id(entities, owner_id) matches Some(e) && same_json(o, e),
    }
    &&& member_at(doc, 14, "relationships"@) matches Some(Json::Array(xs)) && sorted_by_text(xs@, "id"@)
    &&& text_member(doc, 15, "schema_version"@, R17_FUNCTION_CONTEXT_VERSION@)
    &&& member_at(doc, 16, "signature"@) matches Some(g) && same_json(g, signature)
    &&& member_at(doc, 17, "source"@) matches Some(src) && {
        &&& member_count(src) == 9
        &&& text_member(src, 0, "commit_oid"@, nested_text(semantic, "repository"@, "commit_oid"@).unwrap())
        &&& text_member(src, 1, "graph_schema_version"@, versions.graph@)
        &&& text_member(src, 2, "graph_semantic_hash"@, head.graph_semantic_hash@)
        &&& text_member(src, 3, "ontology_version"@, versions.ontology@)
        &&& text_member(src, 4, "repository_identity"@, nested_text(semantic, "repository"@, "identity"@).unwrap())
        &&& text_member(src, 5, "snapshot_id"@, head.snapshot_id@)
        &&& text_member(src, 6, "snapshot_schema_version"@, versions.snapshot@)
        &&& text_member(src, 7, "snapshot_semantic_hash"@, head.semantic_hash@)
        &&& text_member(src, 8, "tree_oid"@, nested_text(semantic, "repository"@, "tree_oid"@).unwrap())
    }
}

/// The items of the array member `k` named `name` of a document (none
/// where it is no such array).
pub open spec fn doc_items(doc: Json, k: int, name: Seq<char>) -> Seq<Json> {
    match member_at(doc, k, name) {
        Some(Json::Array(xs)) => xs@,
        _ => Seq::empty(),
    }
}

/// The declared limitations and the cardinality bounds of a context
/// document: at most 256 parameters and navigation entries (one per linked
/// subject), 512 relationships, 2048 claims and evidence records, and 1024
/// diagnostics, coverage gaps and derivations together.
pub open spec fn context_bounds(doc: Json) -> bool {
    &&& member_at(doc, 10, "limitations"@) matches Some(l) && crate::context::text_items(l, context_limitations())
    &&& doc_items(doc, 13, "parameters"@).len() <= crate::s4_r17::MAX_R17_FUNCTION_PARAMETERS
    &&& doc_items(doc, 11, "navigation"@).len() <= crate::s4_r17::MAX_R17_LINKED_SUBJECTS
    &&& doc_items(doc, 14, "relationships"@).len() <= crate::s4_r17::MAX_R17_LINKED_RELATIONSHIPS
    &&& doc_items(doc, 4, "claims"@).len() <= crate::s4_r17::MAX_R17_LINKED_CLAIMS
    &&& doc_items(doc, 9, "evidence"@).len() <= crate::s4_r17::MAX_R17_LINKED_EVIDENCE
    &&& doc_items(doc, 7, "diagnostics"@).len() + doc_items(doc, 5, "coverage_gaps"@).len() + doc_items(
        doc,
        6,
        "derivations"@,
    ).len() <= crate::s4_r17::MAX_R17_UNCERTAINTY_RECORDS
}

/// The owner record of the root, where it names one.
pub open spec fn owner_record(entities: Seq<Json>, root: Json) -> Option<Json> {
    match member_text(root, "owner_id"@) {
        Some(o) => record_with_id(entities, o),
        None => None,
    }
}

/// Whether `refs` is well formed and holds `x`.
pub open spec fn refs_hold(refs: Option<Seq<Seq<char>>>, x: Seq<char>) -> bool {
    refs matches Some(rs) && rs.contains(x)
}

/// The evidence a context references: the evidence references of the root,
/// its owner and its signature, and those of every parameter, body fact,
/// linked relationship, claim, diagnostic, coverage gap and derivation of
/// the document.
pub open spec fn context_references(doc: Json, root: Json, owner: Option<Json>, signature: Json) -> Set<Seq<char>> {
    Set::new(
        |x: Seq<char>|
            refs_hold(crate::s4_r17::evidence_refs(root), x) || (owner matches Some(o) && refs_hold(
                crate::s4_r17::evidence_refs(o),
                x,
            )) || refs_hold(crate::s4_r17::evidence_refs(signature), x) || refs_hold(
                records_evidence(doc_items(doc, 13, "parameters"@)),
                x,
            ) || refs_hold(records_evidence(doc_items(doc, 1, "body_facts"@)), x) || refs_hold(
                records_evidence(doc_items(doc, 14, "relationships"@)),
                x,
            ) || refs_hold(records_evidence(doc_items(doc, 4, "claims"@)), x) || refs_hold(
                records_evidence(doc_items(doc, 7, "diagnostics"@)),
                x,
            ) || refs_hold(records_evidence(doc_items(doc, 5, "coverage_gaps"@)), x) || refs_hold(
                records_evidence(doc_items(doc, 6, "derivations"@)),
                x,
            ),
    )
}

/// `q` holds `init`, and each identifier it holds names an evidence record
/// whose references lie in `q`.
pub open spec fn closed_over(records: Seq<Json>, init: Set<Seq<char>>, q: Set<Seq<char>>) -> bool {
    &&& init.subset_of(q)
    &&& forall|x: Seq<char>| #[trigger] q.contains(x) ==> refs_within(records, x, q)
}

/// The evidence member of a context: copies of the evidence records of the
/// least set of identifiers that holds what the context references and is
/// closed under the references of the records it names.
pub open spec fn context_evidence(doc: Json, records: Seq<Json>, init: Set<Seq<char>>) -> bool {
    let ev = doc_items(doc, 9, "evidence"@);
    &&& forall|k: int|
        0 <= k < ev.len() ==> (#[trigger] id_of(ev[k])) is Some && same_json(
            ev[k],
            record_with_id(records, id_of(ev[k]).unwrap()).unwrap(),
        )
    &&& closed_over(records, init, id_set(ev))
    &&& forall|q: Set<Seq<char>>| #[trigger] closed_over(records, init, q) ==> id_set(ev).subset_of(q)
}

/// Whether position `p` holds a relationship that a context links: the
/// signature's (at `link`), a `HAS_PARAMETER` of the signature, a
/// `HAS_BODY_FACT` of the root, or a call from or to the root.
pub open spec fn linked_position(rels: Seq<Json>, link: int, requested: Seq<char>, p: int) -> bool {
    ||| p == link
    ||| link_positions(rels, "HAS_PARAMETER"@, "source"@, required_text(rels[link], "target"@).unwrap()).contains(p)
    ||| link_positions(rels, "HAS_BODY_FACT"@, "source"@, requested).contains(p)
    ||| call_positions(rels, requested).contains(p)
}

/// Each record is a copy of the record of `family` with its identifier,
/// and the identifiers are exactly those of the family's records at the
/// positions that `chosen` admits.
pub open spec fn copies_of_chosen(xs: Seq<Json>, family: Seq<Json>, chosen: spec_fn(int) -> bool) -> bool {
    &&& forall|k: int|
        0 <= k < xs.len() ==> (#[trigger] id_of(xs[k])) is Some && same_json(
            xs[k],
            record_with_id(family, id_of(xs[k]).unwrap()).unwrap(),
        )
    &&& forall|x: Seq<char>|
        #[trigger] id_set(xs).contains(x) <==> exists|p: int|
            0 <= p < family.len() && chosen(p) && id_of(#[trigger] family[p]) == Some(x)
}

/// Copies of records at positions of an identified family carry the
/// identifiers of those records, and each is a copy of the record with its
/// identifier.
proof fn lemma_copies_at(family: Seq<Json>, xs: Seq<Json>, positions: Seq<int>)
    requires
        identified(family),
        xs.len() == positions.len(),
        forall|k: int| 0 <= k < positions.len() ==> 0 <= #[trigger] positions[k] < family.len(),
        forall|k: int| 0 <= k < xs.len() ==> same_json(#[trigger] xs[k], family[positions[k]]),
    ensures
        forall|k: int|
            0 <= k < xs.len() ==> (#[trigger] id_of(xs[k])) is Some && id_of(xs[k]) == id_of(family[positions[k]])
                && same_json(xs[k], record_with_id(family, id_of(xs[k]).unwrap()).unwrap()),
        forall|x: Seq<char>|
            #[trigger] id_set(xs).contains(x) <==> exists|k: int|
                0 <= k < positions.len() && id_of(#[trigger] family[positions[k]]) == Some(x),
{
    assert forall|k: int| 0 <= k < xs.len() implies (#[trigger] id_of(xs[k])) is Some && id_of(xs[k]) == id_of(
        family[positions[k]],
    ) && same_json(xs[k], record_with_id(family, id_of(xs[k]).unwrap()).unwrap()) by {
        crate::json::lemma_same_json_members(xs[k], family[positions[k]]);
        lemma_record_with_id(family, positions[k]);
    }
    assert forall|x: Seq<char>| #[trigger] id_set(xs).contains(x) <==> exists|k: int|
        0 <= k < positions.len() && id_of(#[trigger] family[positions[k]]) == Some(x) by {
        if id_set(xs).contains(x) {
            let k = choose|k: int| 0 <= k < xs.len() && id_of(#[trigger] xs[k]) == Some(x);
            assert(id_of(family[positions[k]]) == Some(x));
        }
        if exists|k: int| 0 <= k < positions.len() && id_of(#[trigger] family[positions[k]]) == Some(x) {
            let k = choose|k: int| 0 <= k < positions.len() && id_of(#[trigger] family[positions[k]]) == Some(x);
            assert(id_of(xs[k]) == Some(x));
        }
    }
}

/// An arrangement keeps the set of identifiers.
proof fn lemma_arrangement_ids(v: Seq<Json>, original: Seq<Json>, perm: Seq<int>)
    requires
        is_arrangement(v, original, perm),
    ensures
        id_set(v) == id_set(original),
        forall|k: int| 0 <= k < v.len() ==> #[trigger] v[k] == original[perm[k]],
{
    assert forall|x: Seq<char>| #[trigger] id_set(v).contains(x) <==> id_set(original).contains(x) by {
        if id_set(v).contains(x) {
            let m = choose|m: int| 0 <= m < v.len() && id_of(#[trigger] v[m]) == Some(x);
            assert(v[m] == original[perm[m]]);
        }
        if id_set(original).contains(x) {
            let m = choose|m: int| 0 <= m < original.len() && id_of(#[trigger] original[m]) == Some(x);
            crate::ordering::lemma_arrangement_onto(perm, original.len() as int);
            assert(crate::ordering::reaches(perm, m));
            let w = choose|w: int| 0 <= w < perm.len() && perm[w] == m;
            assert(v[w] == original[m]);
        }
    }
    assert(id_set(v) =~= id_set(original));
}

/// Copies of the relationships a context links, sorted by identifier: the
/// one at `link` and those at the positions `params`, `bodies` and `calls`
/// of the identified family `rels`.
fn linked_relationships(
    rels: &[Json],
    link: usize,
    params: &[usize],
    bodies: &[usize],
    calls: &[usize],
) -> (r: Result<Vec<Json>, FunctionContextError>)
    requires
        identified(rels@),
        link < rels@.len(),
        forall|k: int| 0 <= k < params@.len() ==> #[trigger] params@[k] < rels@.len(),
        forall|k: int| 0 <= k < bodies@.len() ==> #[trigger] bodies@[k] < rels@.len(),
        forall|k: int| 0 <= k < calls@.len() ==> #[trigger] calls@[k] < rels@.len(),
    ensures
        r matches Ok(v) ==> sorted_by_text(v@, "id"@) && copies_of_chosen(
            v@,
            rels@,
            |p: int| p == link as int || params@.map_values(|k: usize| k as int).contains(p) || bodies@.map_values(
                |k: usize| k as int,
            ).contains(p) || calls@.map_values(|k: usize| k as int).contains(p),
        ),
        r matches Err(e) ==> e is InvalidSnapshot || e is InvalidRelationship,
{
    let mut linked: Vec<Json> = Vec::new();
    linked.push(json_copy(&rels[link]));
    let ghost l1 = linked@;
    copy_at(rels, params, &mut linked);
    let ghost l2 = linked@;
    copy_at(rels, bodies, &mut linked);
    let ghost l3 = linked@;
    copy_at(rels, calls, &mut linked);
    let ghost pre = linked@;
    let ghost pp = params@.map_values(|k: usize| k as int);
    let ghost bp = bodies@.map_values(|k: usize| k as int);
    let ghost cp = calls@.map_values(|k: usize| k as int);
    let ghost allpos = seq![link as int] + pp + bp + cp;
    proof {
        let fam = rels@;
        assert(pre.len() == allpos.len());
        assert forall|k: int| 0 <= k < allpos.len() implies 0 <= #[trigger] allpos[k] < fam.len() && same_json(
            pre[k],
            fam[allpos[k]],
        ) by {
            if k == 0 {
                assert(pre[0] == l1[0]);
            } else if k < 1 + pp.len() {
                assert(allpos[k] == pp[k - 1]);
                assert(pre[k] == l3[k]);
                assert(l3[k] == l2[k]);
                assert(same_json(l2[l1.len() + (k - 1)], fam[params@[k - 1] as int]));
            } else if k < 1 + pp.len() + bp.len() {
                let j = k - 1 - pp.len();
                assert(allpos[k] == bp[j]);
                assert(pre[k] == l3[k]);
                assert(same_json(l3[l2.len() + j], fam[bodies@[j] as int]));
            } else {
                let j = k - 1 - pp.len() - bp.len();
                assert(allpos[k] == cp[j]);
                assert(same_json(pre[l3.len() + j], fam[calls@[j] as int]));
            }
        }
        lemma_copies_at(fam, pre, allpos);
    }
    let linked = sort_identified(linked)?;
    let ghost linked_view = linked@;
    proof {
        let fam = rels@;
        let perm = choose|perm: Seq<int>| is_arrangement(linked_view, pre, perm);
        lemma_arrangement_ids(linked_view, pre, perm);
        assert forall|k: int| 0 <= k < linked_view.len() implies (#[trigger] id_of(linked_view[k])) is Some
            && same_json(linked_view[k], record_with_id(fam, id_of(linked_view[k]).unwrap()).unwrap()) by {
            assert(linked_view[k] == pre[perm[k]]);
        }
        assert forall|x: Seq<char>| #[trigger] id_set(linked_view).contains(x) <==> exists|p: int|
            0 <= p < fam.len() && allpos.contains(p) && id_of(
                #[trigger] fam[p],
            ) == Some(x) by {
            if id_set(linked_view).contains(x) {
                assert(id_set(pre).contains(x));
                let k = choose|k: int| 0 <= k < allpos.len() && id_of(#[trigger] fam[allpos[k]]) == Some(x);
                assert(allpos.contains(allpos[k]));
            }
            if exists|p: int|
                0 <= p < fam.len() && allpos.contains(p) && id_of(
                    #[trigger] fam[p],
                ) == Some(x) {
                let p = choose|p: int|
                    0 <= p < fam.len() && allpos.contains(p) && id_of(
                        #[trigger] fam[p],
                    ) == Some(x);
                assert(allpos.contains(p));
                let k = choose|k: int| 0 <= k < allpos.len() && allpos[k] == p;
                assert(id_of(fam[allpos[k]]) == Some(x));
                assert(id_set(pre).contains(x));
            }
        }
    }
    proof {
        let fam = rels@;
        assert forall|p: int| #[trigger] allpos.contains(p) <==> (p == link as int || pp.contains(p) || bp.contains(p)
            || cp.contains(p)) by {
            if allpos.contains(p) {
                let k = choose|k: int| 0 <= k < allpos.len() && allpos[k] == p;
                if k == 0 {
                } else if k < 1 + pp.len() {
                    assert(pp[k - 1] == p);
                } else if k < 1 + pp.len() + bp.len() {
                    assert(bp[k - 1 - pp.len()] == p);
                } else {
                    assert(cp[k - 1 - pp.len() - bp.len()] == p);
                }
            }
            if p == link as int {
                assert(allpos[0] == p);
            } else if pp.contains(p) {
                let j = choose|j: int| 0 <= j < pp.len() && pp[j] == p;
                assert(allpos[1 + j] == p);
            } else if bp.contains(p) {
                let j = choose|j: int| 0 <= j < bp.len() && bp[j] == p;
                assert(allpos[1 + pp.len() + j] == p);
            } else if cp.contains(p) {
                let j = choose|j: int| 0 <= j < cp.len() && cp[j] == p;
                assert(allpos[1 + pp.len() + bp.len() + j] == p);
            }
        }
    }
    Ok(linked)
}

/// The navigation member of a context: one entry per linked subject, in
/// strictly increasing identifier order, among them the root, its signature
/// and its owner; each is the [`navigation_entry`] of its subject over the
/// document's relationships, with the roles that the document's parameters,
/// body facts and calls give it.
pub open spec fn context_navigation(
    doc: Json,
    entities: Seq<Json>,
    requested: Seq<char>,
    owner: Option<Seq<char>>,
    signature_id: Seq<char>,
) -> bool {
    let ns = doc_items(doc, 11, "navigation"@);
    let calls = member_at(doc, 3, "calls"@).unwrap();
    let lists = (
        required_texts(doc_items(doc, 13, "parameters"@), "id"@).unwrap(),
        required_texts(doc_items(doc, 1, "body_facts"@), "id"@).unwrap(),
        required_texts(doc_items(calls, 1, "outgoing"@), "target_id"@).unwrap(),
        required_texts(doc_items(calls, 0, "incoming"@), "source_id"@).unwrap(),
    );
    exists|xs: Seq<Seq<char>>|
        {
            &&& sorted_texts(xs)
            &&& xs.len() == ns.len()
            &&& xs.contains(requested)
            &&& xs.contains(signature_id)
            &&& (owner matches Some(o) ==> xs.contains(o))
            &&& forall|k: int|
                0 <= k < ns.len() ==> navigation_entry(
                    #[trigger] ns[k],
                    entities,
                    doc_items(doc, 14, "relationships"@),
                    xs[k],
                    navigation_roles(xs[k], requested, owner, signature_id, lists),
                )
        }
}

/// The claims of a context: the copies `claims` of the claims about the
/// selected entities `es` and relationships `rs`, with copies of the claims
/// that the derivations name as inputs, sorted by identifier.
fn settle_claims(
    derivations: &[Json],
    claim_records: &[Json],
    claim_family_ids: &[String],
    selected_claims: &mut Vec<String>,
    claims: Vec<Json>,
    Ghost(es): Ghost<Seq<Seq<char>>>,
    Ghost(rs): Ghost<Seq<Seq<char>>>,
) -> (r: Result<Vec<Json>, FunctionContextError>)
    requires
        identified(claim_records@),
        texts(claim_family_ids@) == ids_of(claim_records@),
        sorted_texts(texts(old(selected_claims)@)),
        claims@.len() == subject_positions(claim_records@, es, rs).len(),
        forall|k: int|
            0 <= k < claims@.len() ==> same_json(#[trigger] claims@[k], claim_records@[subject_positions(claim_records@, es, rs)[k]]),
        copies_from(claims@, claim_records@),
    ensures
        sorted_texts(texts(final(selected_claims)@)),
        r matches Ok(v) ==> {
            &&& sorted_by_text(v@, "id"@)
            &&& copies_of_family(v@, claim_records@)
            &&& forall|p: int|
                0 <= p < claim_records@.len() && (member_text(#[trigger] claim_records@[p], "subject_id"@) matches Some(t) && (
                es.contains(t) || rs.contains(t))) ==> id_set(v@).contains(id_of(claim_records@[p]).unwrap())
            &&& forall|x: Seq<char>|
                #[trigger] id_set(v@).contains(x) ==> (exists|p: int|
                    0 <= p < claim_records@.len() && id_of(#[trigger] claim_records@[p]) == Some(x) && (member_text(
                        claim_records@[p],
                        "subject_id"@,
                    ) matches Some(t) && (es.contains(t) || rs.contains(t)))) || input_tokens(derivations@).contains(Some(x))
        },
{
    let mut claims = claims;
    let ghost claims_before = claims@;
    let ghost start_claims = texts(selected_claims@);
    add_input_claims(derivations, claim_records, claim_family_ids, selected_claims, &mut claims)?;
    let ghost claims_pre = claims@;
    let sorted = sort_identified(claims)?;
    proof {
        let all = claim_records@;
        let perm = choose|perm: Seq<int>| is_arrangement(sorted@, claims_pre, perm);
        assert forall|k: int| 0 <= k < sorted@.len() implies (#[trigger] id_of(sorted@[k])) is Some && same_json(
            sorted@[k],
            record_with_id(all, id_of(sorted@[k]).unwrap()).unwrap(),
        ) by {
            let j = perm[k];
            assert(sorted@[k] == claims_pre[j]);
            if j < claims_before.len() {
                assert(claims_pre[j] == claims_before[j]);
                assert(copy_of_some(claims_before[j], all));
            } else {
                assert(copy_of_some(claims_pre[j], all));
            }
            lemma_copy_of_identified(sorted@[k], all);
        }
        lemma_selected_claims_kept(
            all,
            es,
            rs,
            claims_before,
            claims_pre,
            sorted@,
            perm,
        );
        lemma_selected_claims_sound(
            all,
            es,
            rs,
            start_claims,
            input_tokens(derivations@),
            claims_before,
            claims_pre,
            sorted@,
            perm,
        );
    }
    Ok(sorted)
}

/// The subjects a context's navigation lists, by identifier.
pub open spec fn navigation_subjects(doc: Json) -> Set<Seq<char>> {
    Set::new(
        |x: Seq<char>|
            exists|k: int|
                0 <= k < doc_items(doc, 11, "navigation"@).len() && text_member(
                    #[trigger] doc_items(doc, 11, "navigation"@)[k],
                    1,
                    "id"@,
                    x,
                ),
    )
}

/// Every claim of the family whose subject is a subject of the context's
/// navigation or one of its relationships is among its claims.
pub open spec fn context_claims_complete(doc: Json, claims: Seq<Json>) -> bool {
    forall|p: int|
        0 <= p < claims.len() && (member_text(#[trigger] claims[p], "subject_id"@) matches Some(t) && (
        navigation_subjects(doc).contains(t) || id_set(doc_items(doc, 14, "relationships"@)).contains(t)))
            ==> id_set(doc_items(doc, 4, "claims"@)).contains(id_of(claims[p]).unwrap())
}

/// The claims completeness of a context document follows from that of its
/// claims over the selected entities `es` and relationships `rs`, where the
/// navigation lists the entities `xs` of `es` and the relationships are
/// among `rs`.
proof fn lemma_claims_complete_doc(
    doc: Json,
    cs: Seq<Json>,
    es: Seq<Seq<char>>,
    rs: Seq<Seq<char>>,
    xs: Seq<Seq<char>>,
)
    requires
        xs.len() == doc_items(doc, 11, "navigation"@).len(),
        forall|k: int|
            0 <= k < xs.len() ==> text_member(#[trigger] doc_items(doc, 11, "navigation"@)[k], 1, "id"@, xs[k]),
        forall|x: Seq<char>| #[trigger] xs.contains(x) ==> es.contains(x),
        forall|x: Seq<char>| #[trigger] id_set(doc_items(doc, 14, "relationships"@)).contains(x) ==> rs.contains(x),
        forall|p: int|
            0 <= p < cs.len() && (member_text(#[trigger] cs[p], "subject_id"@) matches Some(t) && (es.contains(t)
                || rs.contains(t))) ==> id_set(doc_items(doc, 4, "claims"@)).contains(id_of(cs[p]).unwrap()),
    ensures
        context_claims_complete(doc, cs),
{
    assert forall|p: int|
        0 <= p < cs.len() && (member_text(#[trigger] cs[p], "subject_id"@) matches Some(t) && (
        navigation_subjects(doc).contains(t) || id_set(doc_items(doc, 14, "relationships"@)).contains(t)))
            implies id_set(doc_items(doc, 4, "claims"@)).contains(id_of(cs[p]).unwrap()) by {
        let t = member_text(cs[p], "subject_id"@).unwrap();
        if navigation_subjects(doc).contains(t) {
            let ns = doc_items(doc, 11, "navigation"@);
            let k = choose|k: int| 0 <= k < ns.len() && text_member(#[trigger] ns[k], 1, "id"@, t);
            assert(text_member(ns[k], 1, "id"@, xs[k]));
            assert(xs[k] == t);
            assert(xs.contains(t));
        }
    }
}

/// Every claim of a context is a claim of the family about one of the
/// context's subjects (its navigation's or its relationships), or is named
/// as an input claim of one of its derivations.
pub open spec fn context_claims_sound(doc: Json, claims: Seq<Json>) -> bool {
    forall|x: Seq<char>|
        #[trigger] id_set(doc_items(doc, 4, "claims"@)).contains(x) ==> (exists|p: int|
            0 <= p < claims.len() && id_of(#[trigger] claims[p]) == Some(x) && (member_text(claims[p], "subject_id"@) matches Some(
                t,
            ) && (navigation_subjects(doc).contains(t) || id_set(doc_items(doc, 14, "relationships"@)).contains(t))))
            || input_tokens(doc_items(doc, 6, "derivations"@)).contains(Some(x))
}

/// The claims soundness of a context document follows from that of its
/// claims over the selected entities `es` and relationships `rs`, where
/// each of `es` is a subject of the navigation, each of `rs` is one of its
/// relationships, and `toks` are the input tokens of its derivations.
proof fn lemma_claims_sound_doc(
    doc: Json,
    cs: Seq<Json>,
    es: Seq<Seq<char>>,
    rs: Seq<Seq<char>>,
    toks: Seq<Option<Seq<char>>>,
)
    requires
        forall|x: Seq<char>| #[trigger] es.contains(x) ==> navigation_subjects(doc).contains(x),
        forall|x: Seq<char>| #[trigger] rs.contains(x) ==> id_set(doc_items(doc, 14, "relationships"@)).contains(x),
        input_tokens(doc_items(doc, 6, "derivations"@)) == toks,
        forall|x: Seq<char>|
            #[trigger] id_set(doc_items(doc, 4, "claims"@)).contains(x) ==> (exists|p: int|
                0 <= p < cs.len() && id_of(#[trigger] cs[p]) == Some(x) && (member_text(cs[p], "subject_id"@) matches Some(
                    t,
                ) && (es.contains(t) || rs.contains(t)))) || toks.contains(Some(x)),
    ensures
        context_claims_sound(doc, cs),
{
    assert forall|x: Seq<char>| #[trigger] id_set(doc_items(doc, 4, "claims"@)).contains(x) implies (exists|p: int|
        0 <= p < cs.len() && id_of(#[trigger] cs[p]) == Some(x) && (member_text(cs[p], "subject_id"@) matches Some(t)
            && (navigation_subjects(doc).contains(t) || id_set(doc_items(doc, 14, "relationships"@)).contains(t))))
        || input_tokens(doc_items(doc, 6, "derivations"@)).contains(Some(x)) by {
        if !toks.contains(Some(x)) {
            let p = choose|p: int|
                0 <= p < cs.len() && id_of(#[trigger] cs[p]) == Some(x) && (member_text(cs[p], "subject_id"@) matches Some(
                    t,
                ) && (es.contains(t) || rs.contains(t)));
            let t = member_text(cs[p], "subject_id"@).unwrap();
            assert(navigation_subjects(doc).contains(t) || id_set(doc_items(doc, 14, "relationships"@)).contains(t));
        }
    }
}

/// The claims that derivation inputs add carry the names of those inputs.
proof fn lemma_added_claims_named(all: Seq<Json>, start: Seq<Seq<char>>, toks: Seq<Option<Seq<char>>>)
    requires
        token_failure(all, toks) is None,
    ensures
        forall|k: int|
            0 <= k < added_claims(all, start, toks).len() ==> (#[trigger] id_of(added_claims(all, start, toks)[k])) is Some
                && toks.contains(id_of(added_claims(all, start, toks)[k])),
    decreases toks.len(),
{
    if toks.len() > 0 {
        let rest = toks.drop_last();
        assert(token_failure(all, rest) is None);
        lemma_added_claims_named(all, start, rest);
        let prev = added_claims(all, start, rest);
        let added = added_claims(all, start, toks);
        assert forall|k: int| 0 <= k < added.len() implies (#[trigger] id_of(added[k])) is Some && toks.contains(
            id_of(added[k]),
        ) by {
            if k < prev.len() {
                assert(added[k] == prev[k]);
                assert(id_of(prev[k]) is Some && rest.contains(id_of(prev[k])));
                let w = choose|w: int| 0 <= w < rest.len() && rest[w] == id_of(prev[k]);
                assert(toks[w] == id_of(prev[k]));
            } else {
                let x = toks.last().unwrap();
                assert(names_claim(all, toks.last()));
                assert(record_with_id(all, x) is Some);
                let c = choose|c: int| 0 <= c < all.len() && #[trigger] id_of(all[c]) == Some(x);
                assert(added[k] == record_with_id(all, x).unwrap());
                assert(toks[toks.len() - 1] == Some(x));
            }
        }
    }
}

/// Claims that are copies of claims about subjects, followed by copies of
/// claims added for derivation inputs, then arranged: each identifier is
/// that of a claim about a subject or the name of an input.
proof fn lemma_selected_claims_sound(
    cs: Seq<Json>,
    entities: Seq<Seq<char>>,
    relationships: Seq<Seq<char>>,
    start: Seq<Seq<char>>,
    toks: Seq<Option<Seq<char>>>,
    about: Seq<Json>,
    pre: Seq<Json>,
    fin: Seq<Json>,
    perm: Seq<int>,
)
    requires
        about.len() == subject_positions(cs, entities, relationships).len(),
        forall|k: int|
            0 <= k < about.len() ==> same_json(#[trigger] about[k], cs[subject_positions(cs, entities, relationships)[k]]),
        token_failure(cs, toks) is None,
        pre.len() == about.len() + added_claims(cs, start, toks).len(),
        forall|k: int| 0 <= k < about.len() ==> #[trigger] pre[k] == about[k],
        forall|k: int|
            0 <= k < added_claims(cs, start, toks).len() ==> same_json(
                #[trigger] pre[about.len() + k],
                added_claims(cs, start, toks)[k],
            ),
        is_arrangement(fin, pre, perm),
    ensures
        forall|x: Seq<char>|
            #[trigger] id_set(fin).contains(x) ==> (exists|p: int|
                0 <= p < cs.len() && id_of(#[trigger] cs[p]) == Some(x) && (member_text(cs[p], "subject_id"@) matches Some(
                    t,
                ) && (entities.contains(t) || relationships.contains(t)))) || toks.contains(Some(x)),
{
    crate::laws::law_claims_about_selected_subjects(cs, entities, relationships);
    lemma_added_claims_named(cs, start, toks);
    lemma_arrangement_ids(fin, pre, perm);
    let ps = subject_positions(cs, entities, relationships);
    let added = added_claims(cs, start, toks);
    assert forall|x: Seq<char>| #[trigger] id_set(fin).contains(x) implies (exists|p: int|
        0 <= p < cs.len() && id_of(#[trigger] cs[p]) == Some(x) && (member_text(cs[p], "subject_id"@) matches Some(t)
            && (entities.contains(t) || relationships.contains(t)))) || toks.contains(Some(x)) by {
        assert(id_set(pre).contains(x));
        let m = choose|m: int| 0 <= m < pre.len() && id_of(#[trigger] pre[m]) == Some(x);
        if m < about.len() {
            let p = ps[m];
            assert(same_json(about[m], cs[p]));
            crate::json::lemma_same_json_members(about[m], cs[p]);
            assert(pre[m] == about[m]);
            assert(ps.contains(p));
            assert(id_of(cs[p]) == Some(x));
        } else {
            let k = m - about.len();
            assert(same_json(pre[about.len() + k], added[k]));
            crate::json::lemma_same_json_members(pre[m], added[k]);
            assert(id_of(added[k]) == Some(x));
            assert(toks.contains(id_of(added[k])));
        }
    }
}

/// Claims selected about subjects stay selected through appending and
/// sorting: each claim about a subject in `entities` or `relationships`
/// has its identifier among the final claims.
proof fn lemma_selected_claims_kept(
    cs: Seq<Json>,
    entities: Seq<Seq<char>>,
    relationships: Seq<Seq<char>>,
    about: Seq<Json>,
    pre: Seq<Json>,
    fin: Seq<Json>,
    perm: Seq<int>,
)
    requires
        identified(cs),
        about.len() == subject_positions(cs, entities, relationships).len(),
        forall|k: int|
            0 <= k < about.len() ==> same_json(#[trigger] about[k], cs[subject_positions(cs, entities, relationships)[k]]),
        about.len() <= pre.len(),
        forall|k: int| 0 <= k < about.len() ==> #[trigger] pre[k] == about[k],
        is_arrangement(fin, pre, perm),
    ensures
        forall|p: int|
            0 <= p < cs.len() && (member_text(#[trigger] cs[p], "subject_id"@) matches Some(t) && (entities.contains(t)
                || relationships.contains(t))) ==> id_set(fin).contains(id_of(cs[p]).unwrap()),
{
    crate::laws::law_claims_about_selected_subjects(cs, entities, relationships);
    lemma_arrangement_ids(fin, pre, perm);
    let ps = subject_positions(cs, entities, relationships);
    assert forall|p: int|
        0 <= p < cs.len() && (member_text(#[trigger] cs[p], "subject_id"@) matches Some(t) && (entities.contains(t)
            || relationships.contains(t))) implies id_set(fin).contains(id_of(cs[p]).unwrap()) by {
        assert(ps.contains(p));
        let k = choose|k: int| 0 <= k < ps.len() && ps[k] == p;
        assert(same_json(about[k], cs[p]));
        crate::json::lemma_same_json_members(about[k], cs[p]);
        assert(pre[k] == about[k]);
        assert(id_of(pre[k]) == Some(id_of(cs[p]).unwrap()));
        assert(id_set(pre).contains(id_of(cs[p]).unwrap()));
    }
}

/// The context of one callable, projected from a validated snapshot.
#[derive(Debug)]
pub struct FunctionContextV1 {
    value: Json,
}

/// The limitations every function context declares.
pub open spec fn context_limitations() -> Seq<Seq<char>> {
    seq![
        "active_cfg_not_selected"@,
        "compiler_validity_not_proven"@,
        "declared_types_not_resolved"@,
        "dispatch_not_resolved"@,
        "ownership_and_aliasing_not_computed"@,
        "returned_values_not_proven"@,
        "runtime_behavior_not_observed"@,
        "side_effects_not_computed"@,
    ]
}

fn source_text<'a>(semantic: &'a Json, field: &str) -> (r: Result<&'a str, FunctionContextError>)
    ensures
        match nested_text(*semantic, "repository"@, field@) {
            Some(t) => r matches Ok(s) && s@ == t,
            None => r matches Err(FunctionContextError::InvalidSnapshot),
        },
{
    match semantic.get("repository") {
        Some(repository) => match repository.get_str(field) {
            Some(t) => Ok(t),
            None => Err(FunctionContextError::InvalidSnapshot),
        },
        None => Err(FunctionContextError::InvalidSnapshot),
    }
}

impl FunctionContextV1 {
    /// The context document.
    pub closed spec fn document(&self) -> Json {
        self.value
    }

    /// Projects one callable from a V18 snapshot whose stored payload and
    /// head the caller has validated (`stored_snapshot_valid`; else
    /// `InvalidSnapshot`). The first stages decide as [`context_prefix`]
    /// says; a context that is built is the document that
    /// [`context_document`] describes, holds no private field or URL, and
    /// its canonical output with its LF fits the output limit.
    #[verifier::rlimit(100)]
    #[verifier::spinoff_prover]
    pub fn from_validated_v18(
        semantic: &Json,
        head: &LocalSnapshotHead,
        requested_id: &str,
        stored_snapshot_valid: bool,
        versions: &SnapshotVersions,
    ) -> (r: Result<Self, FunctionContextError>)
        ensures
            !stored_snapshot_valid ==> r matches Err(FunctionContextError::InvalidSnapshot),
            stored_snapshot_valid ==> match context_prefix(*semantic, requested_id@) {
                Err(FunctionContextError::DanglingReference(_)) => r matches Err(FunctionContextError::DanglingReference(_)),
                Err(e) => r matches Err(f) && f == e,
                Ok(_) => true,
            },
            r matches Ok(ctx) ==> {
                &&& stored_snapshot_valid
                &&& context_prefix(*semantic, requested_id@) matches Ok((graph, root, link, signature)) && context_document(
                    ctx.document(),
                    *semantic,
                    *head,
                    *versions,
                    identified_family(graph, "entities"@).unwrap(),
                    identified_family(graph, "relationships"@).unwrap(),
                    root,
                    link,
                    signature,
                    requested_id@,
                ) && copies_of_family(
                    doc_items(ctx.document(), 4, "claims"@),
                    identified_family(graph, "claims"@).unwrap(),
                ) && context_claims_complete(
                    ctx.document(),
                    identified_family(graph, "claims"@).unwrap(),
                ) && context_claims_sound(
                    ctx.document(),
                    identified_family(graph, "claims"@).unwrap(),
                ) && summaries_of_calls(
                    doc_items(member_at(ctx.document(), 3, "calls"@).unwrap(), 1, "outgoing"@),
                    identified_family(graph, "relationships"@).unwrap(),
                    call_positions(identified_family(graph, "relationships"@).unwrap(), requested_id@),
                    "source"@,
                    requested_id@,
                    identified_family(graph, "entities"@).unwrap(),
                ) && summaries_of_calls(
                    doc_items(member_at(ctx.document(), 3, "calls"@).unwrap(), 0, "incoming"@),
                    identified_family(graph, "relationships"@).unwrap(),
                    call_positions(identified_family(graph, "relationships"@).unwrap(), requested_id@),
                    "target"@,
                    requested_id@,
                    identified_family(graph, "entities"@).unwrap(),
                ) && context_navigation(
                    ctx.document(),
                    identified_family(graph, "entities"@).unwrap(),
                    requested_id@,
                    member_text(root, "owner_id"@),
                    required_text(identified_family(graph, "relationships"@).unwrap()[link], "target"@).unwrap(),
                ) && copies_of_chosen(
                    doc_items(ctx.document(), 14, "relationships"@),
                    identified_family(graph, "relationships"@).unwrap(),
                    |p: int| linked_position(identified_family(graph, "relationships"@).unwrap(), link, requested_id@, p),
                ) && context_evidence(
                    ctx.document(),
                    identified_family(graph, "evidence"@).unwrap(),
                    context_references(
                        ctx.document(),
                        root,
                        owner_record(identified_family(graph, "entities"@).unwrap(), root),
                        signature,
                    ),
                )
                &&& first_finding(ctx.document(), r17_private_fields(), true) is None
                &&& json_bytes(ctx.document()).len() + 1 <= MAX_R17_CONTEXT_OUTPUT_BYTES
                &&& context_bounds(ctx.document())
            },
    {
        if !stored_snapshot_valid {
            return Err(FunctionContextError::InvalidSnapshot);
        }
        let graph = match semantic.get("knowledge_graph") {
            Some(g) => g,
            None => return Err(FunctionContextError::InvalidSnapshot),
        };
        if graph.as_object().is_none() {
            return Err(FunctionContextError::InvalidSnapshot);
        }
        let entity_ids = family_ids(graph, "entities")?;
        let relationship_family_ids = family_ids(graph, "relationships")?;
        let claim_family_ids = family_ids(graph, "claims")?;
        let evidence_family_ids = family_ids(graph, "evidence")?;
        let entities = match graph.get_array("entities") {
            Some(v) => v.as_slice(),
            None => return Err(FunctionContextError::InvalidSnapshot),
        };
        let relationships = match graph.get_array("relationships") {
            Some(v) => v.as_slice(),
            None => return Err(FunctionContextError::InvalidSnapshot),
        };
        let claim_records = match graph.get_array("claims") {
            Some(v) => v.as_slice(),
            None => return Err(FunctionContextError::InvalidSnapshot),
        };
        let evidence_records = match graph.get_array("evidence") {
            Some(v) => v.as_slice(),
            None => return Err(FunctionContextError::InvalidSnapshot),
        };
        let root = select_root(entities, &entity_ids, requested_id)?;
        let (signature_link, signature) = select_signature(relationships, entities, &entity_ids, requested_id)?;
        let signature_id = crate::s4_r17::relationship_target(&relationships[signature_link])?;
        let (parameters, parameter_links, parameter_ids) = select_parameters(
            relationships,
            entities,
            &entity_ids,
            requested_id,
            signature_id,
        )?;
        let (body_facts, body_links, body_ids) = select_body_facts(relationships, entities, &entity_ids, requested_id)?;
        let (outgoing_calls, incoming_calls, call_links, call_ends) = select_calls(
            relationships,
            entities,
            &entity_ids,
            requested_id,
        )?;
        let owner_id = root.get_str("owner_id");
        let owner = match owner_id {
            Some(o) => Some(entity_with_id(entities, &entity_ids, o)?),
            None => None,
        };
        let mut selected_entities: Vec<String> = Vec::new();
        add_id(&mut selected_entities, requested_id);
        add_id(&mut selected_entities, signature_id);
        match owner_id {
            Some(o) => add_id(&mut selected_entities, o),
            None => {},
        }
        let mut k: usize = 0;
        while k < parameter_ids.len()
            invariant
                k <= parameter_ids.len(),
                sorted_texts(texts(selected_entities@)),
                texts(selected_entities@).contains(requested_id@),
                texts(selected_entities@).contains(signature_id@),
                owner_id matches Some(o) ==> texts(selected_entities@).contains(o@),
            decreases parameter_ids.len() - k,
        {
            add_id(&mut selected_entities, parameter_ids[k].as_str());
            k += 1;
        }
        let mut k: usize = 0;
        while k < body_ids.len()
            invariant
                k <= body_ids.len(),
                sorted_texts(texts(selected_entities@)),
                texts(selected_entities@).contains(requested_id@),
                texts(selected_entities@).contains(signature_id@),
                owner_id matches Some(o) ==> texts(selected_entities@).contains(o@),
            decreases body_ids.len() - k,
        {
            add_id(&mut selected_entities, body_ids[k].as_str());
            k += 1;
        }
        let mut k: usize = 0;
        while k < call_ends.len()
            invariant
                k <= call_ends.len(),
                sorted_texts(texts(selected_entities@)),
                texts(selected_entities@).contains(requested_id@),
                texts(selected_entities@).contains(signature_id@),
                owner_id matches Some(o) ==> texts(selected_entities@).contains(o@),
            decreases call_ends.len() - k,
        {
            add_id(&mut selected_entities, call_ends[k].as_str());
            k += 1;
        }
        let linked = linked_relationships(relationships, signature_link, &parameter_links, &body_links, &call_links)?;
        let ghost linked_view = linked@;
        proof {
            let rels = relationships@;
            let f = |p: int| p == signature_link as int || parameter_links@.map_values(|k: usize| k as int).contains(p)
                || body_links@.map_values(|k: usize| k as int).contains(p) || call_links@.map_values(|k: usize| k as int).contains(p);
            let g = |p: int| linked_position(rels, signature_link as int, requested_id@, p);
            assert(f =~= g);
        }
        let mut selected_relationships: Vec<String> = Vec::new();
        add_record_ids(&linked, &mut selected_relationships)?;
        let mut claims = claims_about(graph, &selected_entities, &selected_relationships)?;
        let mut selected_claims: Vec<String> = Vec::new();
        add_record_ids(&claims, &mut selected_claims)?;
        let derivations = derivations_about(graph, &selected_entities, &selected_relationships)?;
        let claims = settle_claims(
            &derivations,
            claim_records,
            &claim_family_ids,
            &mut selected_claims,
            claims,
            Ghost(texts(selected_entities@)),
            Ghost(texts(selected_relationships@)),
        )?;
        validate_claim_subjects(&claims, &selected_entities, &selected_relationships)?;
        let diagnostics = uncertainty_about(graph, "diagnostics", &selected_entities)?;
        let coverage_gaps = uncertainty_about(graph, "coverage", &selected_entities)?;
        let diagnostics = sort_identified(diagnostics)?;
        let coverage_gaps = sort_identified(coverage_gaps)?;
        let mut evidence_ids: Vec<String> = Vec::new();
        collect_evidence_ids(root, &mut evidence_ids)?;
        match owner {
            Some(o) => collect_evidence_ids(o, &mut evidence_ids)?,
            None => {},
        }
        collect_evidence_ids(signature, &mut evidence_ids)?;
        collect_all_evidence(&parameters, &mut evidence_ids)?;
        collect_all_evidence(&body_facts, &mut evidence_ids)?;
        collect_all_evidence(&linked, &mut evidence_ids)?;
        collect_all_evidence(&claims, &mut evidence_ids)?;
        collect_all_evidence(&diagnostics, &mut evidence_ids)?;
        collect_all_evidence(&coverage_gaps, &mut evidence_ids)?;
        collect_all_evidence(&derivations, &mut evidence_ids)?;
        let ghost owner_view: Option<Json> = match owner {
            Some(o) => Some(*o),
            None => None,
        };
        let ghost ev_init = texts(evidence_ids@);
        let ghost init_refs = Set::new(
            |x: Seq<char>|
                refs_hold(crate::s4_r17::evidence_refs(*root), x) || (owner_view matches Some(o) && refs_hold(
                    crate::s4_r17::evidence_refs(o),
                    x,
                )) || refs_hold(crate::s4_r17::evidence_refs(*signature), x) || refs_hold(
                    records_evidence(parameters@),
                    x,
                ) || refs_hold(records_evidence(body_facts@), x) || refs_hold(records_evidence(linked@), x)
                    || refs_hold(records_evidence(claims@), x) || refs_hold(records_evidence(diagnostics@), x)
                    || refs_hold(records_evidence(coverage_gaps@), x) || refs_hold(records_evidence(derivations@), x),
        );
        proof {
            assert forall|x: Seq<char>| #[trigger] ev_init.contains(x) <==> init_refs.contains(x) by {
            }
        }
        let evidence = evidence_closure(evidence_records, &evidence_family_ids, evidence_ids)?;
        let ghost evidence_view = evidence@;
        proof {
            let recs = evidence_records@;
            assert forall|q: Set<Seq<char>>| #[trigger] closed_over(recs, init_refs, q) implies evidence_closed(
                recs,
                ev_init,
                q,
            ) by {
                assert forall|x: Seq<char>| #[trigger] ev_init.contains(x) implies q.contains(x) by {
                    assert(init_refs.contains(x));
                }
            }
            assert(init_refs.subset_of(id_set(evidence_view))) by {
                assert forall|x: Seq<char>| #[trigger] init_refs.contains(x) implies id_set(evidence_view).contains(x) by {
                    assert(ev_init.contains(x));
                }
            }
            assert(closed_over(recs, init_refs, id_set(evidence_view)));
        }
        let navigation = build_navigation(
            entities,
            &entity_ids,
            &selected_entities,
            &linked,
            requested_id,
            owner_id,
            signature_id,
            &parameters,
            &body_facts,
            &outgoing_calls,
            &incoming_calls,
        )?;
        let ghost navigation_view = navigation@;
        let ghost claims_view = claims@;
        let ghost derivations_view = derivations@;
        let ghost selected_view = selected_entities@;
        let ghost outgoing_view = outgoing_calls@;
        let ghost incoming_view = incoming_calls@;
        let uncertainty = (diagnostics.len() as u64).saturating_add(coverage_gaps.len() as u64).saturating_add(
            derivations.len() as u64,
        );
        validate_function_context_limits(
            FunctionContextCounts {
                parameters: parameters.len() as u64,
                linked_subjects: selected_entities.len() as u64,
                linked_relationships: linked.len() as u64,
                linked_claims: claims.len() as u64,
                linked_evidence: evidence.len() as u64,
                uncertainty_records: uncertainty,
            },
        )?;
        let display = display_signature(root, signature, &parameters)?;
        let repository_identity = source_text(semantic, "identity")?;
        let commit_oid = source_text(semantic, "commit_oid")?;
        let tree_oid = source_text(semantic, "tree_oid")?;
        let source = Json::Object(
            vec![
                entry("commit_oid", Json::text(commit_oid)),
                entry("graph_schema_version", Json::text(versions.graph.as_str())),
                entry("graph_semantic_hash", Json::text(head.graph_semantic_hash.as_str())),
                entry("ontology_version", Json::text(versions.ontology.as_str())),
                entry("repository_identity", Json::text(repository_identity)),
                entry("snapshot_id", Json::text(head.snapshot_id.as_str())),
                entry("snapshot_schema_version", Json::text(versions.snapshot.as_str())),
                entry("snapshot_semantic_hash", Json::text(head.semantic_hash.as_str())),
                entry("tree_oid", Json::text(tree_oid)),
            ],
        );
        let limitations = [
            "active_cfg_not_selected",
            "compiler_validity_not_proven",
            "declared_types_not_resolved",
            "dispatch_not_resolved",
            "ownership_and_aliasing_not_computed",
            "returned_values_not_proven",
            "runtime_behavior_not_observed",
            "side_effects_not_computed",
        ];
        let calls = Json::Object(
            vec![entry("incoming", Json::Array(incoming_calls)), entry("outgoing", Json::Array(outgoing_calls))],
        );
        let ghost calls_value = calls;
        let owner_value = match owner {
            Some(o) => json_copy(o),
            None => Json::Null,
        };
        let ghost params_view = parameters@;
        let value = Json::Object(
            vec![
                entry("authority", Json::text("declared_source_only")),
                entry("body_facts", Json::Array(body_facts)),
                entry("callable", json_copy(root)),
                entry("calls", calls),
                entry("claims", Json::Array(claims)),
                entry("coverage_gaps", Json::Array(coverage_gaps)),
                entry("derivations", Json::Array(derivations)),
                entry("diagnostics", Json::Array(diagnostics)),
                entry("display_signature", Json::Str(display)),
                entry("evidence", Json::Array(evidence)),
                entry("limitations", text_array(&limitations)),
                entry("navigation", Json::Array(navigation)),
                entry("owner", owner_value),
                entry("parameters", Json::Array(parameters)),
                entry("relationships", Json::Array(linked)),
                entry("schema_version", Json::text(R17_FUNCTION_CONTEXT_VERSION)),
                entry("signature", json_copy(signature)),
                entry("source", source),
            ],
        );
        proof {
            assert(doc_items(value, 9, "evidence"@) == evidence_view);
            assert(doc_items(value, 14, "relationships"@) == linked_view);
            assert(doc_items(value, 4, "claims"@) == claims_view);
            assert forall|k: int| 0 <= k < texts(selected_view).len() implies text_member(
                #[trigger] doc_items(value, 11, "navigation"@)[k],
                1,
                "id"@,
                texts(selected_view)[k],
            ) by {
                assert(doc_items(value, 11, "navigation"@)[k] == navigation_view[k]);
            }
            assert forall|x: Seq<char>| #[trigger] id_set(doc_items(value, 14, "relationships"@)).contains(x) implies texts(
                selected_relationships@,
            ).contains(x) by {
                assert(id_set(linked_view).contains(x));
            }
            lemma_claims_complete_doc(
                value,
                claim_records@,
                texts(selected_view),
                texts(selected_relationships@),
                texts(selected_view),
            );
            assert forall|x: Seq<char>| #[trigger] texts(selected_view).contains(x) implies navigation_subjects(
                value,
            ).contains(x) by {
                let k = choose|k: int| 0 <= k < texts(selected_view).len() && texts(selected_view)[k] == x;
                assert(text_member(doc_items(value, 11, "navigation"@)[k], 1, "id"@, x));
            }
            assert forall|x: Seq<char>| #[trigger] texts(selected_relationships@).contains(x) implies id_set(
                doc_items(value, 14, "relationships"@),
            ).contains(x) by {
                assert(id_set(linked_view).contains(x));
            }
            assert(doc_items(value, 6, "derivations"@) == derivations_view);
            lemma_claims_sound_doc(
                value,
                claim_records@,
                texts(selected_view),
                texts(selected_relationships@),
                input_tokens(derivations_view),
            );
            assert(doc_items(value, 11, "navigation"@) == navigation_view);
            assert(doc_items(calls_value, 1, "outgoing"@) == outgoing_view);
            assert(doc_items(calls_value, 0, "incoming"@) == incoming_view);
            let xs = texts(selected_view);
            assert(xs.len() == navigation_view.len());
            assert(doc_items(value, 13, "parameters"@) == params_view);
            let lp = link_positions(
                relationships@,
                "HAS_PARAMETER"@,
                "source"@,
                signature_id@,
            );
            assert forall|x: Seq<char>| #[trigger] texts(parameter_ids@).contains(x) <==> exists|p: int|
                lp.contains(p) && required_text(#[trigger] relationships@[p], "target"@) == Some(x) by {
                if texts(parameter_ids@).contains(x) {
                    let m = choose|m: int| 0 <= m < texts(parameter_ids@).len() && texts(parameter_ids@)[m] == x;
                    assert(parameter_links@.map_values(|k: usize| k as int)[m] == parameter_links@[m] as int);
                    assert(lp[m] == parameter_links@[m] as int);
                    assert(lp.contains(parameter_links@[m] as int));
                }
                if exists|p: int| lp.contains(p) && required_text(#[trigger] relationships@[p], "target"@) == Some(x) {
                    let p = choose|p: int| lp.contains(p) && required_text(#[trigger] relationships@[p], "target"@) == Some(x);
                    let m = choose|m: int| 0 <= m < lp.len() && lp[m] == p;
                    assert(parameter_links@.map_values(|k: usize| k as int)[m] == parameter_links@[m] as int);
                    assert(texts(parameter_ids@)[m] == x);
                }
            }
            assert(init_refs =~= context_references(value, *root, owner_view, *signature));
        }
        validate_private_fields(&value)?;
        let context = FunctionContextV1 { value };
        context.canonical_stdout()?;
        Ok(context)
    }

    /// The context document.
    pub fn value(&self) -> (r: &Json)
        ensures
            *r == self.document(),
    {
        &self.value
    }

    /// The canonical document followed by one LF; above
    /// [`MAX_R17_CONTEXT_OUTPUT_BYTES`] with its LF it is refused with the
    /// observed length.
    pub fn canonical_stdout(&self) -> (r: Result<Vec<u8>, FunctionContextError>)
        ensures
            match r {
                Ok(bytes) => bytes@ == json_bytes(self.document()).push(10u8) && bytes@.len()
                    <= MAX_R17_CONTEXT_OUTPUT_BYTES,
                Err(e) => json_bytes(self.document()).len() + 1 > MAX_R17_CONTEXT_OUTPUT_BYTES && (e
                    matches FunctionContextError::LimitExceeded { limit, maximum, observed } && limit@
                    == "context_output_bytes_including_lf"@ && maximum == MAX_R17_CONTEXT_OUTPUT_BYTES
                    && observed as int == if json_bytes(self.document()).len() + 1 > u64::MAX {
                    u64::MAX as int
                } else {
                    json_bytes(self.document()).len() + 1int
                }),
            },
    {
        let mut bytes = to_bytes(&self.value);
        let observed = (bytes.len() as u64).saturating_add(1);
        match validate_function_context_output_bytes(observed) {
            Ok(()) => {},
            Err(e) => return Err(e),
        }
        bytes.push(10u8);
        Ok(bytes)
    }
}

/// The evidence identifiers of records, record by record; `None` when a
/// record's references are malformed.
pub open spec fn records_evidence(records: Seq<Json>) -> Option<Seq<Seq<char>>>
    decreases records.len(),
{
    if records.len() == 0 {
        Some(Seq::empty())
    } else {
        match (records_evidence(records.drop_last()), crate::s4_r17::evidence_refs(records.last())) {
            (Some(a), Some(b)) => Some(a + b),
            _ => None,
        }
    }
}

/// Adds the evidence identifiers of each record to the ordered set
/// `identifiers` ([`records_evidence`]).
fn collect_all_evidence(records: &[Json], identifiers: &mut Vec<String>) -> (r: Result<(), FunctionContextError>)
    requires
        sorted_texts(texts(old(identifiers)@)),
    ensures
        sorted_texts(texts(final(identifiers)@)),
        match records_evidence(records@) {
            Some(ids) => r is Ok && crate::s4_r17::set_grown(texts(old(identifiers)@), texts(final(identifiers)@), ids),
            None => r matches Err(FunctionContextError::InvalidSnapshot),
        },
{
    let ghost start = texts(identifiers@);
    let ghost mut done: Seq<Seq<char>> = Seq::empty();
    let mut k: usize = 0;
    while k < records.len()
        invariant
            k <= records.len(),
            start == texts(old(identifiers)@),
            sorted_texts(texts(identifiers@)),
            records_evidence(records@.take(k as int)) == Some(done),
            crate::s4_r17::set_grown(start, texts(identifiers@), done),
        decreases records.len() - k,
    {
        proof {
            assert(records@.take(k + 1).drop_last() =~= records@.take(k as int));
            assert(records@.take(k + 1).last() == records@[k as int]);
        }
        let ghost before = texts(identifiers@);
        match collect_evidence_ids(&records[k], identifiers) {
            Ok(()) => {},
            Err(e) => {
                proof {
                    assert(records_evidence(records@.take(k + 1)) is None);
                    lemma_records_evidence_prefix_none(records@, k + 1);
                }
                return Err(e);
            },
        }
        proof {
            let part = crate::s4_r17::evidence_refs(records@[k as int])->Some_0;
            assert forall|x: Seq<char>| #[trigger] texts(identifiers@).contains(x) <==> (start.contains(x) || (done
                + part).contains(x)) by {
                if (done + part).contains(x) {
                    let i = choose|i: int| 0 <= i < (done + part).len() && (done + part)[i] == x;
                    if i < done.len() {
                        assert(done[i] == x);
                    } else {
                        assert(part[i - done.len()] == x);
                    }
                }
                if done.contains(x) {
                    let i = choose|i: int| 0 <= i < done.len() && done[i] == x;
                    assert((done + part)[i] == x);
                }
                if part.contains(x) {
                    let i = choose|i: int| 0 <= i < part.len() && part[i] == x;
                    assert((done + part)[done.len() + i] == x);
                }
            }
            done = done + part;
        }
        k += 1;
    }
    proof {
        assert(records@.take(k as int) =~= records@);
    }
    Ok(())
}

/// A malformed prefix makes the whole sequence malformed.
proof fn lemma_records_evidence_prefix_none(records: Seq<Json>, n: int)
    requires
        0 <= n <= records.len(),
        records_evidence(records.take(n)) is None,
    ensures
        records_evidence(records) is None,
    decreases records.len() - n,
{
    if n < records.len() {
        assert(records.take(n + 1).drop_last() =~= records.take(n));
        lemma_records_evidence_prefix_none(records, n + 1);
    } else {
        assert(records.take(n) =~= records);
    }
}


} // verus!
