//! Record families of a portable graph: identifiers that must be present,
//! non-empty and strictly increasing, and references between families.
use vstd::prelude::*;
use crate::json::{as_items, as_text, member, member_items, member_names, member_text, names_view, Json};
use crate::text::{
    chars_lower_hex_digest, chars_of, lower_hex_digest, safe_relative_path_rule, safe_relative_path_text,
    strictly_increasing, text_eq, text_less, text_lt,
};

verus! {

/// The texts of a list of strings.
pub open spec fn texts(values: Seq<String>) -> Seq<Seq<char>> {
    values.map_values(|v: String| v@)
}

/// What a family or reference check found wrong.
pub enum FaultView {
    /// A record, identifier or reference list is missing or has the wrong shape.
    Malformed,
    /// The identifier that breaks the order, or the reference that names no record.
    Offending(Seq<char>),
}

/// What a family or reference check found wrong.
#[derive(Debug, PartialEq, Eq)]
pub enum Fault {
    Malformed,
    Offending(String),
}

impl Fault {
    pub open spec fn view(self) -> FaultView {
        match self {
            Fault::Malformed => FaultView::Malformed,
            Fault::Offending(id) => FaultView::Offending(id@),
        }
    }
}

/// Prepends the identifiers already read to the outcome of the rest.
pub open spec fn glue(
    prefix: Seq<Seq<char>>,
    rest: Result<Seq<Seq<char>>, FaultView>,
) -> Result<Seq<Seq<char>>, FaultView> {
    match rest {
        Ok(ids) => Ok(prefix + ids),
        Err(f) => Err(f),
    }
}

/// Reads the identifiers of a family left to right: each record must hold a
/// non-empty string under `id_field`, strictly greater than the one before
/// it (`prev`); the first record that does not is reported.
pub open spec fn family_scan(
    items: Seq<Json>,
    id_field: Seq<char>,
    prev: Option<Seq<char>>,
) -> Result<Seq<Seq<char>>, FaultView>
    decreases items.len(),
{
    if items.len() == 0 {
        Ok(Seq::empty())
    } else {
        match member_text(items[0], id_field) {
            None => Err(FaultView::Malformed),
            Some(id) => if id.len() == 0 {
                Err(FaultView::Malformed)
            } else if prev matches Some(p) && !text_lt(p, id) {
                Err(FaultView::Offending(id))
            } else {
                glue(seq![id], family_scan(items.drop_first(), id_field, Some(id)))
            },
        }
    }
}

/// The identifiers of the family stored under `family` in `object`, or what
/// is wrong with it.
pub open spec fn family_outcome(object: Json, family: Seq<char>, id_field: Seq<char>) -> Result<
    Seq<Seq<char>>,
    FaultView,
> {
    match member_items(object, family) {
        None => Err(FaultView::Malformed),
        Some(items) => family_scan(items, id_field, None),
    }
}

/// The identifiers that a successful scan returns are strictly increasing,
/// so each occurs once.
pub proof fn lemma_family_scan_increasing(
    items: Seq<Json>,
    id_field: Seq<char>,
    prev: Option<Seq<char>>,
)
    ensures
        family_scan(items, id_field, prev) is Ok ==> ({
            let ids = family_scan(items, id_field, prev)->Ok_0;
            &&& strictly_increasing(ids)
            &&& ids.len() == items.len()
            &&& (ids.len() > 0 && prev is Some) ==> text_lt(prev->Some_0, ids[0])
        }),
    decreases items.len(),
{
    if items.len() > 0 {
        match member_text(items[0], id_field) {
            Some(id) => {
                lemma_family_scan_increasing(items.drop_first(), id_field, Some(id));
                match family_scan(items, id_field, prev) {
                    Ok(ids) => {
                        let rest = family_scan(items.drop_first(), id_field, Some(id))->Ok_0;
                        assert(ids == seq![id] + rest);
                        assert forall|i: int| 0 <= i < ids.len() - 1 implies text_lt(
                            #[trigger] ids[i],
                            ids[i + 1],
                        ) by {
                            if i > 0 {
                                assert(ids[i] == rest[i - 1]);
                                assert(ids[i + 1] == rest[i]);
                            }
                        }
                    },
                    Err(_) => {},
                }
            },
            None => {},
        }
    }
}

/// The identifiers of a family (`object[family]`, each record's `id_field`):
/// present, non-empty and strictly increasing ([`family_outcome`]).
pub fn family_ids(object: &Json, family: &str, id_field: &str) -> (r: Result<Vec<String>, Fault>)
    ensures
        match family_outcome(*object, family@, id_field@) {
            Ok(ids) => r matches Ok(v) && texts(v@) == ids,
            Err(f) => r matches Err(e) && e.view() == f,
        },
        r matches Ok(v) ==> crate::textset::sorted_texts(texts(v@)),
{
    let items = match object.get_array(family) {
        Some(items) => items,
        None => return Err(Fault::Malformed),
    };
    let ghost all = items@;
    let mut ids: Vec<String> = Vec::new();
    let mut k: usize = 0;
    assert(all.skip(0) =~= all);
    while k < items.len()
        invariant
            k <= items.len(),
            all == items@,
            member_items(*object, family@) == Some(all),
            ids@.len() == k,
            family_scan(all, id_field@, None) == glue(
                texts(ids@),
                family_scan(
                    all.skip(k as int),
                    id_field@,
                    if k == 0 {
                        None
                    } else {
                        Some(ids@[k - 1]@)
                    },
                ),
            ),
        decreases items.len() - k,
    {
        let ghost prev: Option<Seq<char>> = if k == 0 {
            None
        } else {
            Some(ids@[k - 1]@)
        };
        let ghost rest = all.skip(k as int);
        assert(rest[0] == all[k as int]);
        assert(rest.drop_first() =~= all.skip(k + 1));
        let id = match items[k].get_str(id_field) {
            Some(id) => id,
            None => return Err(Fault::Malformed),
        };
        if id.is_empty() {
            return Err(Fault::Malformed);
        }
        if k > 0 && !text_less(ids[k - 1].as_str(), id) {
            return Err(Fault::Offending(id.to_owned()));
        }
        let ghost before = ids@;
        ids.push(id.to_owned());
        proof {
            assert(texts(ids@) =~= texts(before) + seq![id@]);
            let tail = family_scan(all.skip(k + 1), id_field@, Some(id@));
            assert(family_scan(rest, id_field@, prev) == glue(seq![id@], tail));
            match tail {
                Ok(t) => {
                    assert(texts(before) + (seq![id@] + t) =~= texts(ids@) + t);
                },
                Err(_) => {},
            }
        }
        k += 1;
    }
    proof {
        assert(all.skip(k as int) =~= Seq::<Json>::empty());
        assert(texts(ids@) + Seq::<Seq<char>>::empty() =~= texts(ids@));
        lemma_family_scan_increasing(all, id_field@, None);
        crate::textset::lemma_increasing_is_sorted(texts(ids@));
    }
    Ok(ids)
}

/// Whether `id` is one of `ids`.
pub fn contains_text(ids: &[String], id: &str) -> (r: bool)
    ensures
        r == texts(ids@).contains(id@),
{
    let mut k: usize = 0;
    while k < ids.len()
        invariant
            k <= ids.len(),
            forall|m: int| 0 <= m < k ==> texts(ids@)[m] != id@,
        decreases ids.len() - k,
    {
        if text_eq(ids[k].as_str(), id) {
            assert(texts(ids@)[k as int] == id@);
            return true;
        }
        k += 1;
    }
    false
}

/// The outcome of checking one reference: the text under `field` must name
/// one of `ids`.
pub open spec fn reference_outcome(record: Json, field: Seq<char>, ids: Seq<Seq<char>>) -> Option<
    FaultView,
> {
    match member_text(record, field) {
        None => Some(FaultView::Malformed),
        Some(id) => if ids.contains(id) {
            None
        } else {
            Some(FaultView::Offending(id))
        },
    }
}

/// The first fault of a list of references, left to right.
pub open spec fn references_outcome(items: Seq<Json>, ids: Seq<Seq<char>>) -> Option<FaultView>
    decreases items.len(),
{
    if items.len() == 0 {
        None
    } else {
        match as_text(items[0]) {
            None => Some(FaultView::Malformed),
            Some(id) => if ids.contains(id) {
                references_outcome(items.drop_first(), ids)
            } else {
                Some(FaultView::Offending(id))
            },
        }
    }
}

/// The outcome of an optional list of references under `field`: absent is
/// fine; otherwise an array of strings that each name one of `ids`.
pub open spec fn reference_list_outcome(record: Json, field: Seq<char>, ids: Seq<Seq<char>>) -> Option<
    FaultView,
> {
    match member(record, field) {
        None => None,
        Some(v) => match as_items(v) {
            None => Some(FaultView::Malformed),
            Some(items) => references_outcome(items, ids),
        },
    }
}

/// The view of an optional fault.
pub open spec fn fault_opt(f: Option<Fault>) -> Option<FaultView> {
    match f {
        Some(f) => Some(f.view()),
        None => None,
    }
}

/// Checks one reference ([`reference_outcome`]).
pub fn reference_fault(record: &Json, field: &str, ids: &[String]) -> (r: Option<Fault>)
    ensures
        fault_opt(r) == reference_outcome(*record, field@, texts(ids@)),
{
    match record.get_str(field) {
        None => Some(Fault::Malformed),
        Some(id) => if contains_text(ids, id) {
            None
        } else {
            Some(Fault::Offending(id.to_owned()))
        },
    }
}

/// Checks an optional list of references ([`reference_list_outcome`]).
pub fn reference_list_fault(record: &Json, field: &str, ids: &[String]) -> (r: Option<Fault>)
    ensures
        fault_opt(r) == reference_list_outcome(*record, field@, texts(ids@)),
{
    let value = match record.get(field) {
        None => return None,
        Some(v) => v,
    };
    let items = match value.as_array() {
        None => return Some(Fault::Malformed),
        Some(items) => items,
    };
    let ghost names = texts(ids@);
    let mut k: usize = 0;
    assert(items@.skip(0) =~= items@);
    while k < items.len()
        invariant
            k <= items.len(),
            names == texts(ids@),
            as_items(*value) == Some(items@),
            member(*record, field@) == Some(*value),
            references_outcome(items@, names) == references_outcome(items@.skip(k as int), names),
        decreases items.len() - k,
    {
        assert(items@.skip(k as int)[0] == items@[k as int]);
        assert(items@.skip(k as int).drop_first() =~= items@.skip(k + 1));
        let id = match items[k].as_str() {
            None => return Some(Fault::Malformed),
            Some(id) => id,
        };
        if !contains_text(ids, id) {
            return Some(Fault::Offending(id.to_owned()));
        }
        k += 1;
    }
    None
}

/// How the location of an evidence record is judged.
#[derive(Debug, Clone, Copy, PartialEq, Eq)]
pub enum EvidenceLocation {
    /// A safe repository path, or an artifact digest whose document path (if any) is safe.
    Accepted,
    /// The `path` is not a safe relative path.
    UnsafeEvidencePath,
    /// The artifact's `document_path` is not a safe relative path.
    UnsafeDocumentPath,
    /// Neither a `path` nor a valid `artifact_sha256`.
    Unanchored,
}

/// An evidence record is located by its `path` when it has one; otherwise by
/// a lowercase SHA-256 `artifact_sha256`, with an optional `document_path`.
pub open spec fn evidence_location(evidence: Json) -> EvidenceLocation {
    match member_text(evidence, "path"@) {
        Some(path) => if safe_relative_path_rule(path) {
            EvidenceLocation::Accepted
        } else {
            EvidenceLocation::UnsafeEvidencePath
        },
        None => match member_text(evidence, "artifact_sha256"@) {
            Some(digest) => if !lower_hex_digest(digest, 64) {
                EvidenceLocation::Unanchored
            } else {
                match member_text(evidence, "document_path"@) {
                    Some(document) => if safe_relative_path_rule(document) {
                        EvidenceLocation::Accepted
                    } else {
                        EvidenceLocation::UnsafeDocumentPath
                    },
                    None => EvidenceLocation::Accepted,
                }
            },
            None => EvidenceLocation::Unanchored,
        },
    }
}

/// Judges where an evidence record points ([`evidence_location`]).
pub fn locate_evidence(evidence: &Json) -> (r: EvidenceLocation)
    ensures
        r == evidence_location(*evidence),
{
    if let Some(path) = evidence.get_str("path") {
        return if safe_relative_path_text(path) {
            EvidenceLocation::Accepted
        } else {
            EvidenceLocation::UnsafeEvidencePath
        };
    }
    match evidence.get_str("artifact_sha256") {
        Some(digest) => {
            let cs = chars_of(digest);
            if !chars_lower_hex_digest(cs.as_slice(), 64) {
                return EvidenceLocation::Unanchored;
            }
            match evidence.get_str("document_path") {
                Some(document) => if safe_relative_path_text(document) {
                    EvidenceLocation::Accepted
                } else {
                    EvidenceLocation::UnsafeDocumentPath
                },
                None => EvidenceLocation::Accepted,
            }
        },
        None => EvidenceLocation::Unanchored,
    }
}

/// The text of a string value, or the empty text.
pub open spec fn text_of(j: Json) -> Seq<char> {
    match as_text(j) {
        Some(t) => t,
        None => Seq::empty(),
    }
}

/// The texts of an array of strings; `None` when an item is not a string.
pub open spec fn text_items(items: Seq<Json>) -> Option<Seq<Seq<char>>> {
    if forall|k: int| 0 <= k < items.len() ==> (#[trigger] as_text(items[k])) is Some {
        Some(items.map_values(|j: Json| text_of(j)))
    } else {
        None
    }
}

/// The texts of the array of strings stored under `field`.
pub open spec fn string_array_outcome(object: Json, field: Seq<char>) -> Option<Seq<Seq<char>>> {
    match member_items(object, field) {
        Some(items) => text_items(items),
        None => None,
    }
}

/// Reads the array of strings stored under `field` ([`string_array_outcome`]).
pub fn string_items(object: &Json, field: &str) -> (r: Option<Vec<String>>)
    ensures
        match string_array_outcome(*object, field@) {
            Some(ts) => r matches Some(v) && texts(v@) == ts,
            None => r is None,
        },
{
    let items = match object.get_array(field) {
        Some(items) => items,
        None => return None,
    };
    let mut out: Vec<String> = Vec::new();
    let mut k: usize = 0;
    while k < items.len()
        invariant
            k <= items.len(),
            member_items(*object, field@) == Some(items@),
            out@.len() == k,
            forall|m: int| 0 <= m < k ==> (#[trigger] as_text(items@[m])) is Some,
            forall|m: int| 0 <= m < k ==> #[trigger] texts(out@)[m] == text_of(items@[m]),
        decreases items.len() - k,
    {
        let t = match items[k].as_str() {
            Some(t) => t,
            None => return None,
        };
        let ghost before = out@;
        out.push(t.to_owned());
        proof {
            assert(texts(out@)[k as int] == t@);
            assert(text_of(items@[k as int]) == t@);
            assert forall|m: int| 0 <= m < k + 1 implies #[trigger] texts(out@)[m] == text_of(
                items@[m],
            ) by {
                if m < k {
                    assert(out@[m] == before[m]);
                    assert(texts(before)[m] == text_of(items@[m]));
                    assert(texts(out@)[m] == texts(before)[m]);
                }
            }
        }
        k += 1;
    }
    assert(texts(out@) =~= items@.map_values(|j: Json| text_of(j)));
    Some(out)
}

/// The names of `fields` are, as a set, the texts of `expected`.
pub open spec fn same_names(fields: Seq<(String, Json)>, expected: Seq<Seq<char>>) -> bool {
    &&& forall|k: int| 0 <= k < fields.len() ==> expected.contains(#[trigger] fields[k].0@)
    &&& forall|k: int| 0 <= k < expected.len() ==> member_names(fields).contains(#[trigger] expected[k])
}

/// The member names of `object` are, as a set, the texts of `expected`.
pub open spec fn same_key_set(object: Json, expected: Seq<Seq<char>>) -> bool {
    match object {
        Json::Object(fields) => same_names(fields@, expected),
        _ => false,
    }
}

fn name_listed(names: &[&str], name: &str) -> (r: bool)
    ensures
        r == names_view(names@).contains(name@),
{
    let mut k: usize = 0;
    while k < names.len()
        invariant
            k <= names.len(),
            forall|m: int| 0 <= m < k ==> names_view(names@)[m] != name@,
        decreases names.len() - k,
    {
        if text_eq(names[k], name) {
            assert(names_view(names@)[k as int] == name@);
            return true;
        }
        k += 1;
    }
    false
}

fn key_present(fields: &Vec<(String, Json)>, name: &str) -> (r: bool)
    ensures
        r == member_names(fields@).contains(name@),
{
    let mut k: usize = 0;
    while k < fields.len()
        invariant
            k <= fields.len(),
            forall|m: int| 0 <= m < k ==> member_names(fields@)[m] != name@,
        decreases fields.len() - k,
    {
        if text_eq(fields[k].0.as_str(), name) {
            assert(member_names(fields@)[k as int] == name@);
            return true;
        }
        k += 1;
    }
    false
}

/// Whether `object` is an object whose member names are, as a set, those of
/// `expected` ([`same_key_set`]).
pub fn has_key_set(object: &Json, expected: &[&str]) -> (r: bool)
    ensures
        r == same_key_set(*object, names_view(expected@)),
{
    let fields = match object {
        Json::Object(fields) => fields,
        _ => return false,
    };
    let ghost keys = member_names(fields@);
    let ghost wanted = names_view(expected@);
    let mut i: usize = 0;
    while i < fields.len()
        invariant
            i <= fields.len(),
            keys == member_names(fields@),
            wanted == names_view(expected@),
            *object == Json::Object(*fields),
            forall|m: int| 0 <= m < i ==> wanted.contains(#[trigger] fields@[m].0@),
        decreases fields.len() - i,
    {
        if !name_listed(expected, fields[i].0.as_str()) {
            assert(!wanted.contains(fields@[i as int].0@));
            assert(!same_names(fields@, wanted));
            return false;
        }
        i += 1;
    }
    let mut k: usize = 0;
    while k < expected.len()
        invariant
            k <= expected.len(),
            keys == member_names(fields@),
            wanted == names_view(expected@),
            *object == Json::Object(*fields),
            forall|m: int| 0 <= m < fields@.len() ==> wanted.contains(#[trigger] fields@[m].0@),
            forall|m: int| 0 <= m < k ==> keys.contains(#[trigger] wanted[m]),
        decreases expected.len() - k,
    {
        if !key_present(fields, expected[k]) {
            assert(wanted[k as int] == expected@[k as int]@);
            assert(!same_names(fields@, wanted));
            return false;
        }
        assert(wanted[k as int] == expected@[k as int]@);
        k += 1;
    }
    assert(same_names(fields@, wanted));
    true
}

/// Record `k` is the one that a map keyed by `id` keeps: no later record
/// has the same `id` (collecting into a map keeps the last value of a key).
pub open spec fn live(records: Seq<Json>, k: int) -> bool {
    forall|j: int| k < j < records.len() ==> member_text(#[trigger] records[j], "id"@) != member_text(records[k], "id"@)
}

/// The record that a map keyed by `id` holds for `id`: the last one with it.
pub open spec fn lookup_last(records: Seq<Json>, id: Seq<char>) -> Option<Json>
    decreases records.len(),
{
    if records.len() == 0 {
        None
    } else if member_text(records.last(), "id"@) == Some(id) {
        Some(records.last())
    } else {
        lookup_last(records.drop_last(), id)
    }
}

/// Whether record `k` is the last one with its `id` ([`live`]).
pub fn is_live(records: &[Json], k: usize) -> (r: bool)
    requires
        k < records.len(),
    ensures
        r == live(records@, k as int),
{
    let key = records[k].get_str("id");
    let mut j: usize = k + 1;
    while j < records.len()
        invariant
            k < j <= records.len(),
            match key {
                Some(t) => member_text(records@[k as int], "id"@) == Some(t@),
                None => member_text(records@[k as int], "id"@) is None,
            },
            forall|m: int| k < m < j ==> member_text(#[trigger] records@[m], "id"@) != member_text(
                records@[k as int],
                "id"@,
            ),
        decreases records.len() - j,
    {
        let other = records[j].get_str("id");
        let same = match (other, key) {
            (Some(a), Some(b)) => text_eq(a, b),
            (None, None) => true,
            _ => false,
        };
        if same {
            return false;
        }
        j += 1;
    }
    true
}

/// The position of the record that a map keyed by `id` holds for `id`
/// ([`lookup_last`]).
pub fn find_last(records: &[Json], id: &str) -> (r: Option<usize>)
    ensures
        match lookup_last(records@, id@) {
            Some(v) => r matches Some(k) && k < records.len() && records@[k as int] == v,
            None => r is None,
        },
{
    let mut j: usize = records.len();
    assert(records@.take(j as int) =~= records@);
    while j > 0
        invariant
            j <= records.len(),
            lookup_last(records@, id@) == lookup_last(records@.take(j as int), id@),
        decreases j,
    {
        let ghost prefix = records@.take(j as int);
        assert(prefix.last() == records@[j - 1]);
        assert(prefix.drop_last() =~= records@.take(j - 1));
        match records[j - 1].get_str("id") {
            Some(t) => if text_eq(t, id) {
                return Some(j - 1);
            },
            None => {},
        }
        j -= 1;
    }
    None
}


/// A member whose name a list of fields holds can be looked up.
pub proof fn lemma_named_field_found(fields: Seq<(String, Json)>, name: Seq<char>)
    requires
        member_names(fields).contains(name),
    ensures
        crate::json::field_lookup(fields, name) is Some,
    decreases fields.len(),
{
    let k = choose|k: int| 0 <= k < member_names(fields).len() && member_names(fields)[k] == name;
    if fields[0].0@ != name {
        assert(k > 0);
        assert(member_names(fields.drop_first())[k - 1] == name);
        lemma_named_field_found(fields.drop_first(), name);
    }
}

/// An object whose member names are `expected` has a member for each of
/// them.
pub proof fn lemma_key_set_member(object: Json, expected: Seq<Seq<char>>, name: Seq<char>)
    requires
        same_key_set(object, expected),
        expected.contains(name),
    ensures
        member(object, name) is Some,
{
    match object {
        Json::Object(fields) => {
            let k = choose|k: int| 0 <= k < expected.len() && expected[k] == name;
            assert(member_names(fields@).contains(expected[k]));
            lemma_named_field_found(fields@, name);
        },
        _ => {},
    }
}


/// `projection.family_sha256` is an object that declares, for each of
/// `names` and nothing else, the digest at its position in `digests`.
pub open spec fn digests_declared_for(value: Json, names: Seq<Seq<char>>, digests: Seq<Seq<char>>) -> bool {
    match member(value, "projection"@) {
        Some(p) => match member(p, "family_sha256"@) {
            Some(fs) => {
                &&& digests.len() == names.len()
                &&& same_key_set(fs, names)
                &&& forall|k: int| 0 <= k < names.len() ==> member_text(fs, #[trigger] names[k]) == Some(digests[k])
            },
            None => false,
        },
        None => false,
    }
}

/// `digests` are answers the digest function `f` can give for the compact
/// JSON text of each of the families `names`, in order.
pub open spec fn family_digests_for<F: Fn(&[u8]) -> String>(
    f: F,
    value: Json,
    names: Seq<Seq<char>>,
    digests: Seq<Seq<char>>,
) -> bool {
    &&& digests.len() == names.len()
    &&& forall|k: int|
        0 <= k < names.len() ==> (member(value, #[trigger] names[k]) matches Some(x) && crate::s4_r18::digest_of(
            f,
            crate::json::json_bytes(x),
            digests[k],
        ))
}

/// Compares the declared family digests with `digests`, the computed ones in
/// the order of `names` ([`digests_declared_for`]).
pub fn declared_digests_match(value: &Json, names: &[&str], digests: &[String]) -> (r: bool)
    ensures
        r == digests_declared_for(*value, names_view(names@), texts(digests@)),
{
    let ghost wanted = names_view(names@);
    let declared = match value.get("projection") {
        Some(p) => match p.get("family_sha256") {
            Some(fs) => fs,
            None => return false,
        },
        None => return false,
    };
    if digests.len() != names.len() || !has_key_set(declared, names) {
        return false;
    }
    let mut k: usize = 0;
    while k < names.len()
        invariant
            k <= names.len(),
            digests.len() == names.len(),
            wanted == names_view(names@),
            member(*value, "projection"@) matches Some(p) && member(p, "family_sha256"@) == Some(*declared),
            forall|m: int| 0 <= m < k ==> member_text(*declared, #[trigger] wanted[m]) == Some(texts(digests@)[m]),
        decreases names.len() - k,
    {
        assert(wanted[k as int] == names@[k as int]@);
        let ok = match declared.get_str(names[k]) {
            Some(t) => text_eq(t, digests[k].as_str()),
            None => false,
        };
        if !ok {
            assert(member_text(*declared, wanted[k as int]) != Some(texts(digests@)[k as int]));
            return false;
        }
        k += 1;
    }
    true
}

/// Computes the digest of the compact JSON text of each of the families
/// `names` with `sha256`; `None` when a family is missing.
pub fn digests_of_families<F: Fn(&[u8]) -> String>(value: &Json, names: &[&str], sha256: &F) -> (r: Option<
    Vec<String>,
>)
    requires
        crate::s4_r18::total_digest(*sha256),
    ensures
        r matches Some(ds) ==> family_digests_for(*sha256, *value, names_view(names@), texts(ds@)),
        r is None ==> exists|k: int| 0 <= k < names.len() && member(*value, #[trigger] names_view(names@)[k]) is None,
{
    let ghost wanted = names_view(names@);
    let mut out: Vec<String> = Vec::new();
    let mut k: usize = 0;
    while k < names.len()
        invariant
            k <= names.len(),
            out@.len() == k,
            crate::s4_r18::total_digest(*sha256),
            wanted == names_view(names@),
            forall|m: int|
                0 <= m < k ==> (member(*value, #[trigger] wanted[m]) matches Some(x) && crate::s4_r18::digest_of(
                    *sha256,
                    crate::json::json_bytes(x),
                    texts(out@)[m],
                )),
        decreases names.len() - k,
    {
        assert(wanted[k as int] == names@[k as int]@);
        let family = match value.get(names[k]) {
            Some(x) => x,
            None => return None,
        };
        let bytes = crate::json::to_bytes(family);
        let slice = bytes.as_slice();
        let digest = sha256(slice);
        proof {
            assert(call_ensures(*sha256, (slice,), digest));
            assert(crate::s4_r18::digest_of(*sha256, crate::json::json_bytes(*family), digest@));
        }
        let ghost before = out@;
        out.push(digest);
        proof {
            assert(texts(out@) =~= texts(before).push(digest@));
        }
        k += 1;
    }
    Some(out)
}

/// With a digest function that gives one answer for each input, the
/// family digests of a value are unique.
pub proof fn lemma_family_digests_unique<F: Fn(&[u8]) -> String>(
    f: F,
    value: Json,
    names: Seq<Seq<char>>,
    a: Seq<Seq<char>>,
    b: Seq<Seq<char>>,
)
    requires
        crate::s4_r18::deterministic_digest(f),
        family_digests_for(f, value, names, a),
        family_digests_for(f, value, names, b),
    ensures
        a == b,
{
    assert forall|k: int| 0 <= k < a.len() implies a[k] == b[k] by {
        assert(member(value, names[k]) is Some);
        let x = member(value, names[k]).unwrap();
        let (xa, ra) = choose|y: &[u8], r: String|
            y@ == crate::json::json_bytes(x) && call_ensures(f, (y,), r) && r@ == a[k];
        let (xb, rb) = choose|y: &[u8], r: String|
            y@ == crate::json::json_bytes(x) && call_ensures(f, (y,), r) && r@ == b[k];
        assert(call_ensures(f, (xa,), ra) && call_ensures(f, (xb,), rb));
    }
    assert(a =~= b);
}

/// With a digest function that gives one answer for each input, declared
/// digests that are one set of answers are every set of answers.
pub proof fn lemma_declared_for_every_answer<F: Fn(&[u8]) -> String>(
    f: F,
    value: Json,
    names: Seq<Seq<char>>,
    ds: Seq<Seq<char>>,
)
    requires
        crate::s4_r18::deterministic_digest(f),
        family_digests_for(f, value, names, ds),
        digests_declared_for(value, names, ds),
    ensures
        forall|other: Seq<Seq<char>>|
            #[trigger] family_digests_for(f, value, names, other) ==> digests_declared_for(value, names, other),
{
    assert forall|other: Seq<Seq<char>>| #[trigger] family_digests_for(f, value, names, other) implies digests_declared_for(
        value,
        names,
        other,
    ) by {
        lemma_family_digests_unique(f, value, names, ds, other);
    }
}

} // verus!
