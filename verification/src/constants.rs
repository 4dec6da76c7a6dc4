//! The constant-evaluation projection of an R16 graph: evaluated values,
//! their evaluation relationships and derived claims, and the derivation
//! index with its dependency graph.
use vstd::prelude::*;
use crate::dependency::{adjacency_view, has_chain_of, has_cycle, validate_constant_acyclic};
use crate::json::{member, member_items, member_text, names_view, Json};
use crate::portable::{find_last, lookup_last, same_key_set, string_array_outcome, texts};
use crate::s4_r16::{
    constant_properties_rule, enforce_contract_limit, has_exact_fields, ordered_string_array,
    ordered_strings_rule, string_array_value, strictly_ordered, valid_constant_properties,
    R16ContractError,
};
use crate::s4_r13::{pointer_str, pointer_text};
use crate::text::{strictly_increasing, text_eq, text_lt};

verus! {

/// An R16 error as the contracts see it: its kind and the texts it carries.
pub enum R16Fault {
    InvalidSnapshot,
    InvalidProjection,
    UnsupportedPortableGraphSchema(Seq<char>),
    IdentityConflict(Seq<char>),
    ReferenceMismatch(Seq<char>),
    LimitExceeded { limit: Seq<char>, maximum: u64, observed: u64 },
    UnsafePayload(Seq<char>),
    Other,
}

impl R16ContractError {
    /// The error as the contracts see it.
    pub open spec fn fault(self) -> R16Fault {
        match self {
            R16ContractError::InvalidSnapshot => R16Fault::InvalidSnapshot,
            R16ContractError::InvalidProjection => R16Fault::InvalidProjection,
            R16ContractError::UnsupportedPortableGraphSchema(s) => R16Fault::UnsupportedPortableGraphSchema(s@),
            R16ContractError::IdentityConflict(id) => R16Fault::IdentityConflict(id@),
            R16ContractError::UnsafePayload(reason) => R16Fault::UnsafePayload(reason@),
            R16ContractError::ReferenceMismatch(id) => R16Fault::ReferenceMismatch(id@),
            R16ContractError::LimitExceeded { limit, maximum, observed } => R16Fault::LimitExceeded {
                limit: limit@,
                maximum,
                observed,
            },
            _ => R16Fault::Other,
        }
    }
}

/// `out` is an identifier the derivation `f` gives for `a` and `b`.
pub open spec fn gives<F: Fn(&str, &str) -> String>(f: F, a: Seq<char>, b: Seq<char>, out: Seq<char>) -> bool {
    exists|x: &str, y: &str, r: String| x@ == a && y@ == b && call_ensures(f, (x, y), r) && r@ == out
}

/// `f` may be called on any two texts and gives one identifier for each.
pub open spec fn identifier_function<F: Fn(&str, &str) -> String>(f: F) -> bool {
    &&& forall|x: &str, y: &str| call_requires(f, (x, y))
    &&& forall|x1: &str, y1: &str, r1: String, x2: &str, y2: &str, r2: String|
        #![trigger call_ensures(f, (x1, y1), r1), call_ensures(f, (x2, y2), r2)]
        x1@ == x2@ && y1@ == y2@ && call_ensures(f, (x1, y1), r1) && call_ensures(f, (x2, y2), r2)
            ==> r1@ == r2@
}

/// The rule and index versions, the limits, and the identifier derivations of
/// the constant-evaluation profile, as the caller's domain model declares them.
pub struct ConstantRules<V, R, C> {
    pub rule_version: String,
    pub index_version: String,
    pub max_evaluated_entities: u64,
    pub max_evaluation_relationships: u64,
    pub max_direct_dependencies: u64,
    pub max_dependency_references: u64,
    pub max_derivation_input_references: u64,
    pub max_dependency_levels: u64,
    /// The identifier of the evaluated value of a declared value, from the
    /// repository identity and the declared value's identifier.
    pub evaluated_value_id: V,
    /// The identifier of the evaluation relationship from its source and
    /// target.
    pub evaluation_relationship_id: R,
    /// The identifier of the derived-fact claim on a subject, from the
    /// subject kind (`entity` or `relationship`) and the subject identifier.
    pub derived_claim_id: C,
}

impl<V: Fn(&str, &str) -> String, R: Fn(&str, &str) -> String, C: Fn(&str, &str) -> String> ConstantRules<
    V,
    R,
    C,
> {
    /// The derivations are identifier functions and the level limit leaves
    /// room for one more level.
    pub open spec fn ready(&self) -> bool {
        &&& identifier_function(self.evaluated_value_id)
        &&& identifier_function(self.evaluation_relationship_id)
        &&& identifier_function(self.derived_claim_id)
        &&& self.max_dependency_levels < u64::MAX
    }
}

/// Whether `candidate` is the identifier `f` gives for `a` and `b`.
fn gives_exec<F: Fn(&str, &str) -> String>(f: &F, a: &str, b: &str, candidate: &str) -> (r: bool)
    requires
        identifier_function(*f),
    ensures
        r == gives(*f, a@, b@, candidate@),
{
    let out = f(a, b);
    proof {
        assert(call_ensures(*f, (a, b), out));
    }
    text_eq(out.as_str(), candidate)
}

/// The identifier `f` gives for `a` and `b`.
fn derive<F: Fn(&str, &str) -> String>(f: &F, a: &str, b: &str) -> (r: String)
    requires
        identifier_function(*f),
    ensures
        gives(*f, a@, b@, r@),
        forall|o: Seq<char>| gives(*f, a@, b@, o) ==> o == r@,
{
    let out = f(a, b);
    proof {
        assert(call_ensures(*f, (a, b), out));
    }
    out
}

/// The records whose `kind` is `kind`, in order.
pub open spec fn records_of_kind(records: Seq<Json>, kind: Seq<char>) -> Seq<Json>
    decreases records.len(),
{
    if records.len() == 0 {
        Seq::empty()
    } else {
        let rest = records_of_kind(records.drop_last(), kind);
        if member_text(records.last(), "kind"@) == Some(kind) {
            rest.push(records.last())
        } else {
            rest
        }
    }
}

/// The positions of the records whose `kind` is `kind`.
fn kind_positions(records: &[Json], kind: &str) -> (r: Vec<usize>)
    ensures
        r@.len() == records_of_kind(records@, kind@).len(),
        forall|m: int|
            0 <= m < r@.len() ==> #[trigger] r@[m] < records.len() && records@[r@[m] as int]
                == records_of_kind(records@, kind@)[m],
{
    let mut out: Vec<usize> = Vec::new();
    let mut k: usize = 0;
    while k < records.len()
        invariant
            k <= records.len(),
            out@.len() == records_of_kind(records@.take(k as int), kind@).len(),
            forall|m: int|
                0 <= m < out@.len() ==> #[trigger] out@[m] < records.len() && records@[out@[m] as int]
                    == records_of_kind(records@.take(k as int), kind@)[m],
        decreases records.len() - k,
    {
        proof {
            assert(records@.take(k + 1).drop_last() =~= records@.take(k as int));
            assert(records@.take(k + 1).last() == records@[k as int]);
        }
        let hit = match records[k].get_str("kind") {
            Some(t) => text_eq(t, kind),
            None => false,
        };
        let ghost before = out@;
        if hit {
            out.push(k);
        }
        proof {
            let prev = records_of_kind(records@.take(k as int), kind@);
            let next = records_of_kind(records@.take(k + 1), kind@);
            assert forall|m: int| 0 <= m < out@.len() implies #[trigger] out@[m] < records.len()
                && records@[out@[m] as int] == next[m] by {
                if m < before.len() {
                    assert(out@[m] == before[m]);
                    assert(next[m] == prev[m]);
                }
            }
        }
        k += 1;
    }
    assert(records@.take(k as int) =~= records@);
    out
}

/// The subject of a claim: its kind and identifier.
pub open spec fn claim_key(c: Json) -> Option<(Seq<char>, Seq<char>)> {
    match (member_text(c, "subject_kind"@), member_text(c, "subject_id"@)) {
        (Some(k), Some(i)) => Some((k, i)),
        _ => None,
    }
}

/// Every claim names its subject and no two name the same one.
pub open spec fn claims_indexable(cs: Seq<Json>) -> bool {
    &&& forall|k: int| 0 <= k < cs.len() ==> (#[trigger] claim_key(cs[k])) is Some
    &&& forall|j: int, k: int| 0 <= j < k < cs.len() ==> #[trigger] claim_key(cs[j]) != #[trigger] claim_key(cs[k])
}

/// Every record has an `id`.
pub open spec fn records_identified(records: Seq<Json>) -> bool {
    forall|k: int| 0 <= k < records.len() ==> (#[trigger] member_text(records[k], "id"@)) is Some
}

/// The first claim on the subject `kind`/`id`.
pub open spec fn claim_with(cs: Seq<Json>, kind: Seq<char>, id: Seq<char>) -> Option<Json>
    decreases cs.len(),
{
    if cs.len() == 0 {
        None
    } else if claim_key(cs[0]) == Some((kind, id)) {
        Some(cs[0])
    } else {
        claim_with(cs.drop_first(), kind, id)
    }
}

fn claim_key_exec(c: &Json) -> (r: Option<(&str, &str)>)
    ensures
        match r {
            Some((k, i)) => claim_key(*c) == Some((k@, i@)),
            None => claim_key(*c) is None,
        },
{
    match (c.get_str("subject_kind"), c.get_str("subject_id")) {
        (Some(k), Some(i)) => Some((k, i)),
        _ => None,
    }
}

/// The position of the first claim on the subject `kind`/`id`.
fn find_claim(cs: &[Json], kind: &str, id: &str) -> (r: Option<usize>)
    ensures
        match claim_with(cs@, kind@, id@) {
            Some(c) => r matches Some(k) && k < cs.len() && cs@[k as int] == c,
            None => r is None,
        },
{
    let mut k: usize = 0;
    assert(cs@.skip(0) =~= cs@);
    while k < cs.len()
        invariant
            k <= cs.len(),
            claim_with(cs@, kind@, id@) == claim_with(cs@.skip(k as int), kind@, id@),
        decreases cs.len() - k,
    {
        assert(cs@.skip(k as int)[0] == cs@[k as int]);
        assert(cs@.skip(k as int).drop_first() =~= cs@.skip(k + 1));
        match claim_key_exec(&cs[k]) {
            Some((a, b)) => if text_eq(a, kind) && text_eq(b, id) {
                return Some(k);
            },
            None => {},
        }
        k += 1;
    }
    None
}

/// Whether every claim names its subject and no two name the same one.
fn check_claims_indexable(cs: &[Json]) -> (r: bool)
    ensures
        r == claims_indexable(cs@),
{
    let mut k: usize = 0;
    while k < cs.len()
        invariant
            k <= cs.len(),
            forall|m: int| 0 <= m < k ==> (#[trigger] claim_key(cs@[m])) is Some,
            forall|j: int, m: int| 0 <= j < m < k ==> #[trigger] claim_key(cs@[j]) != #[trigger] claim_key(cs@[m]),
        decreases cs.len() - k,
    {
        let (a, b) = match claim_key_exec(&cs[k]) {
            Some(p) => p,
            None => return false,
        };
        let mut j: usize = 0;
        while j < k
            invariant
                j <= k < cs.len(),
                claim_key(cs@[k as int]) == Some((a@, b@)),
                forall|i: int| 0 <= i < j ==> #[trigger] claim_key(cs@[i]) != claim_key(cs@[k as int]),
            decreases k - j,
        {
            match claim_key_exec(&cs[j]) {
                Some((x, y)) => if text_eq(x, a) && text_eq(y, b) {
                    return false;
                },
                None => {},
            }
            j += 1;
        }
        k += 1;
    }
    true
}

/// Whether every record has an `id`.
fn check_records_identified(records: &[Json]) -> (r: bool)
    ensures
        r == records_identified(records@),
{
    let mut k: usize = 0;
    while k < records.len()
        invariant
            k <= records.len(),
            forall|m: int| 0 <= m < k ==> (#[trigger] member_text(records@[m], "id"@)) is Some,
        decreases records.len() - k,
    {
        if records[k].get_str("id").is_none() {
            return false;
        }
        k += 1;
    }
    true
}


/// Every text of `values` is one of `known`.
pub open spec fn all_known(values: Seq<Seq<char>>, known: Seq<Seq<char>>) -> bool {
    forall|i: int| 0 <= i < values.len() ==> known.contains(#[trigger] values[i])
}

fn check_all_known(values: &[String], known: &[String]) -> (r: bool)
    ensures
        r == all_known(texts(values@), texts(known@)),
{
    let mut k: usize = 0;
    while k < values.len()
        invariant
            k <= values.len(),
            forall|i: int| 0 <= i < k ==> texts(known@).contains(#[trigger] texts(values@)[i]),
        decreases values.len() - k,
    {
        if !crate::portable::contains_text(known, values[k].as_str()) {
            assert(texts(values@)[k as int] == values@[k as int]@);
            return false;
        }
        k += 1;
    }
    true
}

/// The members of a derived-fact claim.
pub open spec fn derived_claim_keys() -> Seq<Seq<char>> {
    seq!["evidence_ids"@, "id"@, "state"@, "subject_id"@, "subject_kind"@]
}

/// The claim on the subject `kind`/`subject` is its derived fact: exactly
/// the derived-claim members, the identifier the profile derives, the state
/// `derived_fact`, and a non-empty increasing list of known evidence.
pub open spec fn derived_claim_ok<V, R, C: Fn(&str, &str) -> String>(
    subject: Seq<char>,
    kind: Seq<char>,
    cs: Seq<Json>,
    evidence: Seq<Seq<char>>,
    rules: ConstantRules<V, R, C>,
) -> bool {
    match claim_with(cs, kind, subject) {
        None => false,
        Some(claim) => match ordered_strings_rule(claim, "evidence_ids"@, false) {
            None => false,
            Some(ev) => {
                &&& same_key_set(claim, derived_claim_keys())
                &&& member_text(claim, "id"@) matches Some(cid) && gives(
                    rules.derived_claim_id,
                    kind,
                    subject,
                    cid,
                )
                &&& member_text(claim, "state"@) == Some("derived_fact"@)
                &&& all_known(ev, evidence)
            },
        },
    }
}

fn check_derived_claim<V: Fn(&str, &str) -> String, R: Fn(&str, &str) -> String, C: Fn(&str, &str) -> String>(
    subject: &str,
    kind: &str,
    cs: &[Json],
    evidence_ids: &[String],
    rules: &ConstantRules<V, R, C>,
) -> (r: bool)
    requires
        rules.ready(),
    ensures
        r == derived_claim_ok(subject@, kind@, cs@, texts(evidence_ids@), *rules),
{
    let claim = match find_claim(cs, kind, subject) {
        Some(k) => &cs[k],
        None => return false,
    };
    let evidence = match ordered_string_array(claim, "evidence_ids", false) {
        Ok(v) => v,
        Err(_) => return false,
    };
    let keys = ["evidence_ids", "id", "state", "subject_id", "subject_kind"];
    assert(names_view(keys@) =~= derived_claim_keys());
    if !has_exact_fields(claim, &keys) {
        return false;
    }
    let id_ok = match claim.get_str("id") {
        Some(cid) => gives_exec(&rules.derived_claim_id, kind, subject, cid),
        None => false,
    };
    let state_ok = match claim.get_str("state") {
        Some(t) => text_eq(t, "derived_fact"),
        None => false,
    };
    id_ok && state_ok && check_all_known(evidence.as_slice(), evidence_ids)
}


/// The members of an evaluated-value entity.
pub open spec fn evaluated_entity_keys() -> Seq<Seq<char>> {
    seq!["declared_value_id"@, "id"@, "kind"@, "properties"@]
}

/// The members of the properties of an evaluated value.
pub open spec fn evaluated_property_keys() -> Seq<Seq<char>> {
    seq!["canonical_value"@, "rule_version"@, "rust_type"@, "type_authority"@, "value_kind"@]
}

/// What is wrong with one evaluated-value entity `e` of a graph whose
/// entities are `es` and claims `cs`: its members; the declared value it
/// evaluates and that value's subject must be entities (else
/// `ReferenceMismatch` naming the missing one); its identifier must be the
/// one derived from the repository identity and the declared value, which
/// must be a `rust.declared_value`; its properties must be valid for the
/// subject; and its derived claim must hold.
pub open spec fn evaluated_entity_fault<V: Fn(&str, &str) -> String, R, C: Fn(&str, &str) -> String>(
    e: Json,
    es: Seq<Json>,
    cs: Seq<Json>,
    repository: Seq<char>,
    evidence: Seq<Seq<char>>,
    rules: ConstantRules<V, R, C>,
) -> Option<R16Fault> {
    if !same_key_set(e, evaluated_entity_keys()) {
        Some(R16Fault::InvalidProjection)
    } else {
        match (member_text(e, "id"@), member_text(e, "declared_value_id"@)) {
            (Some(id), Some(declared_id)) => match lookup_last(es, declared_id) {
                None => Some(R16Fault::ReferenceMismatch(declared_id)),
                Some(declared) => match member_text(declared, "subject_id"@) {
                    None => Some(R16Fault::InvalidProjection),
                    Some(semantic_id) => match lookup_last(es, semantic_id) {
                        None => Some(R16Fault::ReferenceMismatch(semantic_id)),
                        Some(semantic) => match member(e, "properties"@) {
                            Some(props) => if gives(rules.evaluated_value_id, repository, declared_id, id)
                                && member_text(declared, "kind"@) == Some("rust.declared_value"@)
                                && same_key_set(props, evaluated_property_keys()) && member_text(
                                props,
                                "rule_version"@,
                            ) == Some(rules.rule_version@) && constant_properties_rule(props, semantic)
                                && derived_claim_ok(id, "entity"@, cs, evidence, rules) {
                                None
                            } else {
                                Some(R16Fault::InvalidProjection)
                            },
                            None => Some(R16Fault::InvalidProjection),
                        },
                    },
                },
            },
            _ => Some(R16Fault::InvalidProjection),
        }
    }
}

fn check_evaluated_entity<V: Fn(&str, &str) -> String, R: Fn(&str, &str) -> String, C: Fn(&str, &str) -> String>(
    e: &Json,
    es: &[Json],
    cs: &[Json],
    repository: &str,
    evidence_ids: &[String],
    rules: &ConstantRules<V, R, C>,
) -> (r: Result<(), R16ContractError>)
    requires
        rules.ready(),
    ensures
        r is Err ==> !(r->Err_0.fault() is Other),
        match evaluated_entity_fault(*e, es@, cs@, repository@, texts(evidence_ids@), *rules) {
            None => r is Ok,
            Some(f) => r is Err && r->Err_0.fault() == f,
        },
{
    let keys = ["declared_value_id", "id", "kind", "properties"];
    assert(names_view(keys@) =~= evaluated_entity_keys());
    if !has_exact_fields(e, &keys) {
        return Err(R16ContractError::InvalidProjection);
    }
    let id = match e.get_str("id") {
        Some(t) => t,
        None => return Err(R16ContractError::InvalidProjection),
    };
    let declared_id = match e.get_str("declared_value_id") {
        Some(t) => t,
        None => return Err(R16ContractError::InvalidProjection),
    };
    let declared = match find_last(es, declared_id) {
        Some(k) => &es[k],
        None => return Err(R16ContractError::ReferenceMismatch(declared_id.to_owned())),
    };
    let semantic_id = match declared.get_str("subject_id") {
        Some(t) => t,
        None => return Err(R16ContractError::InvalidProjection),
    };
    let semantic = match find_last(es, semantic_id) {
        Some(k) => &es[k],
        None => return Err(R16ContractError::ReferenceMismatch(semantic_id.to_owned())),
    };
    let properties = match e.get("properties") {
        Some(p) => p,
        None => return Err(R16ContractError::InvalidProjection),
    };
    let property_keys = ["canonical_value", "rule_version", "rust_type", "type_authority", "value_kind"];
    assert(names_view(property_keys@) =~= evaluated_property_keys());
    let declared_kind_ok = match declared.get_str("kind") {
        Some(t) => text_eq(t, "rust.declared_value"),
        None => false,
    };
    let rule_ok = match properties.get_str("rule_version") {
        Some(t) => text_eq(t, rules.rule_version.as_str()),
        None => false,
    };
    if !gives_exec(&rules.evaluated_value_id, repository, declared_id, id) || !declared_kind_ok
        || !has_exact_fields(properties, &property_keys) || !rule_ok || !valid_constant_properties(
        properties,
        semantic,
    ) || !check_derived_claim(id, "entity", cs, evidence_ids, rules) {
        return Err(R16ContractError::InvalidProjection);
    }
    Ok(())
}


/// The first of two faults.
pub open spec fn first_fault(a: Option<R16Fault>, b: Option<R16Fault>) -> Option<R16Fault> {
    match a {
        Some(f) => Some(f),
        None => b,
    }
}

/// The first fault of the evaluated-value entities `evals`, in order.
pub open spec fn evaluated_entities_fault<V: Fn(&str, &str) -> String, R, C: Fn(&str, &str) -> String>(
    evals: Seq<Json>,
    es: Seq<Json>,
    cs: Seq<Json>,
    repository: Seq<char>,
    evidence: Seq<Seq<char>>,
    rules: ConstantRules<V, R, C>,
) -> Option<R16Fault>
    decreases evals.len(),
{
    if evals.len() == 0 {
        None
    } else {
        first_fault(
            evaluated_entity_fault(evals[0], es, cs, repository, evidence, rules),
            evaluated_entities_fault(evals.drop_first(), es, cs, repository, evidence, rules),
        )
    }
}

/// The members of an evaluation relationship.
pub open spec fn evaluation_keys() -> Seq<Seq<char>> {
    seq!["evidence_ids"@, "id"@, "kind"@, "source"@, "target"@]
}

/// What is wrong with one evaluation relationship `r`, given the targets of
/// the evaluation relationships before it: its members; its target must be
/// an entity (else `ReferenceMismatch`); its evidence list must be non-empty
/// and increasing and equal that of the target's claim; its identifier must
/// be the one derived from source and target; the target must evaluate the
/// source; no earlier evaluation may share its target; and its derived claim
/// must hold.
pub open spec fn evaluation_fault<V, R: Fn(&str, &str) -> String, C: Fn(&str, &str) -> String>(
    r: Json,
    earlier: Seq<Seq<char>>,
    es: Seq<Json>,
    cs: Seq<Json>,
    evidence: Seq<Seq<char>>,
    rules: ConstantRules<V, R, C>,
) -> Option<R16Fault> {
    if !same_key_set(r, evaluation_keys()) {
        Some(R16Fault::InvalidProjection)
    } else {
        match (member_text(r, "id"@), member_text(r, "source"@), member_text(r, "target"@)) {
            (Some(id), Some(source), Some(target)) => match lookup_last(es, target) {
                None => Some(R16Fault::ReferenceMismatch(target)),
                Some(target_entity) => if ordered_strings_rule(r, "evidence_ids"@, false) matches Some(ev)
                    && claim_with(cs, "entity"@, target) matches Some(entity_claim) && gives(
                    rules.evaluation_relationship_id,
                    source,
                    target,
                    id,
                ) && member_text(target_entity, "declared_value_id"@) == Some(source) && string_array_outcome(
                    entity_claim,
                    "evidence_ids"@,
                ) == Some(ev) && !earlier.contains(target) && derived_claim_ok(
                    id,
                    "relationship"@,
                    cs,
                    evidence,
                    rules,
                ) {
                    None
                } else {
                    Some(R16Fault::InvalidProjection)
                },
            },
            _ => Some(R16Fault::InvalidProjection),
        }
    }
}

/// The first fault of the evaluation relationships `evs`, in order.
pub open spec fn evaluations_fault<V, R: Fn(&str, &str) -> String, C: Fn(&str, &str) -> String>(
    evs: Seq<Json>,
    earlier: Seq<Seq<char>>,
    es: Seq<Json>,
    cs: Seq<Json>,
    evidence: Seq<Seq<char>>,
    rules: ConstantRules<V, R, C>,
) -> Option<R16Fault>
    decreases evs.len(),
{
    if evs.len() == 0 {
        None
    } else {
        first_fault(
            evaluation_fault(evs[0], earlier, es, cs, evidence, rules),
            evaluations_fault(
                evs.drop_first(),
                earlier.push(member_text(evs[0], "target"@)->Some_0),
                es,
                cs,
                evidence,
                rules,
            ),
        )
    }
}

fn check_evaluation<V: Fn(&str, &str) -> String, R: Fn(&str, &str) -> String, C: Fn(&str, &str) -> String>(
    r: &Json,
    earlier: &Vec<String>,
    es: &[Json],
    cs: &[Json],
    evidence_ids: &[String],
    rules: &ConstantRules<V, R, C>,
) -> (res: Result<(), R16ContractError>)
    requires
        rules.ready(),
    ensures
        res is Err ==> !(res->Err_0.fault() is Other),
        match evaluation_fault(*r, texts(earlier@), es@, cs@, texts(evidence_ids@), *rules) {
            None => res is Ok,
            Some(f) => res is Err && res->Err_0.fault() == f,
        },
{
    let keys = ["evidence_ids", "id", "kind", "source", "target"];
    assert(names_view(keys@) =~= evaluation_keys());
    if !has_exact_fields(r, &keys) {
        return Err(R16ContractError::InvalidProjection);
    }
    let (id, source, target) = match (r.get_str("id"), r.get_str("source"), r.get_str("target")) {
        (Some(a), Some(b), Some(c)) => (a, b, c),
        _ => return Err(R16ContractError::InvalidProjection),
    };
    let target_entity = match find_last(es, target) {
        Some(k) => &es[k],
        None => return Err(R16ContractError::ReferenceMismatch(target.to_owned())),
    };
    let evidence = match ordered_string_array(r, "evidence_ids", false) {
        Ok(v) => v,
        Err(_) => return Err(R16ContractError::InvalidProjection),
    };
    let entity_claim = match find_claim(cs, "entity", target) {
        Some(k) => &cs[k],
        None => return Err(R16ContractError::InvalidProjection),
    };
    let declared_ok = match target_entity.get_str("declared_value_id") {
        Some(t) => text_eq(t, source),
        None => false,
    };
    if !gives_exec(&rules.evaluation_relationship_id, source, target, id) || !declared_ok {
        return Err(R16ContractError::InvalidProjection);
    }
    let claim_evidence = match string_array_value(entity_claim, "evidence_ids") {
        Ok(v) => v,
        Err(_) => return Err(R16ContractError::InvalidProjection),
    };
    if !crate::textset::texts_equal(claim_evidence.as_slice(), evidence.as_slice())
        || crate::portable::contains_text(earlier.as_slice(), target) {
        return Err(R16ContractError::InvalidProjection);
    }
    if !check_derived_claim(id, "relationship", cs, evidence_ids, rules) {
        return Err(R16ContractError::InvalidProjection);
    }
    Ok(())
}

/// The identifiers of `records`, in order.
pub open spec fn ids_of(records: Seq<Json>) -> Seq<Seq<char>> {
    records.map_values(|x: Json| member_text(x, "id"@)->Some_0)
}

/// Checks the evaluated-value entities at `positions` in order and returns
/// their identifiers.
fn check_evaluated_entities<V: Fn(&str, &str) -> String, R: Fn(&str, &str) -> String, C: Fn(&str, &str) -> String>(
    positions: &Vec<usize>,
    es: &[Json],
    cs: &[Json],
    repository: &str,
    evidence_ids: &[String],
    rules: &ConstantRules<V, R, C>,
    evals: Ghost<Seq<Json>>,
) -> (r: Result<Vec<String>, R16ContractError>)
    requires
        rules.ready(),
        positions@.len() == evals@.len(),
        forall|m: int| 0 <= m < positions@.len() ==> #[trigger] positions@[m] < es.len() && es@[positions@[m] as int]
            == evals@[m],
    ensures
        r is Err ==> !(r->Err_0.fault() is Other),
        match evaluated_entities_fault(evals@, es@, cs@, repository@, texts(evidence_ids@), *rules) {
            None => r matches Ok(ids) && texts(ids@) == ids_of(evals@),
            Some(f) => r is Err && r->Err_0.fault() == f,
        },
{
    let ghost ev = texts(evidence_ids@);
    let mut ids: Vec<String> = Vec::new();
    let mut k: usize = 0;
    assert(evals@.skip(0) =~= evals@);
    while k < positions.len()
        invariant
            k <= positions.len(),
            rules.ready(),
            ev == texts(evidence_ids@),
            positions@.len() == evals@.len(),
            forall|m: int| 0 <= m < positions@.len() ==> #[trigger] positions@[m] < es.len() && es@[positions@[m] as int]
                == evals@[m],
            evaluated_entities_fault(evals@, es@, cs@, repository@, ev, *rules) == evaluated_entities_fault(
                evals@.skip(k as int),
                es@,
                cs@,
                repository@,
                ev,
                *rules,
            ),
            texts(ids@) == ids_of(evals@.take(k as int)),
        decreases positions.len() - k,
    {
        let e = &es[positions[k]];
        assert(evals@.skip(k as int)[0] == evals@[k as int]);
        assert(evals@.skip(k as int).drop_first() =~= evals@.skip(k + 1));
        check_evaluated_entity(e, es, cs, repository, evidence_ids, rules)?;
        let id = match e.get_str("id") {
            Some(t) => t,
            None => return Err(R16ContractError::InvalidProjection),
        };
        let ghost before = ids@;
        ids.push(id.to_owned());
        proof {
            assert(texts(ids@) =~= texts(before).push(id@));
            assert(evals@.take(k + 1) =~= evals@.take(k as int).push(evals@[k as int]));
            assert(ids_of(evals@.take(k + 1)) =~= ids_of(evals@.take(k as int)).push(id@));
        }
        k += 1;
    }
    assert(evals@.take(k as int) =~= evals@);
    Ok(ids)
}

/// Checks the evaluation relationships at `positions` in order and returns
/// their identifiers.
fn check_evaluations<V: Fn(&str, &str) -> String, R: Fn(&str, &str) -> String, C: Fn(&str, &str) -> String>(
    positions: &Vec<usize>,
    rs: &[Json],
    es: &[Json],
    cs: &[Json],
    evidence_ids: &[String],
    rules: &ConstantRules<V, R, C>,
    evs: Ghost<Seq<Json>>,
) -> (r: Result<Vec<String>, R16ContractError>)
    requires
        rules.ready(),
        positions@.len() == evs@.len(),
        forall|m: int| 0 <= m < positions@.len() ==> #[trigger] positions@[m] < rs.len() && rs@[positions@[m] as int]
            == evs@[m],
    ensures
        r is Err ==> !(r->Err_0.fault() is Other),
        match evaluations_fault(evs@, Seq::empty(), es@, cs@, texts(evidence_ids@), *rules) {
            None => r matches Ok(ids) && texts(ids@) == ids_of(evs@),
            Some(f) => r is Err && r->Err_0.fault() == f,
        },
{
    let ghost ev = texts(evidence_ids@);
    let mut ids: Vec<String> = Vec::new();
    let mut targets: Vec<String> = Vec::new();
    let mut k: usize = 0;
    assert(evs@.skip(0) =~= evs@);
    assert(texts(targets@) =~= Seq::<Seq<char>>::empty());
    while k < positions.len()
        invariant
            k <= positions.len(),
            rules.ready(),
            ev == texts(evidence_ids@),
            positions@.len() == evs@.len(),
            forall|m: int| 0 <= m < positions@.len() ==> #[trigger] positions@[m] < rs.len() && rs@[positions@[m] as int]
                == evs@[m],
            evaluations_fault(evs@, Seq::empty(), es@, cs@, ev, *rules) == evaluations_fault(
                evs@.skip(k as int),
                texts(targets@),
                es@,
                cs@,
                ev,
                *rules,
            ),
            texts(ids@) == ids_of(evs@.take(k as int)),
        decreases positions.len() - k,
    {
        let r = &rs[positions[k]];
        assert(evs@.skip(k as int)[0] == evs@[k as int]);
        assert(evs@.skip(k as int).drop_first() =~= evs@.skip(k + 1));
        check_evaluation(r, &targets, es, cs, evidence_ids, rules)?;
        let (id, target) = match (r.get_str("id"), r.get_str("target")) {
            (Some(a), Some(b)) => (a, b),
            _ => return Err(R16ContractError::InvalidProjection),
        };
        let ghost before = ids@;
        let ghost before_targets = targets@;
        ids.push(id.to_owned());
        targets.push(target.to_owned());
        proof {
            assert(texts(ids@) =~= texts(before).push(id@));
            assert(texts(targets@) =~= texts(before_targets).push(target@));
            assert(evs@.take(k + 1) =~= evs@.take(k as int).push(evs@[k as int]));
            assert(ids_of(evs@.take(k + 1)) =~= ids_of(evs@.take(k as int)).push(id@));
        }
        k += 1;
    }
    assert(evs@.take(k as int) =~= evs@);
    Ok(ids)
}


/// The members of a derivation record.
pub open spec fn derivation_keys() -> Seq<Seq<char>> {
    seq![
        "dependency_entity_ids"@,
        "entity_id"@,
        "input_claim_ids"@,
        "input_evidence_ids"@,
        "relationship_id"@,
        "rule_version"@,
    ]
}

/// The first text of `values` that is not one of `known`.
pub open spec fn first_unknown(values: Seq<Seq<char>>, known: Seq<Seq<char>>) -> Option<Seq<char>>
    decreases values.len(),
{
    if values.len() == 0 {
        None
    } else if !known.contains(values[0]) {
        Some(values[0])
    } else {
        first_unknown(values.drop_first(), known)
    }
}

fn find_unknown(values: &[String], known: &[String]) -> (r: Option<usize>)
    ensures
        match first_unknown(texts(values@), texts(known@)) {
            Some(x) => r matches Some(k) && k < values.len() && values@[k as int]@ == x,
            None => r is None,
        },
{
    let mut k: usize = 0;
    assert(texts(values@).skip(0) =~= texts(values@));
    while k < values.len()
        invariant
            k <= values.len(),
            first_unknown(texts(values@), texts(known@)) == first_unknown(
                texts(values@).skip(k as int),
                texts(known@),
            ),
        decreases values.len() - k,
    {
        assert(texts(values@).skip(k as int)[0] == values@[k as int]@);
        assert(texts(values@).skip(k as int).drop_first() =~= texts(values@).skip(k + 1));
        if !crate::portable::contains_text(known, values[k].as_str()) {
            return Some(k);
        }
        k += 1;
    }
    None
}

/// The input claims of a derivation are exactly the claim on the declared
/// value and the derived claims of the dependencies.
pub open spec fn expected_claims_rule<C: Fn(&str, &str) -> String>(
    claims: Seq<Seq<char>>,
    declared_claim: Seq<char>,
    dependencies: Seq<Seq<char>>,
    f: C,
) -> bool {
    forall|x: Seq<char>|
        #[trigger] claims.contains(x) <==> (x == declared_claim || exists|k: int|
            0 <= k < dependencies.len() && #[trigger] gives(f, "entity"@, dependencies[k], x))
}

/// The number of inputs a derivation lists: input claims, input evidence
/// and dependencies.
pub open spec fn derivation_inputs(d: Json) -> nat {
    ordered_strings_rule(d, "input_claim_ids"@, false)->Some_0.len() + ordered_strings_rule(
        d,
        "input_evidence_ids"@,
        false,
    )->Some_0.len() + ordered_strings_rule(d, "dependency_entity_ids"@, true)->Some_0.len()
}

/// What is wrong with one derivation `d`, given the entity of the derivation
/// before it and the relationships earlier derivations represent: its
/// members and rule version; its entity must follow the previous one and be
/// evaluated; its relationship must be one (else `ReferenceMismatch`) that
/// targets the entity and no earlier derivation represents; its
/// dependencies must be increasing, within the direct-dependency limit
/// (else `LimitExceeded`) and evaluated (else `ReferenceMismatch` naming the
/// first that is not); its inputs must be known claims and evidence; the
/// input claims must be the declared value's claim and the dependencies'
/// derived claims; and the input evidence that of the entity's claim.
pub open spec fn derivation_fault<V, R, C: Fn(&str, &str) -> String>(
    d: Json,
    previous: Option<Seq<char>>,
    represented: Seq<Seq<char>>,
    es: Seq<Json>,
    rs: Seq<Json>,
    cs: Seq<Json>,
    evaluated: Seq<Seq<char>>,
    claim_ids: Seq<Seq<char>>,
    evidence: Seq<Seq<char>>,
    rules: ConstantRules<V, R, C>,
) -> Option<R16Fault> {
    if !same_key_set(d, derivation_keys()) || member_text(d, "rule_version"@) != Some(rules.rule_version@) {
        Some(R16Fault::InvalidProjection)
    } else {
        match member_text(d, "entity_id"@) {
            None => Some(R16Fault::InvalidProjection),
            Some(entity_id) => if (previous matches Some(p) && !text_lt(p, entity_id)) || !evaluated.contains(
                entity_id,
            ) {
                Some(R16Fault::InvalidProjection)
            } else {
                match member_text(d, "relationship_id"@) {
                    None => Some(R16Fault::InvalidProjection),
                    Some(relationship_id) => match lookup_last(rs, relationship_id) {
                        None => Some(R16Fault::ReferenceMismatch(relationship_id)),
                        Some(relationship) => if member_text(relationship, "target"@) != Some(entity_id)
                            || represented.contains(relationship_id) {
                            Some(R16Fault::InvalidProjection)
                        } else {
                            match ordered_strings_rule(d, "dependency_entity_ids"@, true) {
                                None => Some(R16Fault::InvalidProjection),
                                Some(deps) => if deps.len() > rules.max_direct_dependencies {
                                    Some(
                                        R16Fault::LimitExceeded {
                                            limit: "direct_dependencies_per_subject"@,
                                            maximum: rules.max_direct_dependencies,
                                            observed: deps.len() as u64,
                                        },
                                    )
                                } else if first_unknown(deps, evaluated) is Some {
                                    Some(R16Fault::ReferenceMismatch(first_unknown(deps, evaluated)->Some_0))
                                } else {
                                    match (
                                        ordered_strings_rule(d, "input_claim_ids"@, false),
                                        ordered_strings_rule(d, "input_evidence_ids"@, false),
                                    ) {
                                        (Some(input_claims), Some(input_evidence)) => if !all_known(
                                            input_claims,
                                            claim_ids,
                                        ) || !all_known(input_evidence, evidence) {
                                            Some(R16Fault::InvalidProjection)
                                        } else {
                                            match lookup_last(es, entity_id) {
                                                None => Some(R16Fault::ReferenceMismatch(entity_id)),
                                                Some(entity) => if member_text(entity, "declared_value_id"@) matches Some(
                                                    declared_id,
                                                ) && claim_with(cs, "entity"@, declared_id) matches Some(
                                                    declared_claim,
                                                ) && member_text(declared_claim, "id"@) matches Some(
                                                    declared_claim_id,
                                                ) && claim_with(cs, "entity"@, entity_id) matches Some(
                                                    entity_claim,
                                                ) && expected_claims_rule(
                                                    input_claims,
                                                    declared_claim_id,
                                                    deps,
                                                    rules.derived_claim_id,
                                                ) && string_array_outcome(entity_claim, "evidence_ids"@)
                                                    == Some(input_evidence) {
                                                    None
                                                } else {
                                                    Some(R16Fault::InvalidProjection)
                                                },
                                            }
                                        },
                                        _ => Some(R16Fault::InvalidProjection),
                                    }
                                },
                            }
                        },
                    },
                }
            },
        }
    }
}


/// The derived claims of `dependencies` and `declared_claim`, as an
/// increasing list.
fn expected_input_claims<V: Fn(&str, &str) -> String, R: Fn(&str, &str) -> String, C: Fn(&str, &str) -> String>(
    declared_claim: &str,
    dependencies: &[String],
    rules: &ConstantRules<V, R, C>,
) -> (r: Vec<String>)
    requires
        rules.ready(),
    ensures
        crate::textset::sorted_texts(texts(r@)),
        forall|x: Seq<char>|
            #[trigger] texts(r@).contains(x) <==> (x == declared_claim@ || exists|k: int|
                0 <= k < dependencies.len() && #[trigger] gives(
                    rules.derived_claim_id,
                    "entity"@,
                    texts(dependencies@)[k],
                    x,
                )),
{
    let mut expected: Vec<String> = Vec::new();
    crate::textset::insert_text(&mut expected, declared_claim);
    let mut j: usize = 0;
    while j < dependencies.len()
        invariant
            j <= dependencies.len(),
            rules.ready(),
            crate::textset::sorted_texts(texts(expected@)),
            forall|x: Seq<char>|
                #[trigger] texts(expected@).contains(x) <==> (x == declared_claim@ || exists|k: int|
                    0 <= k < j && #[trigger] gives(rules.derived_claim_id, "entity"@, texts(dependencies@)[k], x)),
        decreases dependencies.len() - j,
    {
        let claim = derive(&rules.derived_claim_id, "entity", dependencies[j].as_str());
        let ghost before = texts(expected@);
        crate::textset::insert_text(&mut expected, claim.as_str());
        proof {
            assert(texts(dependencies@)[j as int] == dependencies@[j as int]@);
            assert forall|x: Seq<char>| #[trigger] texts(expected@).contains(x) <==> (x == declared_claim@
                || exists|k: int|
                0 <= k < j + 1 && #[trigger] gives(rules.derived_claim_id, "entity"@, texts(dependencies@)[k], x)) by {
                if texts(expected@).contains(x) {
                    if x == claim@ {
                        assert(gives(rules.derived_claim_id, "entity"@, texts(dependencies@)[j as int], x));
                    } else {
                        assert(before.contains(x));
                    }
                }
                if exists|k: int|
                    0 <= k < j + 1 && #[trigger] gives(rules.derived_claim_id, "entity"@, texts(dependencies@)[k], x) {
                    let k = choose|k: int|
                        0 <= k < j + 1 && #[trigger] gives(rules.derived_claim_id, "entity"@, texts(dependencies@)[k], x);
                    if k == j {
                        assert(x == claim@);
                    } else {
                        assert(before.contains(x));
                    }
                }
            }
        }
        j += 1;
    }
    expected
}

/// Checks one derivation ([`derivation_fault`]); returns its dependencies
/// and the numbers of its input claims and input evidence.
fn check_derivation<V: Fn(&str, &str) -> String, R: Fn(&str, &str) -> String, C: Fn(&str, &str) -> String>(
    d: &Json,
    previous: Option<&str>,
    represented: &Vec<String>,
    es: &[Json],
    rs: &[Json],
    cs: &[Json],
    evaluated: &[String],
    claim_ids: &[String],
    evidence_ids: &[String],
    rules: &ConstantRules<V, R, C>,
) -> (r: Result<(Vec<String>, usize, usize), R16ContractError>)
    requires
        rules.ready(),
    ensures
        r is Err ==> !(r->Err_0.fault() is Other),
        match derivation_fault(
            *d,
            match previous {
                Some(p) => Some(p@),
                None => None,
            },
            texts(represented@),
            es@,
            rs@,
            cs@,
            texts(evaluated@),
            texts(claim_ids@),
            texts(evidence_ids@),
            *rules,
        ) {
            None => r matches Ok((deps, nc, ne)) && texts(deps@) == ordered_strings_rule(
                *d,
                "dependency_entity_ids"@,
                true,
            )->Some_0 && nc == ordered_strings_rule(*d, "input_claim_ids"@, false)->Some_0.len()
                && ne == ordered_strings_rule(*d, "input_evidence_ids"@, false)->Some_0.len(),
            Some(f) => r is Err && r->Err_0.fault() == f,
        },
{
    let keys = [
        "dependency_entity_ids",
        "entity_id",
        "input_claim_ids",
        "input_evidence_ids",
        "relationship_id",
        "rule_version",
    ];
    assert(names_view(keys@) =~= derivation_keys());
    let rule_ok = match d.get_str("rule_version") {
        Some(t) => text_eq(t, rules.rule_version.as_str()),
        None => false,
    };
    if !has_exact_fields(d, &keys) || !rule_ok {
        return Err(R16ContractError::InvalidProjection);
    }
    let entity_id = match d.get_str("entity_id") {
        Some(t) => t,
        None => return Err(R16ContractError::InvalidProjection),
    };
    let out_of_order = match previous {
        Some(p) => !crate::text::text_less(p, entity_id),
        None => false,
    };
    if out_of_order || !crate::portable::contains_text(evaluated, entity_id) {
        return Err(R16ContractError::InvalidProjection);
    }
    let relationship_id = match d.get_str("relationship_id") {
        Some(t) => t,
        None => return Err(R16ContractError::InvalidProjection),
    };
    let relationship = match find_last(rs, relationship_id) {
        Some(k) => &rs[k],
        None => return Err(R16ContractError::ReferenceMismatch(relationship_id.to_owned())),
    };
    let target_ok = match relationship.get_str("target") {
        Some(t) => text_eq(t, entity_id),
        None => false,
    };
    if !target_ok || crate::portable::contains_text(represented.as_slice(), relationship_id) {
        return Err(R16ContractError::InvalidProjection);
    }
    let dependencies = match ordered_string_array(d, "dependency_entity_ids", true) {
        Ok(v) => v,
        Err(_) => return Err(R16ContractError::InvalidProjection),
    };
    enforce_contract_limit(
        "direct_dependencies_per_subject",
        dependencies.len(),
        rules.max_direct_dependencies,
    )?;
    match find_unknown(dependencies.as_slice(), evaluated) {
        Some(k) => return Err(R16ContractError::ReferenceMismatch(dependencies[k].as_str().to_owned())),
        None => {},
    }
    let input_claims = match ordered_string_array(d, "input_claim_ids", false) {
        Ok(v) => v,
        Err(_) => return Err(R16ContractError::InvalidProjection),
    };
    let input_evidence = match ordered_string_array(d, "input_evidence_ids", false) {
        Ok(v) => v,
        Err(_) => return Err(R16ContractError::InvalidProjection),
    };
    if !check_all_known(input_claims.as_slice(), claim_ids) || !check_all_known(
        input_evidence.as_slice(),
        evidence_ids,
    ) {
        return Err(R16ContractError::InvalidProjection);
    }
    let entity = match find_last(es, entity_id) {
        Some(k) => &es[k],
        None => return Err(R16ContractError::ReferenceMismatch(entity_id.to_owned())),
    };
    let declared_id = match entity.get_str("declared_value_id") {
        Some(t) => t,
        None => return Err(R16ContractError::InvalidProjection),
    };
    let declared_claim = match find_claim(cs, "entity", declared_id) {
        Some(k) => &cs[k],
        None => return Err(R16ContractError::InvalidProjection),
    };
    let declared_claim_id = match declared_claim.get_str("id") {
        Some(t) => t,
        None => return Err(R16ContractError::InvalidProjection),
    };
    let expected = expected_input_claims(declared_claim_id, dependencies.as_slice(), rules);
    let entity_claim = match find_claim(cs, "entity", entity_id) {
        Some(k) => &cs[k],
        None => return Err(R16ContractError::InvalidProjection),
    };
    let claims_equal = crate::textset::texts_equal(input_claims.as_slice(), expected.as_slice());
    proof {
        let ic = texts(input_claims@);
        let ex = texts(expected@);
        crate::textset::lemma_increasing_is_sorted(ic);
        if expected_claims_rule(ic, declared_claim_id@, texts(dependencies@), rules.derived_claim_id) {
            assert forall|x: Seq<char>| ic.contains(x) <==> ex.contains(x) by {
                if ic.contains(x) {
                    assert(ex.contains(x));
                }
                if ex.contains(x) {
                    assert(ic.contains(x));
                }
            }
            crate::textset::lemma_sorted_same_members_equal(ic, ex);
        }
        if claims_equal {
            assert forall|x: Seq<char>| #[trigger] ic.contains(x) <==> (x == declared_claim_id@ || exists|k: int|
                0 <= k < texts(dependencies@).len() && #[trigger] gives(
                    rules.derived_claim_id,
                    "entity"@,
                    texts(dependencies@)[k],
                    x,
                )) by {
                assert(ic.contains(x) == ex.contains(x));
            }
        }
    }
    if !claims_equal {
        return Err(R16ContractError::InvalidProjection);
    }
    let claim_evidence = match string_array_value(entity_claim, "evidence_ids") {
        Ok(v) => v,
        Err(_) => return Err(R16ContractError::InvalidProjection),
    };
    if !crate::textset::texts_equal(input_evidence.as_slice(), claim_evidence.as_slice()) {
        return Err(R16ContractError::InvalidProjection);
    }
    let nc = input_claims.len();
    let ne = input_evidence.len();
    Ok((dependencies, nc, ne))
}


/// The dependency graph of the derivations `ds`, in order, or the first
/// derivation fault.
pub open spec fn derivations_outcome<V, R, C: Fn(&str, &str) -> String>(
    ds: Seq<Json>,
    previous: Option<Seq<char>>,
    represented: Seq<Seq<char>>,
    es: Seq<Json>,
    rs: Seq<Json>,
    cs: Seq<Json>,
    evaluated: Seq<Seq<char>>,
    claim_ids: Seq<Seq<char>>,
    evidence: Seq<Seq<char>>,
    rules: ConstantRules<V, R, C>,
) -> Result<Seq<(Seq<char>, Seq<Seq<char>>)>, R16Fault>
    decreases ds.len(),
{
    if ds.len() == 0 {
        Ok(Seq::empty())
    } else {
        match derivation_fault(ds[0], previous, represented, es, rs, cs, evaluated, claim_ids, evidence, rules) {
            Some(f) => Err(f),
            None => {
                let entity_id = member_text(ds[0], "entity_id"@)->Some_0;
                let relationship_id = member_text(ds[0], "relationship_id"@)->Some_0;
                let deps = ordered_strings_rule(ds[0], "dependency_entity_ids"@, true)->Some_0;
                prefixed(
                    seq![(entity_id, deps)],
                    derivations_outcome(
                        ds.drop_first(),
                        Some(entity_id),
                        represented.push(relationship_id),
                        es,
                        rs,
                        cs,
                        evaluated,
                        claim_ids,
                        evidence,
                        rules,
                    ),
                )
            },
        }
    }
}

/// `outcome` with `prefix` before its entries.
pub open spec fn prefixed(
    prefix: Seq<(Seq<char>, Seq<Seq<char>>)>,
    outcome: Result<Seq<(Seq<char>, Seq<Seq<char>>)>, R16Fault>,
) -> Result<Seq<(Seq<char>, Seq<Seq<char>>)>, R16Fault> {
    match outcome {
        Ok(rest) => Ok(prefix + rest),
        Err(f) => Err(f),
    }
}

/// `n`, or the largest `usize` when it is larger (a saturating count).
pub open spec fn saturated(n: int) -> int {
    if n > usize::MAX {
        usize::MAX as int
    } else {
        n
    }
}

/// The number of dependency references of a dependency graph.
pub open spec fn dependency_total(adj: Seq<(Seq<char>, Seq<Seq<char>>)>) -> int
    decreases adj.len(),
{
    if adj.len() == 0 {
        0
    } else {
        dependency_total(adj.drop_last()) + adj.last().1.len()
    }
}

/// The number of inputs the derivations `ds` list.
pub open spec fn inputs_total(ds: Seq<Json>) -> int
    decreases ds.len(),
{
    if ds.len() == 0 {
        0
    } else {
        inputs_total(ds.drop_last()) + derivation_inputs(ds.last())
    }
}

/// Checks the derivations in order ([`derivations_outcome`]); returns the
/// dependency graph and the saturating counts of dependency references and
/// of derivation inputs.
fn check_derivations<V: Fn(&str, &str) -> String, R: Fn(&str, &str) -> String, C: Fn(&str, &str) -> String>(
    ds: &Vec<Json>,
    es: &[Json],
    rs: &[Json],
    cs: &[Json],
    evaluated: &[String],
    claim_ids: &[String],
    evidence_ids: &[String],
    rules: &ConstantRules<V, R, C>,
) -> (r: Result<(Vec<(String, Vec<String>)>, usize, usize), R16ContractError>)
    requires
        rules.ready(),
    ensures
        r is Err ==> !(r->Err_0.fault() is Other),
        match derivations_outcome(
            ds@,
            None,
            Seq::empty(),
            es@,
            rs@,
            cs@,
            texts(evaluated@),
            texts(claim_ids@),
            texts(evidence_ids@),
            *rules,
        ) {
            Ok(adj) => r matches Ok((a, references, inputs)) && adjacency_view(a@) == adj && references
                == saturated(dependency_total(adj)) && inputs == saturated(inputs_total(ds@)),
            Err(f) => r is Err && r->Err_0.fault() == f,
        },
{
    let ghost ev = texts(evaluated@);
    let ghost ci = texts(claim_ids@);
    let ghost ei = texts(evidence_ids@);
    let mut adjacency: Vec<(String, Vec<String>)> = Vec::new();
    let mut represented: Vec<String> = Vec::new();
    let mut previous: Option<&str> = None;
    let mut references: usize = 0;
    let mut inputs: usize = 0;
    let mut k: usize = 0;
    assert(ds@.skip(0) =~= ds@);
    assert(adjacency_view(adjacency@) =~= Seq::<(Seq<char>, Seq<Seq<char>>)>::empty());
    assert(texts(represented@) =~= Seq::<Seq<char>>::empty());
    while k < ds.len()
        invariant
            k <= ds.len(),
            rules.ready(),
            ev == texts(evaluated@),
            ci == texts(claim_ids@),
            ei == texts(evidence_ids@),
            derivations_outcome(ds@, None, Seq::empty(), es@, rs@, cs@, ev, ci, ei, *rules) == prefixed(
                adjacency_view(adjacency@),
                derivations_outcome(
                    ds@.skip(k as int),
                    match previous {
                        Some(p) => Some(p@),
                        None => None,
                    },
                    texts(represented@),
                    es@,
                    rs@,
                    cs@,
                    ev,
                    ci,
                    ei,
                    *rules,
                ),
            ),
            references == saturated(dependency_total(adjacency_view(adjacency@))),
            inputs == saturated(inputs_total(ds@.take(k as int))),
        decreases ds.len() - k,
    {
        let d = &ds[k];
        assert(ds@.skip(k as int)[0] == ds@[k as int]);
        assert(ds@.skip(k as int).drop_first() =~= ds@.skip(k + 1));
        let (dependencies, nc, ne) = check_derivation(
            d,
            previous,
            &represented,
            es,
            rs,
            cs,
            evaluated,
            claim_ids,
            evidence_ids,
            rules,
        )?;
        let (entity_id, relationship_id) = match (d.get_str("entity_id"), d.get_str("relationship_id")) {
            (Some(a), Some(b)) => (a, b),
            _ => return Err(R16ContractError::InvalidProjection),
        };
        let nd = dependencies.len();
        let ghost before_adj = adjacency_view(adjacency@);
        let ghost before_rep = texts(represented@);
        references = references.saturating_add(nd);
        inputs = inputs.saturating_add(nc).saturating_add(ne).saturating_add(nd);
        let entry = (entity_id.to_owned(), dependencies);
        adjacency.push(entry);
        represented.push(relationship_id.to_owned());
        previous = Some(entity_id);
        proof {
            assert(adjacency_view(adjacency@) =~= before_adj.push((entity_id@, texts(entry.1@))));
            assert(texts(represented@) =~= before_rep.push(relationship_id@));
            assert(adjacency_view(adjacency@).drop_last() =~= before_adj);
            assert(ds@.take(k + 1).drop_last() =~= ds@.take(k as int));
            assert(ds@.take(k + 1).last() == ds@[k as int]);
            assert(before_adj.push((entity_id@, texts(entry.1@))) =~= before_adj + seq![(entity_id@, texts(entry.1@))]);
            let rest = derivations_outcome(
                ds@.skip(k + 1),
                Some(entity_id@),
                before_rep.push(relationship_id@),
                es@,
                rs@,
                cs@,
                ev,
                ci,
                ei,
                *rules,
            );
            match rest {
                Ok(tail) => {
                    assert(before_adj + (seq![(entity_id@, texts(entry.1@))] + tail) =~= before_adj.push(
                        (entity_id@, texts(entry.1@)),
                    ) + tail);
                },
                Err(_) => {},
            }
        }
        k += 1;
    }
    assert(ds@.take(k as int) =~= ds@);
    assert(adjacency_view(adjacency@) + Seq::<(Seq<char>, Seq<Seq<char>>)>::empty() =~= adjacency_view(adjacency@));
    Ok((adjacency, references, inputs))
}


/// The members of the constant-evaluation index.
pub open spec fn index_keys() -> Seq<Seq<char>> {
    seq![
        "derivations"@,
        "evaluated_entity_ids"@,
        "evaluation_relationship_ids"@,
        "rule_version"@,
        "schema_version"@,
    ]
}

/// The constant-evaluation index is an object with exactly the index
/// members, the profile's schema and rule versions, the evaluated entities
/// and evaluation relationships in order, and one derivation per evaluated
/// entity.
pub open spec fn index_ok<V, R, C>(
    index: Option<Json>,
    evaluated: Seq<Seq<char>>,
    evaluations: Seq<Seq<char>>,
    rules: ConstantRules<V, R, C>,
) -> bool {
    match index {
        Some(ix) => {
            &&& same_key_set(ix, index_keys())
            &&& member_text(ix, "schema_version"@) == Some(rules.index_version@)
            &&& member_text(ix, "rule_version"@) == Some(rules.rule_version@)
            &&& ordered_strings_rule(ix, "evaluated_entity_ids"@, true) == Some(evaluated)
            &&& ordered_strings_rule(ix, "evaluation_relationship_ids"@, true) == Some(evaluations)
            &&& member_items(ix, "derivations"@) matches Some(ds) && ds.len() == evaluated.len()
        },
        None => false,
    }
}

/// The derivations of the constant-evaluation index.
pub open spec fn index_derivations(object: Json) -> Seq<Json> {
    member_items(member(object, "constant_evaluation_index"@)->Some_0, "derivations"@)->Some_0
}

/// The evaluated-value entities of a graph.
pub open spec fn evaluated_records(object: Json) -> Seq<Json> {
    records_of_kind(member_items(object, "entities"@)->Some_0, "rust.evaluated_value"@)
}

/// The evaluation relationships of a graph.
pub open spec fn evaluation_records(object: Json) -> Seq<Json> {
    records_of_kind(member_items(object, "relationships"@)->Some_0, "EVALUATES_TO"@)
}

/// The dependency graph of the constant-evaluation projection of `object`,
/// or the first fault met before its acyclicity is checked, in the order the
/// checks run: the repository identity and record families; the counts of
/// evaluated entities and evaluation relationships (limits, then equal);
/// each evaluated entity; their order; each evaluation relationship; their
/// order; the index; each derivation; and the totals of dependency
/// references and derivation inputs.
pub open spec fn constant_projection_outcome<V: Fn(&str, &str) -> String, R: Fn(&str, &str) -> String, C: Fn(&str, &str) -> String>(
    object: Json,
    claim_ids: Seq<Seq<char>>,
    evidence: Seq<Seq<char>>,
    rules: ConstantRules<V, R, C>,
) -> Result<Seq<(Seq<char>, Seq<Seq<char>>)>, R16Fault> {
    match (
        pointer_text(object, "repository"@, "identity"@),
        member_items(object, "entities"@),
        member_items(object, "relationships"@),
        member_items(object, "claims"@),
    ) {
        (Some(repository), Some(es), Some(rs), Some(cs)) => if !records_identified(es) || !records_identified(rs)
            || !claims_indexable(cs) {
            Err(R16Fault::InvalidProjection)
        } else {
            let evals = records_of_kind(es, "rust.evaluated_value"@);
            let evs = records_of_kind(rs, "EVALUATES_TO"@);
            if evals.len() > rules.max_evaluated_entities {
                Err(
                    R16Fault::LimitExceeded {
                        limit: "evaluated_entities_total"@,
                        maximum: rules.max_evaluated_entities,
                        observed: evals.len() as u64,
                    },
                )
            } else if evs.len() > rules.max_evaluation_relationships {
                Err(
                    R16Fault::LimitExceeded {
                        limit: "evaluation_relationships_total"@,
                        maximum: rules.max_evaluation_relationships,
                        observed: evs.len() as u64,
                    },
                )
            } else if evals.len() != evs.len() {
                Err(R16Fault::InvalidProjection)
            } else {
                match evaluated_entities_fault(evals, es, cs, repository, evidence, rules) {
                    Some(f) => Err(f),
                    None => if !strictly_increasing(ids_of(evals)) {
                        Err(R16Fault::InvalidProjection)
                    } else {
                        match evaluations_fault(evs, Seq::empty(), es, cs, evidence, rules) {
                            Some(f) => Err(f),
                            None => if !strictly_increasing(ids_of(evs)) || !index_ok(
                                member(object, "constant_evaluation_index"@),
                                ids_of(evals),
                                ids_of(evs),
                                rules,
                            ) {
                                Err(R16Fault::InvalidProjection)
                            } else {
                                let ds = index_derivations(object);
                                match derivations_outcome(
                                    ds,
                                    None,
                                    Seq::empty(),
                                    es,
                                    rs,
                                    cs,
                                    ids_of(evals),
                                    claim_ids,
                                    evidence,
                                    rules,
                                ) {
                                    Err(f) => Err(f),
                                    Ok(adj) => if saturated(dependency_total(adj))
                                        > rules.max_dependency_references {
                                        Err(
                                            R16Fault::LimitExceeded {
                                                limit: "evaluation_dependency_references"@,
                                                maximum: rules.max_dependency_references,
                                                observed: saturated(dependency_total(adj)) as u64,
                                            },
                                        )
                                    } else if saturated(inputs_total(ds)) > rules.max_derivation_input_references {
                                        Err(
                                            R16Fault::LimitExceeded {
                                                limit: "derivation_input_references"@,
                                                maximum: rules.max_derivation_input_references,
                                                observed: saturated(inputs_total(ds)) as u64,
                                            },
                                        )
                                    } else {
                                        Ok(adj)
                                    },
                                }
                            },
                        }
                    },
                }
            }
        },
        _ => Err(R16Fault::InvalidProjection),
    }
}


/// The evaluated entities and evaluation relationships are among the graph's
/// entities and relationships.
pub open spec fn projection_covered(
    object: Json,
    entity_ids: Seq<Seq<char>>,
    relationship_ids: Seq<Seq<char>>,
) -> bool {
    all_known(ids_of(evaluated_records(object)), entity_ids) && all_known(
        ids_of(evaluation_records(object)),
        relationship_ids,
    )
}

/// What validating the constant-evaluation projection of `object` may
/// return: every fault before the dependency graph is checked exactly
/// ([`constant_projection_outcome`]); then `dependency_levels` only for a
/// chain of more levels than the limit, `InvalidProjection` only for a cycle
/// or evaluated records outside the families, success only for an acyclic
/// graph whose records lie within the families, and success whenever the
/// graph has neither a cycle nor a chain beyond the limit and the records
/// lie within the families.
pub open spec fn constant_projection_result<V: Fn(&str, &str) -> String, R: Fn(&str, &str) -> String, C: Fn(&str, &str) -> String>(
    object: Json,
    entity_ids: Seq<Seq<char>>,
    relationship_ids: Seq<Seq<char>>,
    claim_ids: Seq<Seq<char>>,
    evidence: Seq<Seq<char>>,
    rules: ConstantRules<V, R, C>,
    r: Result<(), R16ContractError>,
) -> bool {
    match constant_projection_outcome(object, claim_ids, evidence, rules) {
        Err(f) => r is Err && r->Err_0.fault() == f,
        Ok(adj) => {
            &&& r is Ok ==> projection_covered(object, entity_ids, relationship_ids) && !has_cycle(adj)
            &&& r matches Err(R16ContractError::LimitExceeded { limit, maximum, observed }) ==> (limit@
                == "dependency_levels"@ && maximum == rules.max_dependency_levels && observed
                == rules.max_dependency_levels + 1 && has_chain_of(
                adj,
                (rules.max_dependency_levels + 1) as nat,
            ))
            &&& r matches Err(R16ContractError::InvalidProjection) ==> (has_cycle(adj) || !projection_covered(
                object,
                entity_ids,
                relationship_ids,
            ))
            &&& r is Err ==> (r matches Err(R16ContractError::LimitExceeded { .. }) || r matches Err(
                R16ContractError::InvalidProjection,
            ))
            &&& (!has_cycle(adj) && !has_chain_of(adj, (rules.max_dependency_levels + 1) as nat)
                && projection_covered(object, entity_ids, relationship_ids)) ==> r is Ok
        },
    }
}

/// Validates the constant-evaluation projection of a graph or portable graph
/// `object` whose family identifiers are `entity_ids`, `relationship_ids`,
/// `claim_ids` and `evidence_ids`. Every fault before the dependency graph
/// is checked is stated exactly ([`constant_projection_outcome`]); then the
/// dependency graph is walked ([`validate_constant_acyclic`]) and the
/// evaluated records must be among the family identifiers
/// (`InvalidProjection`).
pub fn validate_constant_projection<V: Fn(&str, &str) -> String, R: Fn(&str, &str) -> String, C: Fn(&str, &str) -> String>(
    object: &Json,
    entity_ids: &[String],
    relationship_ids: &[String],
    claim_ids: &[String],
    evidence_ids: &[String],
    rules: &ConstantRules<V, R, C>,
) -> (r: Result<(), R16ContractError>)
    requires
        rules.ready(),
    ensures
        r is Err ==> !(r->Err_0.fault() is Other),
        constant_projection_result(
            *object,
            texts(entity_ids@),
            texts(relationship_ids@),
            texts(claim_ids@),
            texts(evidence_ids@),
            *rules,
            r,
        ),
{
    let repository = match pointer_str(object, "repository", "identity") {
        Some(t) => t,
        None => return Err(R16ContractError::InvalidProjection),
    };
    let entities = match object.get_array("entities") {
        Some(v) => v,
        None => return Err(R16ContractError::InvalidProjection),
    };
    let relationships = match object.get_array("relationships") {
        Some(v) => v,
        None => return Err(R16ContractError::InvalidProjection),
    };
    let claims = match object.get_array("claims") {
        Some(v) => v,
        None => return Err(R16ContractError::InvalidProjection),
    };
    if !check_records_identified(entities.as_slice()) || !check_records_identified(relationships.as_slice())
        || !check_claims_indexable(claims.as_slice()) {
        return Err(R16ContractError::InvalidProjection);
    }
    let evaluated = kind_positions(entities.as_slice(), "rust.evaluated_value");
    let evaluations = kind_positions(relationships.as_slice(), "EVALUATES_TO");
    enforce_contract_limit("evaluated_entities_total", evaluated.len(), rules.max_evaluated_entities)?;
    enforce_contract_limit(
        "evaluation_relationships_total",
        evaluations.len(),
        rules.max_evaluation_relationships,
    )?;
    if evaluated.len() != evaluations.len() {
        return Err(R16ContractError::InvalidProjection);
    }
    let entity_expected = check_evaluated_entities(
        &evaluated,
        entities.as_slice(),
        claims.as_slice(),
        repository,
        evidence_ids,
        rules,
        Ghost(records_of_kind(entities@, "rust.evaluated_value"@)),
    )?;
    if !strictly_ordered(entity_expected.as_slice()) {
        return Err(R16ContractError::InvalidProjection);
    }
    let relationship_expected = check_evaluations(
        &evaluations,
        relationships.as_slice(),
        entities.as_slice(),
        claims.as_slice(),
        evidence_ids,
        rules,
        Ghost(records_of_kind(relationships@, "EVALUATES_TO"@)),
    )?;
    if !strictly_ordered(relationship_expected.as_slice()) {
        return Err(R16ContractError::InvalidProjection);
    }
    let index = match object.get("constant_evaluation_index") {
        Some(ix) => ix,
        None => return Err(R16ContractError::InvalidProjection),
    };
    let keys = [
        "derivations",
        "evaluated_entity_ids",
        "evaluation_relationship_ids",
        "rule_version",
        "schema_version",
    ];
    assert(names_view(keys@) =~= index_keys());
    let schema_ok = match index.get_str("schema_version") {
        Some(t) => text_eq(t, rules.index_version.as_str()),
        None => false,
    };
    let rule_ok = match index.get_str("rule_version") {
        Some(t) => text_eq(t, rules.rule_version.as_str()),
        None => false,
    };
    if !has_exact_fields(index, &keys) || !schema_ok || !rule_ok {
        return Err(R16ContractError::InvalidProjection);
    }
    let indexed_entities = match crate::s4_r16::ordered_string_array_map(index, "evaluated_entity_ids", true) {
        Ok(v) => v,
        Err(_) => return Err(R16ContractError::InvalidProjection),
    };
    let indexed_relationships = match crate::s4_r16::ordered_string_array_map(
        index,
        "evaluation_relationship_ids",
        true,
    ) {
        Ok(v) => v,
        Err(_) => return Err(R16ContractError::InvalidProjection),
    };
    if !crate::textset::texts_equal(indexed_entities.as_slice(), entity_expected.as_slice())
        || !crate::textset::texts_equal(indexed_relationships.as_slice(), relationship_expected.as_slice()) {
        return Err(R16ContractError::InvalidProjection);
    }
    let derivations = match index.get_array("derivations") {
        Some(v) => v,
        None => return Err(R16ContractError::InvalidProjection),
    };
    if derivations.len() != entity_expected.len() {
        return Err(R16ContractError::InvalidProjection);
    }
    let (adjacency, references, inputs) = check_derivations(
        derivations,
        entities.as_slice(),
        relationships.as_slice(),
        claims.as_slice(),
        entity_expected.as_slice(),
        claim_ids,
        evidence_ids,
        rules,
    )?;
    enforce_contract_limit(
        "evaluation_dependency_references",
        references,
        rules.max_dependency_references,
    )?;
    enforce_contract_limit("derivation_input_references", inputs, rules.max_derivation_input_references)?;
    validate_constant_acyclic(adjacency.as_slice(), rules.max_dependency_levels)?;
    if !check_all_known(entity_expected.as_slice(), entity_ids) || !check_all_known(
        relationship_expected.as_slice(),
        relationship_ids,
    ) {
        return Err(R16ContractError::InvalidProjection);
    }
    Ok(())
}

} // verus!
