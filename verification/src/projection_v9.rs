//! The R16 knowledge graph and its V9 portable projection: envelope, record
//! families, references, evidence paths and the constant-evaluation index.
use vstd::prelude::*;
use crate::constants::{
    constant_projection_outcome, constant_projection_result, first_fault, projection_covered,
    validate_constant_projection, ConstantRules, R16Fault,
};
use crate::dependency::{has_chain_of, has_cycle};
use crate::json::{entry, json_copy, member, member_count, member_items, member_text, Json};
use crate::s4_r18::LocalSnapshotHead;
use crate::portable::{
    family_outcome, reference_fault, reference_list_fault, reference_list_outcome, reference_outcome,
    texts, Fault, FaultView,
};
use crate::s4_r16::{evidence_paths_fault, validate_evidence_paths, validate_family, R16ContractError};
use crate::text::{strictly_increasing, text_eq, text_lt};

verus! {

/// A reference fault as an R16 fault.
pub open spec fn reference_fault_v9(fault: Option<FaultView>) -> Option<R16Fault> {
    match fault {
        None => None,
        Some(FaultView::Malformed) => Some(R16Fault::InvalidProjection),
        Some(FaultView::Offending(id)) => Some(R16Fault::ReferenceMismatch(id)),
    }
}

fn reference_error_v9(fault: Option<Fault>) -> (r: Result<(), R16ContractError>)
    ensures
        r is Err ==> !(r->Err_0.fault() is Other),
        match reference_fault_v9(crate::portable::fault_opt(fault)) {
            None => r is Ok,
            Some(f) => r is Err && r->Err_0.fault() == f,
        },
{
    match fault {
        None => Ok(()),
        Some(Fault::Malformed) => Err(R16ContractError::InvalidProjection),
        Some(Fault::Offending(id)) => Err(R16ContractError::ReferenceMismatch(id)),
    }
}

/// What is wrong with one relationship: its source and target must be
/// entities and its evidence known.
pub open spec fn relationship_fault_v9(r: Json, entities: Seq<Seq<char>>, evidence: Seq<Seq<char>>) -> Option<
    R16Fault,
> {
    first_fault(
        reference_fault_v9(reference_outcome(r, "source"@, entities)),
        first_fault(
            reference_fault_v9(reference_outcome(r, "target"@, entities)),
            reference_fault_v9(reference_list_outcome(r, "evidence_ids"@, evidence)),
        ),
    )
}

/// The first relationship fault, in order.
pub open spec fn relationships_fault_v9(rs: Seq<Json>, entities: Seq<Seq<char>>, evidence: Seq<Seq<char>>) -> Option<
    R16Fault,
>
    decreases rs.len(),
{
    if rs.len() == 0 {
        None
    } else {
        first_fault(
            relationship_fault_v9(rs[0], entities, evidence),
            relationships_fault_v9(rs.drop_first(), entities, evidence),
        )
    }
}

/// What is wrong with one claim: it must name its subject (else `missing`),
/// the subject must be an entity or relationship of its kind (else
/// `ReferenceMismatch`), and its evidence must be known.
pub open spec fn claim_fault_v9(
    c: Json,
    entities: Seq<Seq<char>>,
    relationships: Seq<Seq<char>>,
    evidence: Seq<Seq<char>>,
    missing: R16Fault,
) -> Option<R16Fault> {
    match member_text(c, "subject_id"@) {
        None => Some(missing),
        Some(subject) => {
            let kind = member_text(c, "subject_kind"@);
            if (kind == Some("entity"@) && entities.contains(subject)) || (kind == Some("relationship"@)
                && relationships.contains(subject)) {
                reference_fault_v9(reference_list_outcome(c, "evidence_ids"@, evidence))
            } else {
                Some(R16Fault::ReferenceMismatch(subject))
            }
        },
    }
}

/// The first claim fault, in order.
pub open spec fn claims_fault_v9(
    cs: Seq<Json>,
    entities: Seq<Seq<char>>,
    relationships: Seq<Seq<char>>,
    evidence: Seq<Seq<char>>,
    missing: R16Fault,
) -> Option<R16Fault>
    decreases cs.len(),
{
    if cs.len() == 0 {
        None
    } else {
        first_fault(
            claim_fault_v9(cs[0], entities, relationships, evidence, missing),
            claims_fault_v9(cs.drop_first(), entities, relationships, evidence, missing),
        )
    }
}

fn check_relationships_v9(rs: &[Json], entity_ids: &[String], evidence_ids: &[String]) -> (r: Result<
    (),
    R16ContractError,
>)
    ensures
        r is Err ==> !(r->Err_0.fault() is Other),
        match relationships_fault_v9(rs@, texts(entity_ids@), texts(evidence_ids@)) {
            None => r is Ok,
            Some(f) => r is Err && r->Err_0.fault() == f,
        },
{
    let ghost es = texts(entity_ids@);
    let ghost evs = texts(evidence_ids@);
    let mut k: usize = 0;
    assert(rs@.skip(0) =~= rs@);
    while k < rs.len()
        invariant
            k <= rs.len(),
            es == texts(entity_ids@),
            evs == texts(evidence_ids@),
            relationships_fault_v9(rs@, es, evs) == relationships_fault_v9(rs@.skip(k as int), es, evs),
        decreases rs.len() - k,
    {
        assert(rs@.skip(k as int)[0] == rs@[k as int]);
        assert(rs@.skip(k as int).drop_first() =~= rs@.skip(k + 1));
        reference_error_v9(reference_fault(&rs[k], "source", entity_ids))?;
        reference_error_v9(reference_fault(&rs[k], "target", entity_ids))?;
        reference_error_v9(reference_list_fault(&rs[k], "evidence_ids", evidence_ids))?;
        k += 1;
    }
    Ok(())
}

fn check_claims_v9(
    cs: &[Json],
    entity_ids: &[String],
    relationship_ids: &[String],
    evidence_ids: &[String],
    snapshot: bool,
) -> (r: Result<(), R16ContractError>)
    ensures
        r is Err ==> !(r->Err_0.fault() is Other),
        match claims_fault_v9(
            cs@,
            texts(entity_ids@),
            texts(relationship_ids@),
            texts(evidence_ids@),
            if snapshot {
                R16Fault::InvalidSnapshot
            } else {
                R16Fault::InvalidProjection
            },
        ) {
            None => r is Ok,
            Some(f) => r is Err && r->Err_0.fault() == f,
        },
{
    let ghost es = texts(entity_ids@);
    let ghost rs = texts(relationship_ids@);
    let ghost evs = texts(evidence_ids@);
    let ghost missing = if snapshot {
        R16Fault::InvalidSnapshot
    } else {
        R16Fault::InvalidProjection
    };
    let mut k: usize = 0;
    assert(cs@.skip(0) =~= cs@);
    while k < cs.len()
        invariant
            k <= cs.len(),
            es == texts(entity_ids@),
            rs == texts(relationship_ids@),
            evs == texts(evidence_ids@),
            missing == if snapshot {
                R16Fault::InvalidSnapshot
            } else {
                R16Fault::InvalidProjection
            },
            claims_fault_v9(cs@, es, rs, evs, missing) == claims_fault_v9(cs@.skip(k as int), es, rs, evs, missing),
        decreases cs.len() - k,
    {
        assert(cs@.skip(k as int)[0] == cs@[k as int]);
        assert(cs@.skip(k as int).drop_first() =~= cs@.skip(k + 1));
        let subject = match cs[k].get_str("subject_id") {
            Some(t) => t,
            None => {
                if snapshot {
                    return Err(R16ContractError::InvalidSnapshot);
                } else {
                    return Err(R16ContractError::InvalidProjection);
                }
            },
        };
        let valid = match cs[k].get_str("subject_kind") {
            Some(kind) => if text_eq(kind, "entity") {
                crate::portable::contains_text(entity_ids, subject)
            } else if text_eq(kind, "relationship") {
                crate::portable::contains_text(relationship_ids, subject)
            } else {
                false
            },
            None => false,
        };
        proof {
            reveal_strlit("entity");
            reveal_strlit("relationship");
            assert("entity"@.len() != "relationship"@.len());
        }
        if !valid {
            return Err(R16ContractError::ReferenceMismatch(subject.to_owned()));
        }
        reference_error_v9(reference_list_fault(&cs[k], "evidence_ids", evidence_ids))?;
        k += 1;
    }
    Ok(())
}

/// A family check as an R16 outcome: the family's identifiers, or why it is
/// refused.
pub open spec fn family_step_v9(value: Json, family: Seq<char>, id_field: Seq<char>) -> Result<
    Seq<Seq<char>>,
    R16Fault,
> {
    match family_outcome(value, family, id_field) {
        Ok(ids) => Ok(ids),
        Err(FaultView::Malformed) => Err(R16Fault::InvalidProjection),
        Err(FaultView::Offending(id)) => Err(R16Fault::IdentityConflict(id)),
    }
}

fn family_v9(object: &Json, family: &'static str, id_field: &'static str) -> (r: Result<
    Vec<String>,
    R16ContractError,
>)
    ensures
        r is Err ==> !(r->Err_0.fault() is Other),
        match family_step_v9(*object, family@, id_field@) {
            Ok(ids) => r matches Ok(v) && texts(v@) == ids,
            Err(f) => r is Err && r->Err_0.fault() == f,
        },
        r is Ok ==> member_items(*object, family@) is Some,
{
    validate_family(object, family, id_field)
}

/// The evidence-path fault of `items` as an R16 fault.
pub open spec fn evidence_paths_fault_v9(items: Seq<Json>) -> Option<R16Fault> {
    match evidence_paths_fault(items) {
        None => None,
        Some(FaultView::Malformed) => Some(R16Fault::InvalidProjection),
        Some(FaultView::Offending(_)) => Some(R16Fault::UnsafePayload("unsafe_evidence_path"@)),
    }
}

/// The items of the member `family`, which the family checks have found to
/// be an array.
pub open spec fn family_items(value: Json, family: Seq<char>) -> Seq<Json> {
    member_items(value, family)->Some_0
}

/// The identifiers of the member `family`, which the family checks have
/// accepted.
pub open spec fn family_ids_v9(value: Json, family: Seq<char>) -> Seq<Seq<char>> {
    family_outcome(value, family, "id"@)->Ok_0
}

/// The schema names of the R16 graph and portable-graph profiles, as the
/// caller's domain model declares them.
#[derive(Clone, Debug, PartialEq, Eq)]
pub struct R16Versions {
    pub graph: String,
    pub portable_graph: String,
    pub ontology: String,
    pub query: String,
    pub snapshot: String,
}


/// Some record of `records` has the identifier `id` and the kind `kind`.
pub open spec fn has_record_of_kind(records: Seq<Json>, id: Seq<char>, kind: Seq<char>) -> bool {
    exists|k: int|
        0 <= k < records.len() && member_text(#[trigger] records[k], "id"@) == Some(id) && member_text(
            records[k],
            "kind"@,
        ) == Some(kind)
}

/// Every identifier of `listed` belongs to the family `ids` and to a record
/// of `records` of kind `kind`.
pub open spec fn listed_of_kind(
    listed: Seq<Seq<char>>,
    ids: Seq<Seq<char>>,
    records: Seq<Json>,
    kind: Seq<char>,
) -> bool {
    forall|i: int|
        0 <= i < listed.len() ==> ids.contains(#[trigger] listed[i]) && has_record_of_kind(records, listed[i], kind)
}

fn record_of_kind(records: &[Json], id: &str, kind: &str) -> (r: bool)
    ensures
        r == has_record_of_kind(records@, id@, kind@),
{
    let mut k: usize = 0;
    while k < records.len()
        invariant
            k <= records.len(),
            forall|m: int|
                0 <= m < k ==> !(member_text(#[trigger] records@[m], "id"@) == Some(id@) && member_text(
                    records@[m],
                    "kind"@,
                ) == Some(kind@)),
        decreases records.len() - k,
    {
        let hit = match (records[k].get_str("id"), records[k].get_str("kind")) {
            (Some(a), Some(b)) => text_eq(a, id) && text_eq(b, kind),
            _ => false,
        };
        if hit {
            return true;
        }
        k += 1;
    }
    false
}

fn check_listed_of_kind(listed: &[String], ids: &[String], records: &[Json], kind: &str) -> (r: bool)
    ensures
        r == listed_of_kind(texts(listed@), texts(ids@), records@, kind@),
{
    let mut k: usize = 0;
    while k < listed.len()
        invariant
            k <= listed.len(),
            forall|i: int|
                0 <= i < k ==> texts(ids@).contains(#[trigger] texts(listed@)[i]) && has_record_of_kind(
                    records@,
                    texts(listed@)[i],
                    kind@,
                ),
        decreases listed.len() - k,
    {
        assert(texts(listed@)[k as int] == listed@[k as int]@);
        if !crate::portable::contains_text(ids, listed[k].as_str()) || !record_of_kind(
            records,
            listed[k].as_str(),
            kind,
        ) {
            return false;
        }
        k += 1;
    }
    true
}

/// The first fault of the derivations of a graph's index, in order: each
/// names an entity after the previous one and among the evaluated ones, and
/// its relationship, input claims, input evidence and dependencies are known.
pub open spec fn graph_derivations_fault(
    ds: Seq<Json>,
    previous: Option<Seq<char>>,
    evaluated: Seq<Seq<char>>,
    entities: Seq<Seq<char>>,
    relationships: Seq<Seq<char>>,
    claims: Seq<Seq<char>>,
    evidence: Seq<Seq<char>>,
) -> Option<R16Fault>
    decreases ds.len(),
{
    if ds.len() == 0 {
        None
    } else {
        match member_text(ds[0], "entity_id"@) {
            None => Some(R16Fault::InvalidProjection),
            Some(id) => if (previous matches Some(p) && !text_lt(p, id)) || !evaluated.contains(id) {
                Some(R16Fault::InvalidProjection)
            } else {
                first_fault(
                    reference_fault_v9(reference_outcome(ds[0], "relationship_id"@, relationships)),
                    first_fault(
                        reference_fault_v9(reference_list_outcome(ds[0], "input_claim_ids"@, claims)),
                        first_fault(
                            reference_fault_v9(reference_list_outcome(ds[0], "input_evidence_ids"@, evidence)),
                            first_fault(
                                reference_fault_v9(
                                    reference_list_outcome(ds[0], "dependency_entity_ids"@, entities),
                                ),
                                graph_derivations_fault(
                                    ds.drop_first(),
                                    Some(id),
                                    evaluated,
                                    entities,
                                    relationships,
                                    claims,
                                    evidence,
                                ),
                            ),
                        ),
                    ),
                )
            },
        }
    }
}

/// What is wrong with the constant-evaluation index of a graph: it must be
/// an object (else `InvalidSnapshot`) with the profile's schema and rule
/// versions, string lists of evaluated entities and evaluation relationships
/// that are increasing and name records of the right kind, and derivations.
pub open spec fn graph_index_fault<V, R, C>(
    graph: Json,
    ids: Seq<Seq<Seq<char>>>,
    rules: ConstantRules<V, R, C>,
) -> Option<R16Fault> {
    match member(graph, "constant_evaluation_index"@) {
        Some(index) => if !(index is Object) {
            Some(R16Fault::InvalidSnapshot)
        } else if member_text(index, "schema_version"@) != Some(rules.index_version@) || member_text(
            index,
            "rule_version"@,
        ) != Some(rules.rule_version@) {
            Some(R16Fault::InvalidProjection)
        } else {
            match (
                crate::portable::string_array_outcome(index, "evaluated_entity_ids"@),
                crate::portable::string_array_outcome(index, "evaluation_relationship_ids"@),
            ) {
                (Some(evaluated), Some(evaluations)) => if !strictly_increasing(evaluated) || !strictly_increasing(
                    evaluations,
                ) || !listed_of_kind(evaluated, ids[0], family_items(graph, "entities"@), "rust.evaluated_value"@)
                    || !listed_of_kind(
                    evaluations,
                    ids[1],
                    family_items(graph, "relationships"@),
                    "EVALUATES_TO"@,
                ) {
                    Some(R16Fault::InvalidProjection)
                } else {
                    match member_items(index, "derivations"@) {
                        None => Some(R16Fault::InvalidProjection),
                        Some(ds) => graph_derivations_fault(ds, None, evaluated, ids[0], ids[1], ids[2], ids[3]),
                    }
                },
                _ => Some(R16Fault::InvalidProjection),
            }
        },
        None => Some(R16Fault::InvalidSnapshot),
    }
}


fn check_graph_derivations(
    ds: &[Json],
    evaluated: &[String],
    entity_ids: &[String],
    relationship_ids: &[String],
    claim_ids: &[String],
    evidence_ids: &[String],
) -> (r: Result<(), R16ContractError>)
    ensures
        r is Err ==> !(r->Err_0.fault() is Other),
        match graph_derivations_fault(
            ds@,
            None,
            texts(evaluated@),
            texts(entity_ids@),
            texts(relationship_ids@),
            texts(claim_ids@),
            texts(evidence_ids@),
        ) {
            None => r is Ok,
            Some(f) => r is Err && r->Err_0.fault() == f,
        },
{
    let ghost ev = texts(evaluated@);
    let ghost es = texts(entity_ids@);
    let ghost rs = texts(relationship_ids@);
    let ghost cs = texts(claim_ids@);
    let ghost eis = texts(evidence_ids@);
    let mut previous: Option<&str> = None;
    let mut k: usize = 0;
    assert(ds@.skip(0) =~= ds@);
    while k < ds.len()
        invariant
            k <= ds.len(),
            ev == texts(evaluated@),
            es == texts(entity_ids@),
            rs == texts(relationship_ids@),
            cs == texts(claim_ids@),
            eis == texts(evidence_ids@),
            graph_derivations_fault(ds@, None, ev, es, rs, cs, eis) == graph_derivations_fault(
                ds@.skip(k as int),
                match previous {
                    Some(p) => Some(p@),
                    None => None,
                },
                ev,
                es,
                rs,
                cs,
                eis,
            ),
        decreases ds.len() - k,
    {
        assert(ds@.skip(k as int)[0] == ds@[k as int]);
        assert(ds@.skip(k as int).drop_first() =~= ds@.skip(k + 1));
        let d = &ds[k];
        let id = match d.get_str("entity_id") {
            Some(t) => t,
            None => return Err(R16ContractError::InvalidProjection),
        };
        let out_of_order = match previous {
            Some(p) => !crate::text::text_less(p, id),
            None => false,
        };
        if out_of_order || !crate::portable::contains_text(evaluated, id) {
            return Err(R16ContractError::InvalidProjection);
        }
        reference_error_v9(reference_fault(d, "relationship_id", relationship_ids))?;
        reference_error_v9(reference_list_fault(d, "input_claim_ids", claim_ids))?;
        reference_error_v9(reference_list_fault(d, "input_evidence_ids", evidence_ids))?;
        reference_error_v9(reference_list_fault(d, "dependency_entity_ids", entity_ids))?;
        previous = Some(id);
        k += 1;
    }
    Ok(())
}

fn check_graph_index<V, R, C>(
    graph: &Json,
    ids: &[Vec<String>; 4],
    rules: &ConstantRules<V, R, C>,
) -> (r: Result<(), R16ContractError>)
    requires
        member_items(*graph, "entities"@) is Some,
        member_items(*graph, "relationships"@) is Some,
    ensures
        r is Err ==> !(r->Err_0.fault() is Other),
        match graph_index_fault(
            *graph,
            seq![texts(ids[0]@), texts(ids[1]@), texts(ids[2]@), texts(ids[3]@)],
            *rules,
        ) {
            None => r is Ok,
            Some(f) => r is Err && r->Err_0.fault() == f,
        },
{
    let ghost f = seq![texts(ids[0]@), texts(ids[1]@), texts(ids[2]@), texts(ids[3]@)];
    let index = match graph.get("constant_evaluation_index") {
        Some(ix) => ix,
        None => return Err(R16ContractError::InvalidSnapshot),
    };
    if index.as_object().is_none() {
        return Err(R16ContractError::InvalidSnapshot);
    }
    let schema_ok = match index.get_str("schema_version") {
        Some(t) => text_eq(t, rules.index_version.as_str()),
        None => false,
    };
    let rule_ok = match index.get_str("rule_version") {
        Some(t) => text_eq(t, rules.rule_version.as_str()),
        None => false,
    };
    if !schema_ok || !rule_ok {
        return Err(R16ContractError::InvalidProjection);
    }
    let evaluated = crate::s4_r16::string_array(index, "evaluated_entity_ids")?;
    let evaluations = crate::s4_r16::string_array(index, "evaluation_relationship_ids")?;
    let entities = match graph.get_array("entities") {
        Some(v) => v,
        None => return Err(R16ContractError::InvalidSnapshot),
    };
    let relationships = match graph.get_array("relationships") {
        Some(v) => v,
        None => return Err(R16ContractError::InvalidSnapshot),
    };
    if !crate::s4_r16::strictly_ordered(evaluated.as_slice()) || !crate::s4_r16::strictly_ordered(
        evaluations.as_slice(),
    ) || !check_listed_of_kind(evaluated.as_slice(), ids[0].as_slice(), entities.as_slice(), "rust.evaluated_value")
        || !check_listed_of_kind(
        evaluations.as_slice(),
        ids[1].as_slice(),
        relationships.as_slice(),
        "EVALUATES_TO",
    ) {
        return Err(R16ContractError::InvalidProjection);
    }
    let derivations = match index.get_array("derivations") {
        Some(v) => v,
        None => return Err(R16ContractError::InvalidProjection),
    };
    check_graph_derivations(
        derivations.as_slice(),
        evaluated.as_slice(),
        ids[0].as_slice(),
        ids[1].as_slice(),
        ids[2].as_slice(),
        ids[3].as_slice(),
    )
}


/// What is wrong with an R16 knowledge graph before its constant-evaluation
/// projection is checked, in the order the checks run: its schema and
/// ontology (`InvalidSnapshot`); its six families; the references of its
/// relationships and claims; its evidence paths; and its index.
pub open spec fn graph_v15_fault<V, R, C>(graph: Json, versions: R16Versions, rules: ConstantRules<V, R, C>) -> Option<
    R16Fault,
> {
    if member_text(graph, "schema_version"@) != Some(versions.graph@) || member_text(graph, "ontology_version"@)
        != Some(versions.ontology@) {
        Some(R16Fault::InvalidSnapshot)
    } else {
        match family_step_v9(graph, "entities"@, "id"@) {
            Err(f) => Some(f),
            Ok(e) => match family_step_v9(graph, "relationships"@, "id"@) {
                Err(f) => Some(f),
                Ok(r) => match family_step_v9(graph, "claims"@, "id"@) {
                    Err(f) => Some(f),
                    Ok(c) => match family_step_v9(graph, "evidence"@, "id"@) {
                        Err(f) => Some(f),
                        Ok(ev) => match family_step_v9(graph, "diagnostics"@, "id"@) {
                            Err(f) => Some(f),
                            Ok(_) => match family_step_v9(graph, "coverage"@, "id"@) {
                                Err(f) => Some(f),
                                Ok(_) => first_fault(
                                    relationships_fault_v9(family_items(graph, "relationships"@), e, ev),
                                    first_fault(
                                        claims_fault_v9(
                                            family_items(graph, "claims"@),
                                            e,
                                            r,
                                            ev,
                                            R16Fault::InvalidSnapshot,
                                        ),
                                        first_fault(
                                            evidence_paths_fault_v9(family_items(graph, "evidence"@)),
                                            graph_index_fault(graph, seq![e, r, c, ev], rules),
                                        ),
                                    ),
                                ),
                            },
                        },
                    },
                },
            },
        }
    }
}

/// Validates an R16 knowledge graph: every fault before its
/// constant-evaluation projection is stated exactly ([`graph_v15_fault`]);
/// the projection is then validated with the graph's family identifiers
/// ([`constant_projection_result`]).
pub fn validate_graph_v15<V: Fn(&str, &str) -> String, R: Fn(&str, &str) -> String, C: Fn(&str, &str) -> String>(
    graph: &Json,
    versions: &R16Versions,
    rules: &ConstantRules<V, R, C>,
) -> (r: Result<(), R16ContractError>)
    requires
        rules.ready(),
    ensures
        r is Err ==> !(r->Err_0.fault() is Other),
        match graph_v15_fault(*graph, *versions, *rules) {
            Some(f) => r is Err && r->Err_0.fault() == f,
            None => constant_projection_result(
                *graph,
                family_ids_v9(*graph, "entities"@),
                family_ids_v9(*graph, "relationships"@),
                family_ids_v9(*graph, "claims"@),
                family_ids_v9(*graph, "evidence"@),
                *rules,
                r,
            ),
        },
{
    let schema_ok = match graph.get_str("schema_version") {
        Some(t) => text_eq(t, versions.graph.as_str()),
        None => false,
    };
    let ontology_ok = match graph.get_str("ontology_version") {
        Some(t) => text_eq(t, versions.ontology.as_str()),
        None => false,
    };
    if !schema_ok || !ontology_ok {
        return Err(R16ContractError::InvalidSnapshot);
    }
    let e = family_v9(graph, "entities", "id")?;
    let r = family_v9(graph, "relationships", "id")?;
    let c = family_v9(graph, "claims", "id")?;
    let ev = family_v9(graph, "evidence", "id")?;
    family_v9(graph, "diagnostics", "id")?;
    family_v9(graph, "coverage", "id")?;
    let relationships = match graph.get_array("relationships") {
        Some(v) => v,
        None => return Err(R16ContractError::InvalidSnapshot),
    };
    check_relationships_v9(relationships.as_slice(), e.as_slice(), ev.as_slice())?;
    let claims = match graph.get_array("claims") {
        Some(v) => v,
        None => return Err(R16ContractError::InvalidSnapshot),
    };
    check_claims_v9(claims.as_slice(), e.as_slice(), r.as_slice(), ev.as_slice(), true)?;
    validate_evidence_paths(graph, "evidence")?;
    let ids = [e, r, c, ev];
    check_graph_index(graph, &ids, rules)?;
    validate_constant_projection(
        graph,
        ids[0].as_slice(),
        ids[1].as_slice(),
        ids[2].as_slice(),
        ids[3].as_slice(),
        rules,
    )
}


/// The versions a stored R16 semantic snapshot declares besides those of its
/// knowledge graph.
#[derive(Clone, Debug, PartialEq, Eq)]
pub struct SemanticVersionsV16 {
    pub pipeline: String,
    pub configuration: String,
    pub constant_profile: String,
    pub extractor: String,
}

/// The knowledge graph of a stored R16 semantic snapshot, where the snapshot
/// declares the pipeline, ontology, configuration schema and constant
/// profile, lists the extractor among its extractor versions, and holds its
/// graph as an object; `None` where any of that fails.
pub open spec fn stored_r16_graph(semantic: Json, s: SemanticVersionsV16, ontology: Seq<char>) -> Option<Json> {
    if stored_r16_header_ok(semantic, s, ontology) {
        match member(semantic, "knowledge_graph"@) {
            Some(graph) => if graph is Object {
                Some(graph)
            } else {
                None
            },
            None => None,
        }
    } else {
        None
    }
}

/// The declared versions of a stored R16 semantic snapshot are the expected
/// ones.
pub open spec fn stored_r16_header_ok(semantic: Json, s: SemanticVersionsV16, ontology: Seq<char>) -> bool {
    &&& member_text(semantic, "pipeline_version"@) == Some(s.pipeline@)
    &&& member_text(semantic, "ontology_version"@) == Some(ontology)
    &&& crate::s4_r13::pointer_text(semantic, "configuration"@, "schema_version"@) == Some(s.configuration@)
    &&& crate::s4_r13::pointer_text(semantic, "configuration"@, "rust_constant_profile"@) == Some(s.constant_profile@)
    &&& member_items(semantic, "extractor_versions"@) matches Some(items) && exists|k: int|
        0 <= k < items.len() && crate::json::as_text(#[trigger] items[k]) == Some(s.extractor@)
}

/// Validates a stored R16 semantic snapshot: its declared versions and the
/// shape of its knowledge graph (else `InvalidSnapshot`), then the graph as
/// [`validate_graph_v15`] does.
pub fn validate_stored_r16_semantic<V: Fn(&str, &str) -> String, R: Fn(&str, &str) -> String, C: Fn(
    &str,
    &str,
) -> String>(
    semantic: &Json,
    semantic_versions: &SemanticVersionsV16,
    versions: &R16Versions,
    rules: &ConstantRules<V, R, C>,
) -> (r: Result<(), R16ContractError>)
    requires
        rules.ready(),
    ensures
        r is Err ==> !(r->Err_0.fault() is Other),
        match stored_r16_graph(*semantic, *semantic_versions, versions.ontology@) {
            None => r is Err && r->Err_0.fault() == R16Fault::InvalidSnapshot,
            Some(graph) => match graph_v15_fault(graph, *versions, *rules) {
                Some(f) => r is Err && r->Err_0.fault() == f,
                None => constant_projection_result(
                    graph,
                    family_ids_v9(graph, "entities"@),
                    family_ids_v9(graph, "relationships"@),
                    family_ids_v9(graph, "claims"@),
                    family_ids_v9(graph, "evidence"@),
                    *rules,
                    r,
                ),
            },
        },
{
    let pipeline_ok = match semantic.get_str("pipeline_version") {
        Some(t) => text_eq(t, semantic_versions.pipeline.as_str()),
        None => false,
    };
    let ontology_ok = match semantic.get_str("ontology_version") {
        Some(t) => text_eq(t, versions.ontology.as_str()),
        None => false,
    };
    let configuration_ok = match crate::s4_r13::pointer_str(semantic, "configuration", "schema_version") {
        Some(t) => text_eq(t, semantic_versions.configuration.as_str()),
        None => false,
    };
    let profile_ok = match crate::s4_r13::pointer_str(semantic, "configuration", "rust_constant_profile") {
        Some(t) => text_eq(t, semantic_versions.constant_profile.as_str()),
        None => false,
    };
    let extractor_ok = match semantic.get_array("extractor_versions") {
        Some(items) => crate::s4_r15::lists_text(items, semantic_versions.extractor.as_str()),
        None => false,
    };
    if !pipeline_ok || !ontology_ok || !configuration_ok || !profile_ok || !extractor_ok {
        return Err(R16ContractError::InvalidSnapshot);
    }
    let graph = match semantic.get("knowledge_graph") {
        Some(g) => g,
        None => return Err(R16ContractError::InvalidSnapshot),
    };
    if graph.as_object().is_none() {
        return Err(R16ContractError::InvalidSnapshot);
    }
    assert(stored_r16_graph(*semantic, *semantic_versions, versions.ontology@) == Some(*graph));
    validate_graph_v15(graph, versions, rules)
}

/// The member names of a V9 portable graph without repository boundaries.
pub open spec fn portable_v9_keys() -> Seq<Seq<char>> {
    seq![
        "claims"@,
        "constant_evaluation_index"@,
        "coverage_gaps"@,
        "diagnostics"@,
        "document_statements"@,
        "documents"@,
        "entities"@,
        "evidence"@,
        "local_flow_index"@,
        "ontology_version"@,
        "projection"@,
        "query_contract_version"@,
        "relationships"@,
        "repository"@,
        "schema_version"@,
        "source_snapshot"@,
    ]
}

/// The member names of a V9 portable graph that also holds repository
/// boundaries.
pub open spec fn portable_v9_keys_with_boundaries() -> Seq<Seq<char>> {
    portable_v9_keys().push("repository_boundaries"@)
}

/// What is wrong with the envelope of a V9 portable graph, in the order the
/// checks run: nesting, private payloads, the member set, the schema, the
/// declared versions and profile, and the repository boundaries when
/// present.
pub open spec fn portable_v9_header_fault(value: Json, v: R16Versions) -> Option<R16Fault> {
    if crate::json::height(value) > crate::s4_r16::MAX_R16_JSON_NESTING {
        Some(
            R16Fault::LimitExceeded {
                limit: "json_nesting"@,
                maximum: crate::s4_r16::MAX_R16_JSON_NESTING,
                observed: (crate::s4_r16::MAX_R16_JSON_NESTING + 1) as u64,
            },
        )
    } else if crate::json::first_finding(value, crate::s4_r16::r16_private_fields(), true) is Some {
        match crate::json::first_finding(value, crate::s4_r16::r16_private_fields(), true) {
            Some(crate::json::FindingView::DeniedField(_)) => Some(R16Fault::UnsafePayload("private_field"@)),
            _ => Some(R16Fault::UnsafePayload("raw_url"@)),
        }
    } else if !(crate::portable::same_key_set(value, portable_v9_keys()) || crate::portable::same_key_set(
        value,
        portable_v9_keys_with_boundaries(),
    )) {
        Some(R16Fault::InvalidProjection)
    } else {
        match member_text(value, "schema_version"@) {
            None => Some(R16Fault::InvalidProjection),
            Some(schema) => if schema != v.portable_graph@ {
                Some(R16Fault::UnsupportedPortableGraphSchema(crate::text::take_scalars(schema, 256)))
            } else if member_text(value, "ontology_version"@) != Some(v.ontology@) || member_text(
                value,
                "query_contract_version"@,
            ) != Some(v.query@) || crate::s4_r13::pointer_text(value, "source_snapshot"@, "schema_version"@)
                != Some(v.snapshot@) || crate::s4_r13::pointer_text(value, "projection"@, "profile"@) != Some(
                "codenoesis.lossless-portable-projection/v9"@,
            ) {
                Some(R16Fault::InvalidProjection)
            } else if member(value, "repository_boundaries"@) matches Some(b)
                && crate::s4_r12::boundary_projection_fault(b) is Some {
                Some(R16Fault::InvalidProjection)
            } else {
                None
            },
        }
    }
}

/// What is wrong with a V9 portable graph before its constant-evaluation
/// projection is checked, in the order the checks run: the envelope; the
/// eight families; the references of relationships and claims; and the
/// evidence paths.
pub open spec fn portable_v9_fault(value: Json, v: R16Versions) -> Option<R16Fault> {
    match portable_v9_header_fault(value, v) {
        Some(f) => Some(f),
        None => match family_step_v9(value, "entities"@, "id"@) {
            Err(f) => Some(f),
            Ok(e) => match family_step_v9(value, "relationships"@, "id"@) {
                Err(f) => Some(f),
                Ok(r) => match family_step_v9(value, "claims"@, "id"@) {
                    Err(f) => Some(f),
                    Ok(_) => match family_step_v9(value, "evidence"@, "id"@) {
                        Err(f) => Some(f),
                        Ok(ev) => match family_step_v9(value, "diagnostics"@, "id"@) {
                            Err(f) => Some(f),
                            Ok(_) => match family_step_v9(value, "coverage_gaps"@, "id"@) {
                                Err(f) => Some(f),
                                Ok(_) => match family_step_v9(value, "documents"@, "document_id"@) {
                                    Err(f) => Some(f),
                                    Ok(_) => match family_step_v9(value, "document_statements"@, "statement_id"@) {
                                        Err(f) => Some(f),
                                        Ok(_) => first_fault(
                                            relationships_fault_v9(family_items(value, "relationships"@), e, ev),
                                            first_fault(
                                                claims_fault_v9(
                                                    family_items(value, "claims"@),
                                                    e,
                                                    r,
                                                    ev,
                                                    R16Fault::InvalidProjection,
                                                ),
                                                evidence_paths_fault_v9(family_items(value, "evidence"@)),
                                            ),
                                        ),
                                    },
                                },
                            },
                        },
                    },
                },
            },
        },
    }
}

fn check_portable_v9_header(value: &Json, versions: &R16Versions) -> (r: Result<(), R16ContractError>)
    ensures
        r is Err ==> !(r->Err_0.fault() is Other),
        match portable_v9_header_fault(*value, *versions) {
            Some(f) => r is Err && r->Err_0.fault() == f,
            None => r is Ok,
        },
{
    crate::s4_r16::ensure_nesting(value, 0)?;
    crate::s4_r16::validate_private_fields(value)?;
    let keys = [
        "claims",
        "constant_evaluation_index",
        "coverage_gaps",
        "diagnostics",
        "document_statements",
        "documents",
        "entities",
        "evidence",
        "local_flow_index",
        "ontology_version",
        "projection",
        "query_contract_version",
        "relationships",
        "repository",
        "schema_version",
        "source_snapshot",
    ];
    let keys_with_boundaries = [
        "claims",
        "constant_evaluation_index",
        "coverage_gaps",
        "diagnostics",
        "document_statements",
        "documents",
        "entities",
        "evidence",
        "local_flow_index",
        "ontology_version",
        "projection",
        "query_contract_version",
        "relationships",
        "repository",
        "schema_version",
        "source_snapshot",
        "repository_boundaries",
    ];
    assert(crate::json::names_view(keys@) =~= portable_v9_keys());
    assert(crate::json::names_view(keys_with_boundaries@) =~= portable_v9_keys_with_boundaries());
    if !crate::portable::has_key_set(value, &keys) && !crate::portable::has_key_set(value, &keys_with_boundaries) {
        return Err(R16ContractError::InvalidProjection);
    }
    let schema = match value.get_str("schema_version") {
        Some(t) => t,
        None => return Err(R16ContractError::InvalidProjection),
    };
    if !text_eq(schema, versions.portable_graph.as_str()) {
        return Err(R16ContractError::UnsupportedPortableGraphSchema(crate::s4_r16::bounded(schema, 256)));
    }
    let ontology_ok = match value.get_str("ontology_version") {
        Some(t) => text_eq(t, versions.ontology.as_str()),
        None => false,
    };
    let query_ok = match value.get_str("query_contract_version") {
        Some(t) => text_eq(t, versions.query.as_str()),
        None => false,
    };
    let snapshot_ok = match crate::s4_r13::pointer_str(value, "source_snapshot", "schema_version") {
        Some(t) => text_eq(t, versions.snapshot.as_str()),
        None => false,
    };
    let profile_ok = match crate::s4_r13::pointer_str(value, "projection", "profile") {
        Some(t) => text_eq(t, "codenoesis.lossless-portable-projection/v9"),
        None => false,
    };
    if !ontology_ok || !query_ok || !snapshot_ok || !profile_ok {
        return Err(R16ContractError::InvalidProjection);
    }
    match value.get("repository_boundaries") {
        Some(b) => if crate::s4_r12::validate_boundary_projection(b).is_err() {
            return Err(R16ContractError::InvalidProjection);
        },
        None => {},
    }
    Ok(())
}

/// Checks everything of a V9 portable graph but its family digests: the
/// envelope, families, references and evidence paths exactly
/// ([`portable_v9_fault`]), then its constant-evaluation projection
/// ([`constant_projection_result`]).
pub fn validate_portable_v9_structure<V: Fn(&str, &str) -> String, R: Fn(&str, &str) -> String, C: Fn(&str, &str) -> String>(
    value: &Json,
    versions: &R16Versions,
    rules: &ConstantRules<V, R, C>,
) -> (r: Result<(), R16ContractError>)
    requires
        rules.ready(),
    ensures
        r is Err ==> !(r->Err_0.fault() is Other),
        match portable_v9_fault(*value, *versions) {
            Some(f) => r is Err && r->Err_0.fault() == f,
            None => constant_projection_result(
                *value,
                family_ids_v9(*value, "entities"@),
                family_ids_v9(*value, "relationships"@),
                family_ids_v9(*value, "claims"@),
                family_ids_v9(*value, "evidence"@),
                *rules,
                r,
            ),
        },
        r is Ok ==> portable_v9_header_fault(*value, *versions) is None,
{
    check_portable_v9_header(value, versions)?;
    let e = family_v9(value, "entities", "id")?;
    let r = family_v9(value, "relationships", "id")?;
    let c = family_v9(value, "claims", "id")?;
    let ev = family_v9(value, "evidence", "id")?;
    family_v9(value, "diagnostics", "id")?;
    family_v9(value, "coverage_gaps", "id")?;
    family_v9(value, "documents", "document_id")?;
    family_v9(value, "document_statements", "statement_id")?;
    let relationships = match value.get_array("relationships") {
        Some(v) => v,
        None => return Err(R16ContractError::InvalidProjection),
    };
    check_relationships_v9(relationships.as_slice(), e.as_slice(), ev.as_slice())?;
    let claims = match value.get_array("claims") {
        Some(v) => v,
        None => return Err(R16ContractError::InvalidProjection),
    };
    check_claims_v9(claims.as_slice(), e.as_slice(), r.as_slice(), ev.as_slice(), false)?;
    validate_evidence_paths(value, "evidence")?;
    validate_constant_projection(value, e.as_slice(), r.as_slice(), c.as_slice(), ev.as_slice(), rules)
}


/// The families of a V9 portable graph, in the order their digests are
/// declared.
pub open spec fn portable_v9_families() -> Seq<Seq<char>> {
    seq![
        "entities"@,
        "relationships"@,
        "claims"@,
        "evidence"@,
        "diagnostics"@,
        "coverage_gaps"@,
        "documents"@,
        "document_statements"@,
        "local_flow_index"@,
        "constant_evaluation_index"@,
    ]
}

/// A V9 portable graph whose envelope is valid holds all ten families.
proof fn lemma_v9_families_present(value: Json, versions: R16Versions)
    requires
        portable_v9_header_fault(value, versions) is None,
    ensures
        forall|k: int| 0 <= k < 10 ==> member(value, #[trigger] portable_v9_families()[k]) is Some,
{
    assert forall|k: int| 0 <= k < 10 implies member(value, #[trigger] portable_v9_families()[k]) is Some by {
        let keys = if crate::portable::same_key_set(value, portable_v9_keys()) {
            portable_v9_keys()
        } else {
            portable_v9_keys_with_boundaries()
        };
        let name = portable_v9_families()[k];
        assert(portable_v9_keys_with_boundaries() =~= portable_v9_keys().push("repository_boundaries"@));
        if k == 0 {
            assert(keys[6] == name);
        } else if k == 1 {
            assert(keys[12] == name);
        } else if k == 2 {
            assert(keys[0] == name);
        } else if k == 3 {
            assert(keys[7] == name);
        } else if k == 4 {
            assert(keys[3] == name);
        } else if k == 5 {
            assert(keys[2] == name);
        } else if k == 6 {
            assert(keys[5] == name);
        } else if k == 7 {
            assert(keys[4] == name);
        } else if k == 8 {
            assert(keys[8] == name);
        } else {
            assert(keys[1] == name);
        }
        crate::portable::lemma_key_set_member(value, keys, name);
    }
}

/// A V9 document that validates whatever the digest function answers: it
/// has no structural fault, its constants project without a cycle or a chain
/// beyond the allowed levels, its projection covers the graph, and every
/// digest the function can give is the declared one.
pub open spec fn v9_value_accepted<V: Fn(&str, &str) -> String, R: Fn(&str, &str) -> String, C: Fn(&str, &str) -> String, F: Fn(&[u8]) -> String>(
    value: Json,
    versions: R16Versions,
    rules: ConstantRules<V, R, C>,
    sha256: F,
) -> bool {
    let e = family_ids_v9(value, "entities"@);
    let rs = family_ids_v9(value, "relationships"@);
    let c = family_ids_v9(value, "claims"@);
    let ev = family_ids_v9(value, "evidence"@);
    &&& portable_v9_fault(value, versions) is None
    &&& constant_projection_outcome(value, c, ev, rules) matches Ok(adj) && !has_cycle(adj) && !has_chain_of(
        adj,
        (rules.max_dependency_levels + 1) as nat,
    ) && projection_covered(value, e, rs)
    &&& forall|ds: Seq<Seq<char>>|
        #[trigger] crate::portable::family_digests_for(sha256, value, portable_v9_families(), ds)
            ==> crate::portable::digests_declared_for(value, portable_v9_families(), ds)
}

/// Validates one V9 portable graph: its structure
/// ([`validate_portable_v9_structure`]) and then the declared family
/// digests against those `sha256` gives (a mismatch is
/// `InvalidProjection`).
#[verifier::spinoff_prover]
#[verifier::rlimit(80)]
pub fn validate_portable_value<V: Fn(&str, &str) -> String, R: Fn(&str, &str) -> String, C: Fn(&str, &str) -> String, F: Fn(&[u8]) -> String>(
    value: &Json,
    versions: &R16Versions,
    rules: &ConstantRules<V, R, C>,
    sha256: &F,
) -> (r: Result<(), R16ContractError>)
    requires
        rules.ready(),
        crate::s4_r18::total_digest(*sha256),
    ensures
        r is Err ==> !(r->Err_0.fault() is Other),
        portable_v9_fault(*value, *versions) matches Some(f) ==> r is Err && r->Err_0.fault() == f,
        portable_v9_fault(*value, *versions) is None ==> {
            let e = family_ids_v9(*value, "entities"@);
            let rs = family_ids_v9(*value, "relationships"@);
            let c = family_ids_v9(*value, "claims"@);
            let ev = family_ids_v9(*value, "evidence"@);
            &&& r is Ok ==> constant_projection_result(*value, e, rs, c, ev, *rules, Ok(())) && exists|
                ds: Seq<Seq<char>>,
            |
                crate::portable::family_digests_for(*sha256, *value, portable_v9_families(), ds) && crate::portable::digests_declared_for(
                    *value,
                    portable_v9_families(),
                    ds,
                )
            &&& r is Err ==> (constant_projection_result(*value, e, rs, c, ev, *rules, r) || r matches Err(
                R16ContractError::InvalidProjection,
            ))
            &&& (constant_projection_outcome(*value, c, ev, *rules) matches Ok(adj) && !has_cycle(adj)
                && !has_chain_of(adj, (rules.max_dependency_levels + 1) as nat) && projection_covered(
                *value,
                e,
                rs,
            ) && forall|ds: Seq<Seq<char>>|
                #[trigger] crate::portable::family_digests_for(*sha256, *value, portable_v9_families(), ds) ==> crate::portable::digests_declared_for(
                    *value,
                    portable_v9_families(),
                    ds,
                )) ==> r is Ok
        },
{
    validate_portable_v9_structure(value, versions, rules)?;
    let names = [
        "entities",
        "relationships",
        "claims",
        "evidence",
        "diagnostics",
        "coverage_gaps",
        "documents",
        "document_statements",
        "local_flow_index",
        "constant_evaluation_index",
    ];
    assert(crate::json::names_view(names@) =~= portable_v9_families());
    proof {
        lemma_v9_families_present(*value, *versions);
    }
    let digests = match crate::portable::digests_of_families(value, &names, sha256) {
        Some(ds) => ds,
        None => {
            assert(false);
            return Err(R16ContractError::InvalidProjection);
        },
    };
    if !crate::portable::declared_digests_match(value, &names, digests.as_slice()) {
        return Err(R16ContractError::InvalidProjection);
    }
    Ok(())
}


/// What a V9 export needs of its inputs (else an invalid snapshot): the
/// manifest bound to the head, a knowledge graph object with all the record
/// families and indexes, documents the export can take, the repository, and
/// repository boundaries that are either absent or a valid projection.
pub open spec fn v9_export_inputs(semantic: Json, head: LocalSnapshotHead, manifest: Json) -> bool {
    &&& crate::export::documentation_bound(manifest, head)
    &&& member(semantic, "knowledge_graph"@) matches Some(g) && g is Object && {
        &&& member(g, "local_flow_index"@) is Some
        &&& member(g, "constant_evaluation_index"@) is Some
        &&& member(g, "entities"@) is Some
        &&& member(g, "relationships"@) is Some
        &&& member(g, "claims"@) is Some
        &&& member(g, "evidence"@) is Some
        &&& member(g, "diagnostics"@) is Some
        &&& member(g, "coverage"@) is Some
    }
    &&& crate::export::manifest_documents(manifest) is Some
    &&& member(semantic, "repository"@) is Some
    &&& (member(semantic, "repository_boundaries"@) matches Some(b) ==> crate::s4_r12::boundary_projection_fault(b) is None)
}

/// The V9 portable projection of a snapshot, its head and documentation
/// manifest, member by member in key order: copies of the graph's record
/// families and indexes (coverage gaps from `coverage`), the manifest's
/// documents and statements, the versions, the projection profile with the
/// digest `ds[k]` of each family (an answer of `f` for that family's
/// canonical bytes), copies of the repository and of the repository
/// boundaries where the snapshot has them, and the source snapshot.
pub open spec fn v9_projection<F: Fn(&[u8]) -> String>(
    v: Json,
    semantic: Json,
    head: LocalSnapshotHead,
    manifest: Json,
    versions: R16Versions,
    f: F,
    ds: Seq<Seq<char>>,
) -> bool {
    let g = member(semantic, "knowledge_graph"@).unwrap();
    let docs = crate::export::manifest_documents(manifest).unwrap();
    let b = member(semantic, "repository_boundaries"@);
    let off: int = if b is Some {
        1
    } else {
        0
    };
    &&& member_count(v) == 16 + off
    &&& crate::export::copy_member(v, 0, "claims"@, member(g, "claims"@))
    &&& crate::export::copy_member(v, 1, "constant_evaluation_index"@, member(g, "constant_evaluation_index"@))
    &&& crate::export::copy_member(v, 2, "coverage_gaps"@, member(g, "coverage"@))
    &&& crate::export::copy_member(v, 3, "diagnostics"@, member(g, "diagnostics"@))
    &&& crate::json::member_at(v, 4, "document_statements"@) matches Some(Json::Array(xs))
        && crate::export::portable_statements_of(xs@, docs)
    &&& crate::json::member_at(v, 5, "documents"@) matches Some(Json::Array(xs))
        && crate::export::portable_documents_of(xs@, docs)
    &&& crate::export::copy_member(v, 6, "entities"@, member(g, "entities"@))
    &&& crate::export::copy_member(v, 7, "evidence"@, member(g, "evidence"@))
    &&& crate::export::copy_member(v, 8, "local_flow_index"@, member(g, "local_flow_index"@))
    &&& crate::explorer::text_member(v, 9, "ontology_version"@, versions.ontology@)
    &&& crate::json::member_at(v, 10, "projection"@) matches Some(p) && {
        &&& member_count(p) == 2
        &&& crate::json::member_at(p, 0, "family_sha256"@) matches Some(fd) && {
            &&& member_count(fd) == 10
            &&& ds.len() == 10
            &&& crate::export::digest_member(fd, 0, "claims"@, ds[0], v, 0, f)
            &&& crate::export::digest_member(fd, 1, "constant_evaluation_index"@, ds[1], v, 1, f)
            &&& crate::export::digest_member(fd, 2, "coverage_gaps"@, ds[2], v, 2, f)
            &&& crate::export::digest_member(fd, 3, "diagnostics"@, ds[3], v, 3, f)
            &&& crate::export::digest_member(fd, 4, "document_statements"@, ds[4], v, 4, f)
            &&& crate::export::digest_member(fd, 5, "documents"@, ds[5], v, 5, f)
            &&& crate::export::digest_member(fd, 6, "entities"@, ds[6], v, 6, f)
            &&& crate::export::digest_member(fd, 7, "evidence"@, ds[7], v, 7, f)
            &&& crate::export::digest_member(fd, 8, "local_flow_index"@, ds[8], v, 8, f)
            &&& crate::export::digest_member(fd, 9, "relationships"@, ds[9], v, 12, f)
        }
        &&& crate::explorer::text_member(p, 1, "profile"@, "codenoesis.lossless-portable-projection/v9"@)
    }
    &&& crate::explorer::text_member(v, 11, "query_contract_version"@, versions.query@)
    &&& crate::export::copy_member(v, 12, "relationships"@, member(g, "relationships"@))
    &&& crate::export::copy_member(v, 13, "repository"@, member(semantic, "repository"@))
    &&& (b is Some ==> crate::export::copy_member(v, 14, "repository_boundaries"@, b))
    &&& crate::explorer::text_member(v, 14 + off, "schema_version"@, versions.portable_graph@)
    &&& crate::json::member_at(v, 15 + off, "source_snapshot"@) matches Some(src) && {
        &&& member_count(src) == 3
        &&& crate::explorer::text_member(src, 0, "schema_version"@, versions.snapshot@)
        &&& crate::json::member_at(src, 1, "semantic_hash"@) matches Some(h) && member_count(h) == 2
            && crate::explorer::text_member(h, 0, "algorithm"@, head.semantic_hash_algorithm@)
            && crate::explorer::text_member(h, 1, "value"@, head.semantic_hash@)
        &&& crate::explorer::text_member(src, 2, "snapshot_id"@, head.snapshot_id@)
    }
}

/// A validated V9 portable graph with its canonical compact JSON text and
/// the digest function it was checked with.
pub struct PortableGraphV9<F: Fn(&[u8]) -> String> {
    value: Json,
    canonical: Vec<u8>,
    sha256: F,
}

impl<F: Fn(&[u8]) -> String> PortableGraphV9<F> {
    /// The canonical bytes are the canonical text of the document.
    #[verifier::type_invariant]
    closed spec fn canonical_matches(&self) -> bool {
        self.canonical@ == crate::json::json_bytes(self.value)
    }

    /// The graph document.
    pub closed spec fn document(&self) -> Json {
        self.value
    }

    /// The canonical text of the document, without the final LF.
    pub closed spec fn canonical_bytes(&self) -> Seq<u8> {
        self.canonical@
    }

    /// The digest function the graph was checked with.
    pub closed spec fn digest_function(&self) -> F {
        self.sha256
    }

    /// Strictly re-imports one canonical LF-terminated V9 portable graph.
    /// `parsed` is the JSON parse of all of `bytes` (`None` when they do not
    /// parse).
    ///
    /// Above [`crate::s4_r16::MAX_R16_PORTABLE_GRAPH_BYTES`] is
    /// `LimitExceeded`; a failed parse is `InvalidProjection`; the document
    /// must then validate ([`validate_portable_value`]); bytes that are not
    /// exactly its canonical text and one LF are `Noncanonical`, with the
    /// digests of the expected and the observed bytes.
    pub fn from_canonical_file<V: Fn(&str, &str) -> String, R: Fn(&str, &str) -> String, C: Fn(&str, &str) -> String>(
        bytes: &[u8],
        parsed: Option<Json>,
        versions: &R16Versions,
        rules: &ConstantRules<V, R, C>,
        sha256: F,
    ) -> (r: Result<Self, R16ContractError>)
        requires
            rules.ready(),
            crate::s4_r18::total_digest(sha256),
        ensures
            bytes@.len() > crate::s4_r16::MAX_R16_PORTABLE_GRAPH_BYTES ==> (r matches Err(
                R16ContractError::LimitExceeded { limit, maximum, observed },
            ) && limit@ == "portable_graph_bytes"@ && maximum == crate::s4_r16::MAX_R16_PORTABLE_GRAPH_BYTES
                && observed == bytes@.len()),
            bytes@.len() <= crate::s4_r16::MAX_R16_PORTABLE_GRAPH_BYTES && parsed is None ==> (r matches Err(
                R16ContractError::InvalidProjection,
            )),
            bytes@.len() <= crate::s4_r16::MAX_R16_PORTABLE_GRAPH_BYTES ==> (parsed matches Some(v) ==> (
            portable_v9_fault(v, *versions) matches Some(f) ==> r is Err && r->Err_0.fault() == f)),
            r matches Ok(g) ==> {
                &&& parsed == Some(g.document())
                &&& g.canonical_bytes() == crate::json::json_bytes(g.document())
                &&& bytes@ == g.canonical_bytes().push(10u8)
                &&& g.digest_function() == sha256
                &&& portable_v9_fault(g.document(), *versions) is None
                &&& constant_projection_result(
                    g.document(),
                    family_ids_v9(g.document(), "entities"@),
                    family_ids_v9(g.document(), "relationships"@),
                    family_ids_v9(g.document(), "claims"@),
                    family_ids_v9(g.document(), "evidence"@),
                    *rules,
                    Ok(()),
                )
                &&& exists|ds: Seq<Seq<char>>|
                    crate::portable::family_digests_for(sha256, g.document(), portable_v9_families(), ds) && crate::portable::digests_declared_for(
                        g.document(),
                        portable_v9_families(),
                        ds,
                    )
            },
            parsed matches Some(v) ==> (bytes@.len() <= crate::s4_r16::MAX_R16_PORTABLE_GRAPH_BYTES && bytes@
                == crate::json::json_bytes(v).push(10u8) && v9_value_accepted(v, *versions, *rules, sha256) ==> (r matches Ok(g) && g.document() == v)),
            crate::s4_r18::deterministic_digest(sha256) ==> (r matches Ok(g) ==> ((constant_projection_outcome(
                g.document(),
                family_ids_v9(g.document(), "claims"@),
                family_ids_v9(g.document(), "evidence"@),
                *rules,
            ) matches Ok(adj) ==> !has_chain_of(adj, (rules.max_dependency_levels + 1) as nat)) ==> v9_value_accepted(
                g.document(),
                *versions,
                *rules,
                sha256,
            ))),
            r matches Err(R16ContractError::Noncanonical { expected_sha256, observed_sha256 }) ==> (
            parsed matches Some(v) && bytes@ != crate::json::json_bytes(v).push(10u8)
                && crate::s4_r18::digest_of(sha256, crate::json::json_bytes(v).push(10u8), expected_sha256@)
                && crate::s4_r18::digest_of(sha256, bytes@, observed_sha256@)),
    {
        crate::s4_r16::enforce_portable_size(bytes.len())?;
        let value = match parsed {
            Some(v) => v,
            None => return Err(R16ContractError::InvalidProjection),
        };
        validate_portable_value(&value, versions, rules, &sha256)?;
        let canonical = crate::json::to_bytes(&value);
        let mut expected = vstd::slice::slice_to_vec(canonical.as_slice());
        expected.push(10u8);
        if !crate::text::bytes_eq(expected.as_slice(), bytes) {
            let expected_slice = expected.as_slice();
            let expected_sha256 = sha256(expected_slice);
            let observed_sha256 = sha256(bytes);
            proof {
                assert(call_ensures(sha256, (expected_slice,), expected_sha256));
                assert(call_ensures(sha256, (bytes,), observed_sha256));
            }
            return Err(R16ContractError::Noncanonical { expected_sha256, observed_sha256 });
        }
        proof {
            if crate::s4_r18::deterministic_digest(sha256) {
                let ds = choose|ds: Seq<Seq<char>>|
                    crate::portable::family_digests_for(sha256, value, portable_v9_families(), ds)
                        && crate::portable::digests_declared_for(value, portable_v9_families(), ds);
                crate::portable::lemma_declared_for_every_answer(sha256, value, portable_v9_families(), ds);
            }
        }
        Ok(Self { value, canonical, sha256 })
    }

    /// Projects a snapshot whose stored payload and head the caller has
    /// validated (`stored_snapshot_valid`, else an invalid snapshot) and a
    /// documentation manifest into a V9 portable graph
    /// ([`v9_projection`]): the inputs must be usable
    /// ([`v9_export_inputs`], else an invalid snapshot), and the projection
    /// must then validate ([`validate_portable_value`]) and fit the size
    /// limit with its final LF.
    pub fn from_validated_v18<V: Fn(&str, &str) -> String, R: Fn(&str, &str) -> String, C: Fn(&str, &str) -> String>(
        semantic: &Json,
        head: &LocalSnapshotHead,
        documentation_manifest: &Json,
        stored_snapshot_valid: bool,
        versions: &R16Versions,
        rules: &ConstantRules<V, R, C>,
        sha256: F,
    ) -> (r: Result<Self, R16ContractError>)
        requires
            rules.ready(),
            crate::s4_r18::total_digest(sha256),
        ensures
            !(stored_snapshot_valid && v9_export_inputs(*semantic, *head, *documentation_manifest)) ==> (r matches Err(
                R16ContractError::InvalidSnapshot,
            )),
            r matches Ok(g) ==> {
                &&& exists|ds: Seq<Seq<char>>|
                    #[trigger] v9_projection(g.document(), *semantic, *head, *documentation_manifest, *versions, sha256, ds)
                &&& g.canonical_bytes() == crate::json::json_bytes(g.document())
                &&& g.canonical_bytes().len() + 1 <= crate::s4_r16::MAX_R16_PORTABLE_GRAPH_BYTES
                &&& g.digest_function() == sha256
                &&& portable_v9_fault(g.document(), *versions) is None
                &&& exists|ds: Seq<Seq<char>>|
                    crate::portable::family_digests_for(sha256, g.document(), portable_v9_families(), ds) && crate::portable::digests_declared_for(
                        g.document(),
                        portable_v9_families(),
                        ds,
                    )
            },
            crate::s4_r18::deterministic_digest(sha256) ==> (r matches Ok(g) ==> ((constant_projection_outcome(
                g.document(),
                family_ids_v9(g.document(), "claims"@),
                family_ids_v9(g.document(), "evidence"@),
                *rules,
            ) matches Ok(adj) ==> !has_chain_of(adj, (rules.max_dependency_levels + 1) as nat)) ==> v9_value_accepted(
                g.document(),
                *versions,
                *rules,
                sha256,
            ))),
            stored_snapshot_valid && v9_export_inputs(*semantic, *head, *documentation_manifest) && (forall|v: Json, ds: Seq<Seq<char>>|
                #[trigger] v9_projection(v, *semantic, *head, *documentation_manifest, *versions, sha256, ds) ==> v9_value_accepted(
                    v,
                    *versions,
                    *rules,
                    sha256,
                ) && crate::json::json_bytes(v).len() + 1 <= crate::s4_r16::MAX_R16_PORTABLE_GRAPH_BYTES) ==> r is Ok,
    {
        if !stored_snapshot_valid {
            return Err(R16ContractError::InvalidSnapshot);
        }
        if !crate::export::documentation_binding(documentation_manifest, head) {
            return Err(R16ContractError::InvalidSnapshot);
        }
        let graph = match semantic.get("knowledge_graph") {
            Some(g) => g,
            None => return Err(R16ContractError::InvalidSnapshot),
        };
        if graph.as_object().is_none() {
            return Err(R16ContractError::InvalidSnapshot);
        }
        let (documents, statements) = match crate::export::portable_documents(documentation_manifest) {
            Some(p) => p,
            None => return Err(R16ContractError::InvalidSnapshot),
        };
        let repository = match crate::export::copied_member(semantic, "repository") {
            Some(x) => x,
            None => return Err(R16ContractError::InvalidSnapshot),
        };
        let local_flow = match crate::export::copied_member(graph, "local_flow_index") {
            Some(x) => x,
            None => return Err(R16ContractError::InvalidSnapshot),
        };
        let constants = match crate::export::copied_member(graph, "constant_evaluation_index") {
            Some(x) => x,
            None => return Err(R16ContractError::InvalidSnapshot),
        };
        let entities = match crate::export::copied_member(graph, "entities") {
            Some(x) => x,
            None => return Err(R16ContractError::InvalidSnapshot),
        };
        let relationships = match crate::export::copied_member(graph, "relationships") {
            Some(x) => x,
            None => return Err(R16ContractError::InvalidSnapshot),
        };
        let claims = match crate::export::copied_member(graph, "claims") {
            Some(x) => x,
            None => return Err(R16ContractError::InvalidSnapshot),
        };
        let evidence = match crate::export::copied_member(graph, "evidence") {
            Some(x) => x,
            None => return Err(R16ContractError::InvalidSnapshot),
        };
        let diagnostics = match crate::export::copied_member(graph, "diagnostics") {
            Some(x) => x,
            None => return Err(R16ContractError::InvalidSnapshot),
        };
        let coverage = match crate::export::copied_member(graph, "coverage") {
            Some(x) => x,
            None => return Err(R16ContractError::InvalidSnapshot),
        };
        let boundaries = match semantic.get("repository_boundaries") {
            Some(b) => {
                if crate::s4_r12::validate_boundary_projection(b).is_err() {
                    return Err(R16ContractError::InvalidSnapshot);
                }
                Some(json_copy(b))
            },
            None => None,
        };
        let statements_value = Json::Array(statements);
        let documents_value = Json::Array(documents);
        let d0 = crate::export::digest_of_value(&claims, &sha256);
        let d1 = crate::export::digest_of_value(&constants, &sha256);
        let d2 = crate::export::digest_of_value(&coverage, &sha256);
        let d3 = crate::export::digest_of_value(&diagnostics, &sha256);
        let d4 = crate::export::digest_of_value(&statements_value, &sha256);
        let d5 = crate::export::digest_of_value(&documents_value, &sha256);
        let d6 = crate::export::digest_of_value(&entities, &sha256);
        let d7 = crate::export::digest_of_value(&evidence, &sha256);
        let d8 = crate::export::digest_of_value(&local_flow, &sha256);
        let d9 = crate::export::digest_of_value(&relationships, &sha256);
        let ghost ds = seq![d0@, d1@, d2@, d3@, d4@, d5@, d6@, d7@, d8@, d9@];
        let family_sha256 = Json::Object(
            vec![
                entry("claims", Json::Str(d0)),
                entry("constant_evaluation_index", Json::Str(d1)),
                entry("coverage_gaps", Json::Str(d2)),
                entry("diagnostics", Json::Str(d3)),
                entry("document_statements", Json::Str(d4)),
                entry("documents", Json::Str(d5)),
                entry("entities", Json::Str(d6)),
                entry("evidence", Json::Str(d7)),
                entry("local_flow_index", Json::Str(d8)),
                entry("relationships", Json::Str(d9)),
            ],
        );
        let projection = Json::Object(
            vec![
                entry("family_sha256", family_sha256),
                entry("profile", Json::text("codenoesis.lossless-portable-projection/v9")),
            ],
        );
        let semantic_hash = Json::Object(
            vec![
                entry("algorithm", Json::text(head.semantic_hash_algorithm.as_str())),
                entry("value", Json::text(head.semantic_hash.as_str())),
            ],
        );
        let source_snapshot = Json::Object(
            vec![
                entry("schema_version", Json::text(versions.snapshot.as_str())),
                entry("semantic_hash", semantic_hash),
                entry("snapshot_id", Json::text(head.snapshot_id.as_str())),
            ],
        );
        let mut fields = vec![
            entry("claims", claims),
            entry("constant_evaluation_index", constants),
            entry("coverage_gaps", coverage),
            entry("diagnostics", diagnostics),
            entry("document_statements", statements_value),
            entry("documents", documents_value),
            entry("entities", entities),
            entry("evidence", evidence),
            entry("local_flow_index", local_flow),
            entry("ontology_version", Json::text(versions.ontology.as_str())),
            entry("projection", projection),
            entry("query_contract_version", Json::text(versions.query.as_str())),
            entry("relationships", relationships),
            entry("repository", repository),
        ];
        match boundaries {
            Some(b) => fields.push(entry("repository_boundaries", b)),
            None => {},
        }
        fields.push(entry("schema_version", Json::text(versions.portable_graph.as_str())));
        fields.push(entry("source_snapshot", source_snapshot));
        let value = Json::Object(fields);
        proof {
            assert(v9_projection(value, *semantic, *head, *documentation_manifest, *versions, sha256, ds));
        }
        validate_portable_value(&value, versions, rules, &sha256)?;
        let canonical = crate::json::to_bytes(&value);
        let size = if canonical.len() < usize::MAX {
            canonical.len() + 1
        } else {
            usize::MAX
        };
        crate::s4_r16::enforce_portable_size(size)?;
        proof {
            if crate::s4_r18::deterministic_digest(sha256) {
                let ds = choose|ds: Seq<Seq<char>>|
                    crate::portable::family_digests_for(sha256, value, portable_v9_families(), ds)
                        && crate::portable::digests_declared_for(value, portable_v9_families(), ds);
                crate::portable::lemma_declared_for_every_answer(sha256, value, portable_v9_families(), ds);
            }
        }
        Ok(Self { value, canonical, sha256 })
    }

    /// The graph document.
    pub fn value(&self) -> (r: &Json)
        ensures
            *r == self.document(),
    {
        &self.value
    }

    /// The canonical text followed by one LF.
    pub fn canonical_file(&self) -> (r: Vec<u8>)
        ensures
            r@ == self.canonical_bytes().push(10u8),
            r@ == crate::json::json_bytes(self.document()).push(10u8),
    {
        proof {
            use_type_invariant(self);
        }
        let mut bytes = vstd::slice::slice_to_vec(self.canonical.as_slice());
        bytes.push(10u8);
        bytes
    }

    /// The digest of the canonical file.
    pub fn canonical_sha256(&self) -> (r: String)
        requires
            crate::s4_r18::total_digest(self.digest_function()),
        ensures
            crate::s4_r18::digest_of(self.digest_function(), self.canonical_bytes().push(10u8), r@),
    {
        let bytes = self.canonical_file();
        let slice = bytes.as_slice();
        let digest = (self.sha256)(slice);
        proof {
            assert(call_ensures(self.sha256, (slice,), digest));
        }
        digest
    }
}

} // verus!
