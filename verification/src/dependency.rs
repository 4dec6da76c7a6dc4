//! The dependency graph of evaluated constants: each derived entity lists
//! the entities its value depends on, and the graph must be acyclic within a
//! bounded number of levels.
use vstd::prelude::*;
use crate::portable::texts;
use crate::text::text_eq;

verus! {

/// An adjacency list as the contracts see it: each entry is a subject and the
/// subjects it depends on.
pub open spec fn adjacency_view(adjacency: Seq<(String, Vec<String>)>) -> Seq<(Seq<char>, Seq<Seq<char>>)> {
    adjacency.map_values(|e: (String, Vec<String>)| (e.0@, texts(e.1@)))
}

/// The subjects with an entry.
pub open spec fn subjects(adj: Seq<(Seq<char>, Seq<Seq<char>>)>) -> Seq<Seq<char>> {
    adj.map_values(|e: (Seq<char>, Seq<Seq<char>>)| e.0)
}

/// The first entry of `id`, if any.
pub open spec fn entry_of(adj: Seq<(Seq<char>, Seq<Seq<char>>)>, id: Seq<char>) -> Option<int>
    decreases adj.len(),
{
    if adj.len() == 0 {
        None
    } else if adj.last().0 == id && entry_of(adj.drop_last(), id) is None {
        Some(adj.len() - 1)
    } else {
        entry_of(adj.drop_last(), id)
    }
}

/// What `id` depends on: the list of its first entry, or nothing.
pub open spec fn dependencies_of(adj: Seq<(Seq<char>, Seq<Seq<char>>)>, id: Seq<char>) -> Seq<Seq<char>> {
    match entry_of(adj, id) {
        Some(k) => adj[k].1,
        None => Seq::empty(),
    }
}

/// `a` depends directly on `b`.
pub open spec fn depends(adj: Seq<(Seq<char>, Seq<Seq<char>>)>, a: Seq<char>, b: Seq<char>) -> bool {
    dependencies_of(adj, a).contains(b)
}

/// `w` is a chain of direct dependencies (one subject or more).
pub open spec fn is_chain(adj: Seq<(Seq<char>, Seq<Seq<char>>)>, w: Seq<Seq<char>>) -> bool {
    &&& w.len() >= 1
    &&& forall|i: int| 0 <= i < w.len() - 1 ==> depends(adj, #[trigger] w[i], w[i + 1])
}

/// Some subject depends, directly or not, on itself.
pub open spec fn has_cycle(adj: Seq<(Seq<char>, Seq<Seq<char>>)>) -> bool {
    exists|w: Seq<Seq<char>>| #[trigger] is_chain(adj, w) && w.len() >= 2 && w[0] == w.last()
}

/// A chain of `levels` dependency steps starts at a subject with an entry.
pub open spec fn has_chain_of(adj: Seq<(Seq<char>, Seq<Seq<char>>)>, levels: nat) -> bool {
    exists|w: Seq<Seq<char>>|
        #[trigger] is_chain(adj, w) && w.len() == levels + 1 && subjects(adj).contains(w[0])
}

/// The position of the first entry of `id`.
fn find_entry(adjacency: &[(String, Vec<String>)], id: &str) -> (r: Option<usize>)
    ensures
        match entry_of(adjacency_view(adjacency@), id@) {
            Some(k) => r == Some(k as usize),
            None => r is None,
        },
        r matches Some(e) ==> e < adjacency.len() && entry_of(adjacency_view(adjacency@), id@) == Some(
            e as int,
        ),
{
    proof {
        lemma_entry_bounds(adjacency_view(adjacency@), id@);
    }
    let ghost adj = adjacency_view(adjacency@);
    let mut k: usize = 0;
    while k < adjacency.len()
        invariant
            k <= adjacency.len(),
            adj == adjacency_view(adjacency@),
            entry_of(adj.take(k as int), id@) is None,
        decreases adjacency.len() - k,
    {
        assert(adj.take(k + 1).drop_last() =~= adj.take(k as int));
        if text_eq(adjacency[k].0.as_str(), id) {
            proof {
                lemma_entry_prefix(adj, id@, k + 1);
            }
            return Some(k);
        }
        k += 1;
    }
    assert(adj.take(k as int) =~= adj);
    None
}

/// The first entry of `id` lies in the list and has key `id`.
proof fn lemma_entry_bounds(adj: Seq<(Seq<char>, Seq<Seq<char>>)>, id: Seq<char>)
    ensures
        entry_of(adj, id) matches Some(k) ==> 0 <= k < adj.len() && adj[k].0 == id,
    decreases adj.len(),
{
    if adj.len() > 0 {
        lemma_entry_bounds(adj.drop_last(), id);
    }
}

/// The first entry found in a prefix that holds it is the first entry.
proof fn lemma_entry_prefix(adj: Seq<(Seq<char>, Seq<Seq<char>>)>, id: Seq<char>, n: int)
    requires
        0 <= n <= adj.len(),
        entry_of(adj.take(n), id) is Some,
    ensures
        entry_of(adj, id) == entry_of(adj.take(n), id),
    decreases adj.len(),
{
    if n < adj.len() {
        assert(adj.drop_last().take(n) =~= adj.take(n));
        lemma_entry_prefix(adj.drop_last(), id, n);
    } else {
        assert(adj.take(n) =~= adj);
    }
}

fn holds(values: &Vec<String>, id: &str) -> (r: Option<usize>)
    ensures
        match r {
            Some(j) => j < values.len() && texts(values@)[j as int] == id@,
            None => !texts(values@).contains(id@),
        },
{
    let mut j: usize = 0;
    while j < values.len()
        invariant
            j <= values.len(),
            forall|m: int| 0 <= m < j ==> texts(values@)[m] != id@,
        decreases values.len() - j,
    {
        if text_eq(values[j].as_str(), id) {
            return Some(j);
        }
        j += 1;
    }
    None
}

/// Everything a subject of `set` depends on is in `set`.
pub open spec fn closed_under(adj: Seq<(Seq<char>, Seq<Seq<char>>)>, set: Seq<Seq<char>>) -> bool {
    forall|x: Seq<char>, y: Seq<char>| #[trigger] set.contains(x) && #[trigger] depends(adj, x, y) ==> set.contains(y)
}

/// No cycle starts at a subject of `set`.
pub open spec fn cycle_free_from(adj: Seq<(Seq<char>, Seq<Seq<char>>)>, set: Seq<Seq<char>>) -> bool {
    forall|w: Seq<Seq<char>>|
        #[trigger] is_chain(adj, w) && w.len() >= 2 && w[0] == w.last() ==> !set.contains(w[0])
}

/// A chain that starts in a set closed under dependency stays in it.
proof fn lemma_chain_stays(adj: Seq<(Seq<char>, Seq<Seq<char>>)>, set: Seq<Seq<char>>, w: Seq<Seq<char>>, i: int)
    requires
        closed_under(adj, set),
        is_chain(adj, w),
        set.contains(w[0]),
        0 <= i < w.len(),
    ensures
        set.contains(w[i]),
    decreases i,
{
    if i > 0 {
        lemma_chain_stays(adj, set, w, i - 1);
        assert(depends(adj, w[i - 1], w[i]));
    }
}

/// What a sequence extended by one text holds.
proof fn lemma_push_contains(s: Seq<Seq<char>>, a: Seq<char>)
    ensures
        forall|x: Seq<char>| #[trigger] s.push(a).contains(x) <==> (s.contains(x) || x == a),
{
    assert forall|x: Seq<char>| #[trigger] s.push(a).contains(x) <==> (s.contains(x) || x == a) by {
        if s.contains(x) {
            let j = choose|j: int| 0 <= j < s.len() && s[j] == x;
            assert(s.push(a)[j] == x);
        }
        if x == a {
            assert(s.push(a)[s.len() as int] == x);
        }
        if s.push(a).contains(x) {
            let j = choose|j: int| 0 <= j < s.push(a).len() && s.push(a)[j] == x;
            if j < s.len() {
                assert(s[j] == x);
            }
        }
    }
}

/// A subject with dependencies has an entry.
proof fn lemma_depends_has_entry(adj: Seq<(Seq<char>, Seq<Seq<char>>)>, a: Seq<char>, b: Seq<char>)
    requires
        depends(adj, a, b),
    ensures
        subjects(adj).contains(a),
{
    lemma_entry_bounds(adj, a);
    let k = entry_of(adj, a)->Some_0;
    assert(subjects(adj)[k] == a);
}

/// Visits `id`, reached at `depth` along the chain `active` (which ends just
/// before `id`), and everything it depends on.
fn visit(
    id: &str,
    depth: u64,
    adjacency: &[(String, Vec<String>)],
    max_levels: u64,
    active: &mut Vec<String>,
    complete: &mut Vec<String>,
) -> (r: Result<(), crate::s4_r16::R16ContractError>)
    requires
        max_levels < u64::MAX,
        depth <= max_levels + 1,
        old(active)@.len() == depth,
        is_chain(adjacency_view(adjacency@), texts(old(active)@).push(id@)),
        subjects(adjacency_view(adjacency@)).contains(texts(old(active)@).push(id@)[0]),
        closed_under(adjacency_view(adjacency@), texts(old(complete)@)),
        cycle_free_from(adjacency_view(adjacency@), texts(old(complete)@)),
        forall|x: Seq<char>| texts(old(active)@).contains(x) ==> !texts(old(complete)@).contains(x),
    ensures
        r is Err ==> !(r->Err_0.fault() is Other),
        r is Ok ==> final(active)@ == old(active)@,
        r is Ok ==> {
            &&& texts(final(complete)@).contains(id@)
            &&& forall|x: Seq<char>| texts(old(complete)@).contains(x) ==> texts(final(complete)@).contains(x)
            &&& closed_under(adjacency_view(adjacency@), texts(final(complete)@))
            &&& cycle_free_from(adjacency_view(adjacency@), texts(final(complete)@))
            &&& forall|x: Seq<char>| texts(old(active)@).contains(x) ==> !texts(final(complete)@).contains(x)
        },
        r matches Err(crate::s4_r16::R16ContractError::LimitExceeded { limit, maximum, observed }) ==> (
        limit@ == "dependency_levels"@ && maximum == max_levels && observed == max_levels + 1
            && has_chain_of(adjacency_view(adjacency@), (max_levels + 1) as nat)),
        r matches Err(crate::s4_r16::R16ContractError::InvalidProjection) ==> has_cycle(
            adjacency_view(adjacency@),
        ),
        r is Err ==> (r matches Err(crate::s4_r16::R16ContractError::LimitExceeded { .. }) || r matches Err(
            crate::s4_r16::R16ContractError::InvalidProjection,
        )),
    decreases max_levels + 1 - depth,
{
    let ghost adj = adjacency_view(adjacency@);
    let ghost chain = texts(active@).push(id@);
    if depth > max_levels {
        assert(is_chain(adj, chain) && chain.len() == max_levels + 2 && subjects(adj).contains(chain[0]));
        return Err(
            crate::s4_r16::R16ContractError::LimitExceeded {
                limit: "dependency_levels",
                maximum: max_levels,
                observed: depth,
            },
        );
    }
    match holds(complete, id) {
        Some(j) => {
            assert(texts(complete@)[j as int] == id@);
            return Ok(());
        },
        None => {},
    }
    let ghost start_complete = texts(complete@);
    match holds(active, id) {
        Some(j) => {
            proof {
                let cycle = chain.subrange(j as int, chain.len() as int);
                assert forall|i: int| 0 <= i < cycle.len() - 1 implies depends(
                    adj,
                    #[trigger] cycle[i],
                    cycle[i + 1],
                ) by {
                    assert(cycle[i] == chain[j + i] && cycle[i + 1] == chain[j + i + 1]);
                }
                assert(cycle[0] == chain[j as int]);
                assert(is_chain(adj, cycle) && cycle.len() >= 2 && cycle[0] == cycle.last());
            }
            return Err(crate::s4_r16::R16ContractError::InvalidProjection);
        },
        None => {},
    }
    let ghost before = active@;
    let own = id.to_owned();
    active.push(own);
    assert(texts(active@) =~= chain);
    proof {
        lemma_push_contains(texts(before), id@);
    }
    match find_entry(adjacency, id) {
        Some(e) => {
            let deps = &adjacency[e].1;
            let mut k: usize = 0;
            while k < deps.len()
                invariant
                    k <= deps.len(),
                    max_levels < u64::MAX,
                    depth <= max_levels,
                    adj == adjacency_view(adjacency@),
                    e < adjacency.len(),
                    *deps == adjacency@[e as int].1,
                    entry_of(adj, id@) == Some(e as int),
                    texts(active@) == chain,
                    active@.len() == depth + 1,
                    active@ == before.push(own),
                    is_chain(adj, chain),
                    subjects(adj).contains(chain[0]),
                    chain.last() == id@,
                    !start_complete.contains(id@),
                    forall|x: Seq<char>| start_complete.contains(x) ==> texts(complete@).contains(x),
                    closed_under(adj, texts(complete@)),
                    cycle_free_from(adj, texts(complete@)),
                    forall|x: Seq<char>| chain.contains(x) ==> !texts(complete@).contains(x),
                    forall|x: Seq<char>| texts(before).contains(x) ==> !start_complete.contains(x),
                    forall|j: int| 0 <= j < k ==> texts(complete@).contains(#[trigger] texts(deps@)[j]),
                decreases deps.len() - k,
            {
                let ghost next = chain.push(deps@[k as int]@);
                proof {
                    assert(adj[e as int].1 == texts(deps@));
                    assert(dependencies_of(adj, id@) == texts(deps@));
                    assert(texts(deps@)[k as int] == deps@[k as int]@);
                    assert(depends(adj, id@, deps@[k as int]@));
                    assert forall|i: int| 0 <= i < next.len() - 1 implies depends(
                        adj,
                        #[trigger] next[i],
                        next[i + 1],
                    ) by {
                        if i < chain.len() - 1 {
                            assert(next[i] == chain[i] && next[i + 1] == chain[i + 1]);
                        }
                    }
                    assert(next[0] == chain[0]);
                }
                let ghost mid = texts(complete@);
                visit(deps[k].as_str(), depth + 1, adjacency, max_levels, active, complete)?;
                proof {
                    assert(texts(complete@).contains(texts(deps@)[k as int]));
                }
                k += 1;
            }
            proof {
                assert forall|y: Seq<char>| depends(adj, id@, y) implies texts(complete@).contains(y) by {
                    assert(dependencies_of(adj, id@) == texts(deps@));
                    let j = choose|j: int| 0 <= j < texts(deps@).len() && texts(deps@)[j] == y;
                    assert(texts(complete@).contains(texts(deps@)[j]));
                }
            }
        },
        None => {
            proof {
                assert forall|y: Seq<char>| depends(adj, id@, y) implies texts(complete@).contains(y) by {
                    assert(dependencies_of(adj, id@) =~= Seq::<Seq<char>>::empty());
                }
                assert forall|x: Seq<char>| chain.contains(x) implies !texts(complete@).contains(x) by {
                    if x != id@ {
                        assert(texts(before).contains(x));
                    }
                }
            }
        },
    }
    active.pop();
    assert(active@ =~= before);
    let ghost done = texts(complete@);
    proof {
        assert(chain.contains(id@)) by {
            assert(chain[chain.len() - 1] == id@);
        }
        assert(!done.contains(id@));
    }
    let own = id.to_owned();
    complete.push(own);
    proof {
        let now = texts(complete@);
        assert(now =~= done.push(id@));
        lemma_push_contains(done, id@);
        assert forall|x: Seq<char>, y: Seq<char>| #[trigger] now.contains(x) && #[trigger] depends(adj, x, y)
            implies now.contains(y) by {
            if x == id@ {
                assert(done.contains(y));
            } else {
                assert(done.contains(x));
            }
        }
        assert forall|w: Seq<Seq<char>>| #[trigger] is_chain(adj, w) && w.len() >= 2 && w[0] == w.last()
            implies !now.contains(w[0]) by {
            if w[0] == id@ {
                let rest = w.drop_first();
                assert(depends(adj, w[0], w[1]));
                assert(done.contains(w[1]));
                assert forall|i: int| 0 <= i < rest.len() - 1 implies depends(adj, #[trigger] rest[i], rest[i + 1]) by {
                    assert(rest[i] == w[i + 1] && rest[i + 1] == w[i + 2]);
                }
                assert(is_chain(adj, rest));
                lemma_chain_stays(adj, done, rest, rest.len() - 1);
                assert(rest[rest.len() - 1] == w.last());
            } else {
                assert(!done.contains(w[0]));
            }
        }
        assert forall|x: Seq<char>| texts(before).contains(x) implies !now.contains(x) by {
            assert(chain.contains(x));
        }
        assert forall|x: Seq<char>| start_complete.contains(x) implies now.contains(x) by {
            assert(done.contains(x));
        }
    }
    Ok(())
}

/// Checks that no subject depends on itself and that the walk from each
/// subject, in order, stays within `max_levels` levels. A cycle met first is
/// `InvalidProjection`; a level beyond the maximum met first is
/// `LimitExceeded` (`dependency_levels`). A subject reached again after it
/// was fully explored is not walked again.
pub fn validate_constant_acyclic(adjacency: &[(String, Vec<String>)], max_levels: u64) -> (r: Result<
    (),
    crate::s4_r16::R16ContractError,
>)
    requires
        max_levels < u64::MAX,
    ensures
        r is Err ==> !(r->Err_0.fault() is Other),
        r matches Err(crate::s4_r16::R16ContractError::LimitExceeded { limit, maximum, observed }) ==> (
        limit@ == "dependency_levels"@ && maximum == max_levels && observed == max_levels + 1
            && has_chain_of(adjacency_view(adjacency@), (max_levels + 1) as nat)),
        r matches Err(crate::s4_r16::R16ContractError::InvalidProjection) ==> has_cycle(
            adjacency_view(adjacency@),
        ),
        r is Err ==> (r matches Err(crate::s4_r16::R16ContractError::LimitExceeded { .. }) || r matches Err(
            crate::s4_r16::R16ContractError::InvalidProjection,
        )),
        !has_cycle(adjacency_view(adjacency@)) && !has_chain_of(
            adjacency_view(adjacency@),
            (max_levels + 1) as nat,
        ) ==> r is Ok,
        r is Ok ==> !has_cycle(adjacency_view(adjacency@)),
{
    let ghost adj = adjacency_view(adjacency@);
    let mut complete: Vec<String> = Vec::new();
    let mut k: usize = 0;
    assert(texts(complete@) =~= Seq::<Seq<char>>::empty());
    while k < adjacency.len()
        invariant
            k <= adjacency.len(),
            max_levels < u64::MAX,
            adj == adjacency_view(adjacency@),
            closed_under(adj, texts(complete@)),
            cycle_free_from(adj, texts(complete@)),
            forall|m: int| 0 <= m < k ==> texts(complete@).contains(#[trigger] subjects(adj)[m]),
        decreases adjacency.len() - k,
    {
        let mut active: Vec<String> = Vec::new();
        proof {
            let w = texts(active@).push(adjacency@[k as int].0@);
            assert(w =~= seq![adjacency@[k as int].0@]);
            assert(subjects(adj)[k as int] == adjacency@[k as int].0@);
            assert(subjects(adj).contains(w[0]));
        }
        assert(texts(active@) =~= Seq::<Seq<char>>::empty());
        let ghost prior = texts(complete@);
        visit(adjacency[k].0.as_str(), 0, adjacency, max_levels, &mut active, &mut complete)?;
        proof {
            assert forall|m: int| 0 <= m < k + 1 implies texts(complete@).contains(#[trigger] subjects(adj)[m]) by {
                if m < k {
                    assert(prior.contains(subjects(adj)[m]));
                }
            }
        }
        k += 1;
    }
    proof {
        assert forall|w: Seq<Seq<char>>| is_chain(adj, w) && w.len() >= 2 implies w[0] != w.last() by {
            assert(depends(adj, w[0], w[1]));
            lemma_depends_has_entry(adj, w[0], w[1]);
            let m = choose|m: int| 0 <= m < subjects(adj).len() && subjects(adj)[m] == w[0];
            assert(texts(complete@).contains(subjects(adj)[m]));
        }
    }
    Ok(())
}

} // verus!
