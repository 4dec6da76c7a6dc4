//! Reachability over the directed edges of a portable graph.
use vstd::prelude::*;
use crate::portable::texts;
use crate::text::text_eq;
use crate::textset::{insert_text, lemma_sorted_no_duplicates, sorted_texts};

verus! {

/// There is an edge from `a` to `b`.
pub open spec fn edge(edges: Seq<(Seq<char>, Seq<char>)>, a: Seq<char>, b: Seq<char>) -> bool {
    exists|k: int| 0 <= k < edges.len() && (#[trigger] edges[k]).0 == a && edges[k].1 == b
}

/// `w` is a walk of at least one edge.
pub open spec fn is_walk(edges: Seq<(Seq<char>, Seq<char>)>, w: Seq<Seq<char>>) -> bool {
    &&& w.len() >= 2
    &&& forall|i: int| 0 <= i < w.len() - 1 ==> edge(edges, #[trigger] w[i], w[i + 1])
}

/// `to` is reached from `from` by a walk of one edge or more.
pub open spec fn reachable(edges: Seq<(Seq<char>, Seq<char>)>, from: Seq<char>, to: Seq<char>) -> bool {
    exists|w: Seq<Seq<char>>| #[trigger] is_walk(edges, w) && w[0] == from && w.last() == to
}

/// The targets of the edges.
pub open spec fn edge_targets(edges: Seq<(Seq<char>, Seq<char>)>) -> Seq<Seq<char>> {
    edges.map_values(|e: (Seq<char>, Seq<char>)| e.1)
}

/// The texts of a list of edges.
pub open spec fn pair_views(edges: Seq<(String, String)>) -> Seq<(Seq<char>, Seq<char>)> {
    edges.map_values(|e: (String, String)| (e.0@, e.1@))
}

/// A walk extended by one edge is a walk.
pub proof fn lemma_reachable_step(
    edges: Seq<(Seq<char>, Seq<char>)>,
    from: Seq<char>,
    mid: Seq<char>,
    to: Seq<char>,
)
    requires
        mid == from || reachable(edges, from, mid),
        edge(edges, mid, to),
    ensures
        reachable(edges, from, to),
{
    if reachable(edges, from, mid) {
        let w = choose|w: Seq<Seq<char>>| #[trigger] is_walk(edges, w) && w[0] == from && w.last() == mid;
        let v = w.push(to);
        assert forall|i: int| 0 <= i < v.len() - 1 implies edge(edges, #[trigger] v[i], v[i + 1]) by {
            if i < w.len() - 1 {
                assert(v[i] == w[i] && v[i + 1] == w[i + 1]);
            } else {
                assert(v[i] == mid && v[i + 1] == to);
            }
        }
        assert(is_walk(edges, v));
    } else {
        let v = seq![from, to];
        assert(v[0] == from && v[1] == to);
        assert(is_walk(edges, v));
    }
}

/// Each vertex after the first of a walk from `from` lies in a set that holds
/// the successors of `from` and of each of its own members.
proof fn lemma_closed_holds_walk(
    edges: Seq<(Seq<char>, Seq<char>)>,
    from: Seq<char>,
    set: Seq<Seq<char>>,
    w: Seq<Seq<char>>,
    i: int,
)
    requires
        forall|u: Seq<char>, y: Seq<char>|
            (u == from || set.contains(u)) && #[trigger] edge(edges, u, y) ==> set.contains(y),
        is_walk(edges, w),
        w[0] == from,
        1 <= i < w.len(),
    ensures
        set.contains(w[i]),
    decreases i,
{
    assert(edge(edges, w[i - 1], w[i]));
    if i > 1 {
        lemma_closed_holds_walk(edges, from, set, w, i - 1);
    }
}

/// A set that holds the successors of `from` and of each of its own members
/// holds everything reachable from `from`.
pub proof fn lemma_closed_holds_reachable(
    edges: Seq<(Seq<char>, Seq<char>)>,
    from: Seq<char>,
    set: Seq<Seq<char>>,
    to: Seq<char>,
)
    requires
        forall|u: Seq<char>, y: Seq<char>|
            (u == from || set.contains(u)) && #[trigger] edge(edges, u, y) ==> set.contains(y),
        reachable(edges, from, to),
    ensures
        set.contains(to),
{
    let w = choose|w: Seq<Seq<char>>| #[trigger] is_walk(edges, w) && w[0] == from && w.last() == to;
    lemma_closed_holds_walk(edges, from, set, w, w.len() - 1);
}

/// Everything reachable from `start` by one edge or more, in increasing
/// order (`start` itself only when it lies on a cycle).
#[verifier::spinoff_prover]
#[verifier::rlimit(50)]
pub fn reachable_from(start: &str, edges: &[(String, String)]) -> (r: Vec<String>)
    ensures
        sorted_texts(texts(r@)),
        forall|x: Seq<char>| #[trigger] texts(r@).contains(x) <==> reachable(pair_views(edges@), start@, x),
{
    let ghost es = pair_views(edges@);
    let mut values: Vec<String> = Vec::new();
    let mut pending: Vec<String> = Vec::new();
    pending.push(start.to_owned());
    let mut head: usize = 0;
    proof {
        edge_targets(es).lemma_cardinality_of_set();
    }
    while head < pending.len()
        invariant
            es == pair_views(edges@),
            head <= pending.len(),
            pending@.len() == values@.len() + 1,
            pending@[0]@ == start@,
            values@.len() <= es.len(),
            edge_targets(es).to_set().len() <= es.len(),
            sorted_texts(texts(values@)),
            forall|i: int| 1 <= i < pending@.len() ==> texts(values@).contains(#[trigger] pending@[i]@),
            forall|x: Seq<char>| #[trigger]
                texts(values@).contains(x) ==> exists|i: int|
                    1 <= i < pending@.len() && #[trigger] pending@[i]@ == x,
            forall|x: Seq<char>| #[trigger]
                texts(values@).contains(x) ==> reachable(es, start@, x),
            forall|x: Seq<char>| #[trigger]
                texts(values@).contains(x) ==> edge_targets(es).contains(x),
            forall|i: int, y: Seq<char>|
                0 <= i < head && #[trigger] edge(es, pending@[i]@, y) ==> texts(values@).contains(y),
        decreases es.len() + 1 - head,
    {
        let current = pending[head].as_str().to_owned();
        let ghost current_index = head as int;
        proof {
            if head > 0 {
                assert(texts(values@).contains(pending@[current_index]@));
            }
        }
        let mut k: usize = 0;
        while k < edges.len()
            invariant
                es == pair_views(edges@),
                k <= edges.len(),
                head < pending@.len(),
                current@ == pending@[current_index]@,
                current_index == head,
                pending@.len() == values@.len() + 1,
                pending@[0]@ == start@,
                edge_targets(es).to_set().len() <= es.len(),
                sorted_texts(texts(values@)),
                current@ == start@ || reachable(es, start@, current@),
                forall|i: int| 1 <= i < pending@.len() ==> texts(values@).contains(#[trigger] pending@[i]@),
                forall|x: Seq<char>| #[trigger]
                    texts(values@).contains(x) ==> exists|i: int|
                        1 <= i < pending@.len() && #[trigger] pending@[i]@ == x,
                forall|x: Seq<char>| #[trigger]
                    texts(values@).contains(x) ==> reachable(es, start@, x),
                forall|x: Seq<char>| #[trigger]
                    texts(values@).contains(x) ==> edge_targets(es).contains(x),
                forall|i: int, y: Seq<char>|
                    0 <= i < head && #[trigger] edge(es, pending@[i]@, y) ==> texts(values@).contains(y),
                forall|j: int|
                    0 <= j < k && (#[trigger] es[j]).0 == current@ ==> texts(values@).contains(es[j].1),
            decreases edges.len() - k,
        {
            if text_eq(edges[k].0.as_str(), current.as_str()) {
                let target = edges[k].1.as_str();
                let ghost before_values = values@;
                let ghost before_pending = pending@;
                proof {
                    assert(es[k as int] == (edges@[k as int].0@, edges@[k as int].1@));
                    assert(edge(es, current@, target@));
                    lemma_reachable_step(es, start@, current@, target@);
                    assert(edge_targets(es)[k as int] == target@);
                }
                if insert_text(&mut values, target) {
                    pending.push(target.to_owned());
                    proof {
                        assert(pending@[pending@.len() - 1]@ == target@);
                        assert forall|x: Seq<char>| #[trigger]
                            texts(values@).contains(x) implies exists|i: int|
                                1 <= i < pending@.len() && #[trigger] pending@[i]@ == x by {
                            if x == target@ {
                                assert(pending@[pending@.len() - 1]@ == x);
                            } else {
                                let i = choose|i: int|
                                    1 <= i < before_pending.len() && #[trigger] before_pending[i]@ == x;
                                assert(pending@[i] == before_pending[i]);
                            }
                        }
                        assert forall|i: int| 1 <= i < pending@.len() implies texts(values@).contains(
                            #[trigger] pending@[i]@,
                        ) by {
                            if i < before_pending.len() {
                                assert(pending@[i] == before_pending[i]);
                                assert(texts(before_values).contains(before_pending[i]@));
                            }
                        }
                    }
                }
                proof {
                    assert(pending@[current_index] == before_pending[current_index]);
                    assert(pending@[0] == before_pending[0]);
                    assert forall|i: int, y: Seq<char>|
                        0 <= i < head && #[trigger] edge(es, pending@[i]@, y) implies texts(
                        values@,
                    ).contains(y) by {
                        assert(pending@[i] == before_pending[i]);
                        assert(texts(before_values).contains(y));
                    }
                    assert forall|j: int|
                        0 <= j < k + 1 && (#[trigger] es[j]).0 == current@ implies texts(
                        values@,
                    ).contains(es[j].1) by {
                        if j < k {
                            assert(texts(before_values).contains(es[j].1));
                        }
                    }
                }
            }
            k += 1;
        }
        proof {
            assert forall|i: int, y: Seq<char>|
                0 <= i < head + 1 && #[trigger] edge(es, pending@[i]@, y) implies texts(
                values@,
            ).contains(y) by {
                if i == head {
                    let j = choose|j: int|
                        0 <= j < es.len() && (#[trigger] es[j]).0 == pending@[i]@
                            && es[j].1 == y;
                    assert(es[j].0 == current@);
                }
            }
            let vs = texts(values@);
            lemma_sorted_no_duplicates(vs);
            vs.unique_seq_to_set();
            assert forall|x: Seq<char>| vs.to_set().contains(x) implies edge_targets(
                es,
            ).to_set().contains(x) by {
                assert(vs.contains(x));
            }
            vstd::set_lib::lemma_len_subset(vs.to_set(), edge_targets(es).to_set());
        }
        head += 1;
    }
    proof {
        assert forall|x: Seq<char>| #[trigger] texts(values@).contains(x) <==> reachable(
            es,
            start@,
            x,
        ) by {
            if reachable(es, start@, x) {
                assert forall|u: Seq<char>, y: Seq<char>|
                    (u == start@ || texts(values@).contains(u)) && #[trigger] edge(
                        es,
                        u,
                        y,
                    ) implies texts(values@).contains(y) by {
                    if u == start@ {
                        assert(edge(es, pending@[0]@, y));
                    } else {
                        let i = choose|i: int| 1 <= i < pending@.len() && #[trigger] pending@[i]@ == u;
                        assert(edge(es, pending@[i]@, y));
                    }
                }
                lemma_closed_holds_reachable(es, start@, texts(values@), x);
            }
        }
    }
    values
}

} // verus!
