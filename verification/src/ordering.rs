//! Sorting records by a key: an optional rank, then an optional text, each
//! with `None` first, as `Option<u64>` and `Option<&str>` order.
use vstd::prelude::*;
use crate::json::Json;
use crate::text::{text_less, text_lt};
use crate::textset::{lemma_text_lt_irreflexive, lemma_text_lt_total, lemma_text_lt_transitive};

verus! {

/// The key a record is sorted by.
#[derive(Debug)]
pub struct SortKey {
    pub rank: Option<u64>,
    pub text: Option<String>,
}

/// A key as the contracts see it.
pub open spec fn key_view(k: SortKey) -> (Option<u64>, Option<Seq<char>>) {
    (
        k.rank,
        match k.text {
            Some(t) => Some(t@),
            None => None,
        },
    )
}

/// The order of optional texts: `None` first, then [`text_lt`].
pub open spec fn text_opt_lt(a: Option<Seq<char>>, b: Option<Seq<char>>) -> bool {
    match (a, b) {
        (None, Some(_)) => true,
        (Some(x), Some(y)) => text_lt(x, y),
        _ => false,
    }
}

/// The order of keys: by rank (`None` first), then by text.
pub open spec fn key_lt(a: (Option<u64>, Option<Seq<char>>), b: (Option<u64>, Option<Seq<char>>)) -> bool {
    match (a.0, b.0) {
        (None, Some(_)) => true,
        (Some(_), None) => false,
        (Some(x), Some(y)) => x < y || (x == y && text_opt_lt(a.1, b.1)),
        (None, None) => text_opt_lt(a.1, b.1),
    }
}

/// No key is below itself.
pub proof fn lemma_key_lt_irreflexive(a: (Option<u64>, Option<Seq<char>>))
    ensures
        !key_lt(a, a),
{
    if let Some(t) = a.1 {
        lemma_text_lt_irreflexive(t);
    }
}

/// The order of keys is transitive.
pub proof fn lemma_key_lt_transitive(
    a: (Option<u64>, Option<Seq<char>>),
    b: (Option<u64>, Option<Seq<char>>),
    c: (Option<u64>, Option<Seq<char>>),
)
    requires
        key_lt(a, b),
        key_lt(b, c),
    ensures
        key_lt(a, c),
{
    if let (Some(x), Some(y), Some(z)) = (a.1, b.1, c.1) {
        if text_lt(x, y) && text_lt(y, z) {
            lemma_text_lt_transitive(x, y, z);
        }
    }
}

/// Of two different keys, one is below the other.
pub proof fn lemma_key_lt_total(a: (Option<u64>, Option<Seq<char>>), b: (Option<u64>, Option<Seq<char>>))
    requires
        a != b,
    ensures
        key_lt(a, b) || key_lt(b, a),
{
    if let (Some(x), Some(y)) = (a.1, b.1) {
        if x != y {
            lemma_text_lt_total(x, y);
        }
    }
}

/// The keys of keyed records.
pub open spec fn keys_of(s: Seq<(SortKey, Json)>) -> Seq<(Option<u64>, Option<Seq<char>>)> {
    s.map_values(|p: (SortKey, Json)| key_view(p.0))
}

/// No later key is below an earlier one.
pub open spec fn ordered_keys(keys: Seq<(Option<u64>, Option<Seq<char>>)>) -> bool {
    forall|i: int, j: int| 0 <= i < j < keys.len() ==> !key_lt(#[trigger] keys[j], #[trigger] keys[i])
}

/// Whether `a` is below `b` ([`key_lt`]).
pub fn key_less(a: &SortKey, b: &SortKey) -> (r: bool)
    ensures
        r == key_lt(key_view(*a), key_view(*b)),
{
    let texts_less = match (&a.text, &b.text) {
        (None, Some(_)) => true,
        (Some(x), Some(y)) => text_less(x.as_str(), y.as_str()),
        _ => false,
    };
    match (a.rank, b.rank) {
        (None, Some(_)) => true,
        (Some(_), None) => false,
        (Some(x), Some(y)) => x < y || (x == y && texts_less),
        (None, None) => texts_less,
    }
}

/// Whether two keys are the same key.
pub fn key_equal(a: &SortKey, b: &SortKey) -> (r: bool)
    ensures
        r == (key_view(*a) == key_view(*b)),
{
    let texts_equal = match (&a.text, &b.text) {
        (None, None) => true,
        (Some(x), Some(y)) => crate::text::text_eq(x.as_str(), y.as_str()),
        _ => false,
    };
    a.rank == b.rank && texts_equal
}

/// `perm` places the records of `original` at the positions of `sorted`:
/// each position of `sorted` holds a different position's record.
pub open spec fn is_arrangement<T>(sorted: Seq<T>, original: Seq<T>, perm: Seq<int>) -> bool {
    &&& sorted.len() == original.len()
    &&& perm.len() == sorted.len()
    &&& forall|k: int| 0 <= k < perm.len() ==> 0 <= #[trigger] perm[k] < original.len()
    &&& forall|k: int| 0 <= k < perm.len() ==> #[trigger] sorted[k] == original[perm[k]]
    &&& forall|i: int, j: int| 0 <= i < j < perm.len() ==> #[trigger] perm[i] != #[trigger] perm[j]
}

/// Sorts keyed records by key: the result arranges the same records
/// ([`is_arrangement`], the arrangement returned beside it) and no later key
/// is below an earlier one.
pub fn sort_keyed(items: Vec<(SortKey, Json)>) -> (r: (Vec<(SortKey, Json)>, Ghost<Seq<int>>))
    ensures
        is_arrangement(r.0@, items@, r.1@),
        ordered_keys(keys_of(r.0@)),
{
    let ghost original = items@;
    let ghost mut rest_idx: Seq<int> = Seq::new(items@.len(), |k: int| k);
    let ghost mut out_idx: Seq<int> = Seq::empty();
    let mut rest = items;
    let mut out: Vec<(SortKey, Json)> = Vec::new();
    while rest.len() > 0
        invariant
            out@.len() + rest@.len() == original.len(),
            rest_idx.len() == rest@.len(),
            out_idx.len() == out@.len(),
            forall|k: int| 0 <= k < rest@.len() ==> 0 <= #[trigger] rest_idx[k] < original.len(),
            forall|k: int| 0 <= k < out@.len() ==> 0 <= #[trigger] out_idx[k] < original.len(),
            forall|k: int| 0 <= k < rest@.len() ==> #[trigger] rest@[k] == original[rest_idx[k]],
            forall|k: int| 0 <= k < out@.len() ==> #[trigger] out@[k] == original[out_idx[k]],
            forall|i: int, j: int| 0 <= i < j < rest_idx.len() ==> #[trigger] rest_idx[i] != #[trigger] rest_idx[j],
            forall|i: int, j: int| 0 <= i < j < out_idx.len() ==> #[trigger] out_idx[i] != #[trigger] out_idx[j],
            forall|i: int, j: int|
                0 <= i < out_idx.len() && 0 <= j < rest_idx.len() ==> #[trigger] out_idx[i] != #[trigger] rest_idx[j],
            ordered_keys(keys_of(out@)),
            forall|i: int, j: int|
                0 <= i < out@.len() && 0 <= j < rest@.len() ==> !key_lt(
                    key_view(#[trigger] rest@[j].0),
                    key_view(#[trigger] out@[i].0),
                ),
        decreases rest@.len(),
    {
        let mut m: usize = 0;
        let mut k: usize = 1;
        proof {
            lemma_key_lt_irreflexive(key_view(rest@[0].0));
        }
        while k < rest.len()
            invariant
                0 <= m < k <= rest@.len(),
                forall|j: int| 0 <= j < k ==> !key_lt(key_view(#[trigger] rest@[j].0), key_view(rest@[m as int].0)),
            decreases rest@.len() - k,
        {
            if key_less(&rest[k].0, &rest[m].0) {
                proof {
                    assert forall|j: int| 0 <= j < k + 1 implies !key_lt(
                        key_view(#[trigger] rest@[j].0),
                        key_view(rest@[k as int].0),
                    ) by {
                        if j < k && key_lt(key_view(rest@[j].0), key_view(rest@[k as int].0)) {
                            lemma_key_lt_transitive(
                                key_view(rest@[j].0),
                                key_view(rest@[k as int].0),
                                key_view(rest@[m as int].0),
                            );
                        }
                        if j == k {
                            lemma_key_lt_irreflexive(key_view(rest@[k as int].0));
                        }
                    }
                }
                m = k;
            }
            k += 1;
        }
        let ghost before_rest = rest@;
        let ghost before_out = out@;
        let ghost before_rest_idx = rest_idx;
        let ghost before_out_idx = out_idx;
        let least = rest.remove(m);
        out.push(least);
        proof {
            rest_idx = before_rest_idx.remove(m as int);
            out_idx = before_out_idx.push(before_rest_idx[m as int]);
            assert forall|k: int| 0 <= k < rest@.len() implies #[trigger] rest@[k] == original[rest_idx[k]] by {
                let kk = if k < m { k } else { k + 1 };
                assert(rest@[k] == before_rest[kk]);
                assert(rest_idx[k] == before_rest_idx[kk]);
            }
            assert forall|k: int| 0 <= k < rest@.len() implies 0 <= #[trigger] rest_idx[k] < original.len() by {
                let kk = if k < m { k } else { k + 1 };
                assert(rest_idx[k] == before_rest_idx[kk]);
            }
            assert forall|k: int| 0 <= k < out@.len() implies #[trigger] out@[k] == original[out_idx[k]] by {
                if k < before_out.len() {
                    assert(out@[k] == before_out[k]);
                }
            }
            assert forall|i: int, j: int| 0 <= i < j < rest_idx.len() implies #[trigger] rest_idx[i]
                != #[trigger] rest_idx[j] by {
                let ii = if i < m { i } else { i + 1 };
                let jj = if j < m { j } else { j + 1 };
                assert(rest_idx[i] == before_rest_idx[ii]);
                assert(rest_idx[j] == before_rest_idx[jj]);
            }
            assert forall|i: int, j: int| 0 <= i < j < out_idx.len() implies #[trigger] out_idx[i]
                != #[trigger] out_idx[j] by {
                if j == out_idx.len() - 1 {
                    assert(out_idx[j] == before_rest_idx[m as int]);
                    assert(out_idx[i] == before_out_idx[i]);
                }
            }
            assert forall|i: int, j: int| 0 <= i < out_idx.len() && 0 <= j < rest_idx.len() implies #[trigger] out_idx[i]
                != #[trigger] rest_idx[j] by {
                let jj = if j < m { j } else { j + 1 };
                assert(rest_idx[j] == before_rest_idx[jj]);
                if i < before_out_idx.len() {
                    assert(out_idx[i] == before_out_idx[i]);
                } else {
                    assert(out_idx[i] == before_rest_idx[m as int]);
                }
            }
            assert forall|i: int, j: int| 0 <= i < j < keys_of(out@).len() implies !key_lt(
                #[trigger] keys_of(out@)[j],
                #[trigger] keys_of(out@)[i],
            ) by {
                if j == out@.len() - 1 {
                    assert(keys_of(out@)[j] == key_view(before_rest[m as int].0));
                    assert(keys_of(out@)[i] == key_view(before_out[i].0));
                } else {
                    assert(keys_of(out@)[j] == keys_of(before_out)[j]);
                    assert(keys_of(out@)[i] == keys_of(before_out)[i]);
                }
            }
            assert forall|i: int, j: int| 0 <= i < out@.len() && 0 <= j < rest@.len() implies !key_lt(
                key_view(#[trigger] rest@[j].0),
                key_view(#[trigger] out@[i].0),
            ) by {
                let jj = if j < m { j } else { j + 1 };
                assert(rest@[j] == before_rest[jj]);
                if i < before_out.len() {
                    assert(out@[i] == before_out[i]);
                } else {
                    assert(out@[i] == before_rest[m as int]);
                }
            }
        }
    }
    (out, Ghost(out_idx))
}

/// Some two adjacent keys are the same key.
pub open spec fn has_adjacent_equal_keys(keys: Seq<(Option<u64>, Option<Seq<char>>)>) -> bool {
    exists|i: int| 0 <= i < keys.len() - 1 && #[trigger] keys[i] == keys[i + 1]
}

/// Whether two adjacent keys of `items` are the same key.
pub fn adjacent_equal_keys(items: &Vec<(SortKey, Json)>) -> (r: bool)
    ensures
        r == has_adjacent_equal_keys(keys_of(items@)),
{
    let mut i: usize = 0;
    while i < items.len() && i + 1 < items.len()
        invariant
            forall|j: int| 0 <= j < i && j < items@.len() - 1 ==> #[trigger] keys_of(items@)[j] != keys_of(items@)[j + 1],
        decreases items.len() - i,
    {
        if key_equal(&items[i].0, &items[i + 1].0) {
            assert(keys_of(items@)[i as int] == keys_of(items@)[i + 1]);
            return true;
        }
        i += 1;
    }
    false
}

/// Ordered keys with no two adjacent equal ones are strictly increasing.
pub proof fn lemma_ordered_distinct_increasing(keys: Seq<(Option<u64>, Option<Seq<char>>)>)
    requires
        ordered_keys(keys),
        !has_adjacent_equal_keys(keys),
    ensures
        forall|i: int, j: int| 0 <= i < j < keys.len() ==> key_lt(#[trigger] keys[i], #[trigger] keys[j]),
    decreases keys.len(),
{
    assert forall|i: int, j: int| 0 <= i < j < keys.len() implies key_lt(#[trigger] keys[i], #[trigger] keys[j]) by {
        assert(!key_lt(keys[j], keys[i]));
        if keys[i] == keys[j] {
            // Every key between them equals them, so two adjacent ones are equal.
            assert(!key_lt(keys[i + 1], keys[i]));
            assert(!key_lt(keys[j], keys[i + 1]));
            if keys[i + 1] != keys[i] {
                lemma_key_lt_total(keys[i], keys[i + 1]);
                lemma_key_lt_total(keys[i + 1], keys[j]);
                if keys[i + 1] != keys[j] {
                    lemma_key_lt_transitive(keys[i], keys[i + 1], keys[j]);
                    lemma_key_lt_irreflexive(keys[i]);
                }
            }
            assert(keys[i] == keys[i + 1]);
            assert(false);
        } else {
            lemma_key_lt_total(keys[i], keys[j]);
        }
    }
}


/// Some position of `perm` holds `p`.
pub open spec fn reaches(perm: Seq<int>, p: int) -> bool {
    exists|k: int| 0 <= k < perm.len() && #[trigger] perm[k] == p
}

/// An injective arrangement of `n` positions reaches every position.
pub proof fn lemma_arrangement_onto(perm: Seq<int>, n: int)
    requires
        perm.len() == n,
        forall|k: int| 0 <= k < n ==> 0 <= #[trigger] perm[k] < n,
        forall|i: int, j: int| 0 <= i < j < n ==> #[trigger] perm[i] != #[trigger] perm[j],
    ensures
        forall|p: int| 0 <= p < n ==> #[trigger] reaches(perm, p),
{
    assert(perm.no_duplicates()) by {
        assert forall|i: int, j: int| 0 <= i < perm.len() && 0 <= j < perm.len() && i != j implies perm[i]
            != perm[j] by {
            if i < j {
                assert(perm[i] != perm[j]);
            } else {
                assert(perm[j] != perm[i]);
            }
        }
    }
    perm.unique_seq_to_set();
    vstd::set_lib::lemma_int_range(0, n);
    let range = vstd::set_lib::set_int_range(0, n);
    assert(perm.to_set().subset_of(range)) by {
        assert forall|p: int| perm.to_set().contains(p) implies range.contains(p) by {
            let k = choose|k: int| 0 <= k < perm.len() && perm[k] == p;
        }
    }
    vstd::set_lib::lemma_subset_equality(perm.to_set(), range);
    assert forall|p: int| 0 <= p < n implies #[trigger] reaches(perm, p) by {
        assert(range.contains(p));
        assert(perm.to_set().contains(p));
    }
}

/// The keys of `keys` are pairwise different.
pub open spec fn distinct_keys(keys: Seq<(Option<u64>, Option<Seq<char>>)>) -> bool {
    forall|i: int, j: int| 0 <= i < j < keys.len() ==> #[trigger] keys[i] != #[trigger] keys[j]
}

/// Sorts keyed records whose keys must be pairwise different: `None` when
/// two share a key, else the records arranged ([`is_arrangement`]) in
/// strictly increasing key order.
pub fn sort_distinct(items: Vec<(SortKey, Json)>) -> (r: Option<(Vec<(SortKey, Json)>, Ghost<Seq<int>>)>)
    ensures
        r is Some <==> distinct_keys(keys_of(items@)),
        r matches Some(p) ==> is_arrangement(p.0@, items@, p.1@) && forall|i: int, j: int|
            0 <= i < j < p.0@.len() ==> key_lt(#[trigger] keys_of(p.0@)[i], #[trigger] keys_of(p.0@)[j]),
{
    let ghost input = items@;
    let (sorted, perm) = sort_keyed(items);
    let ghost n = input.len() as int;
    proof {
        lemma_arrangement_onto(perm@, n);
    }
    if adjacent_equal_keys(&sorted) {
        proof {
            let i = choose|i: int| 0 <= i < keys_of(sorted@).len() - 1 && #[trigger] keys_of(sorted@)[i] == keys_of(sorted@)[i + 1];
            let a = perm@[i];
            let b = perm@[i + 1];
            assert(keys_of(input)[a] == keys_of(sorted@)[i]);
            assert(keys_of(input)[b] == keys_of(sorted@)[i + 1]);
            if a < b {
                assert(keys_of(input)[a] == keys_of(input)[b]);
            } else {
                assert(keys_of(input)[b] == keys_of(input)[a]);
            }
        }
        None
    } else {
        proof {
            lemma_ordered_distinct_increasing(keys_of(sorted@));
            assert forall|a: int, b: int| 0 <= a < b < keys_of(input).len() implies #[trigger] keys_of(input)[a]
                != #[trigger] keys_of(input)[b] by {
                assert(reaches(perm@, a));
                assert(reaches(perm@, b));
                let i = choose|k: int| 0 <= k < perm@.len() && #[trigger] perm@[k] == a;
                let j = choose|k: int| 0 <= k < perm@.len() && #[trigger] perm@[k] == b;
                assert(keys_of(sorted@)[i] == keys_of(input)[a]);
                assert(keys_of(sorted@)[j] == keys_of(input)[b]);
                if i < j {
                    assert(key_lt(keys_of(sorted@)[i], keys_of(sorted@)[j]));
                    lemma_key_lt_irreflexive(keys_of(sorted@)[i]);
                } else if j < i {
                    assert(key_lt(keys_of(sorted@)[j], keys_of(sorted@)[i]));
                    lemma_key_lt_irreflexive(keys_of(sorted@)[j]);
                }
            }
        }
        Some((sorted, perm))
    }
}

} // verus!
