//! Ordered sets of texts: a `Vec<String>` kept strictly increasing in the
//! order of `str`, which is how the contracts hold a `BTreeSet<String>`.
use vstd::prelude::*;
use crate::portable::texts;
use crate::text::{strictly_increasing, text_eq, text_less, text_lt};

verus! {

/// No text is below itself.
pub proof fn lemma_text_lt_irreflexive(a: Seq<char>)
    ensures
        !text_lt(a, a),
    decreases a.len(),
{
    if a.len() > 0 {
        lemma_text_lt_irreflexive(a.drop_first());
    }
}

/// The order of texts is transitive.
pub proof fn lemma_text_lt_transitive(a: Seq<char>, b: Seq<char>, c: Seq<char>)
    requires
        text_lt(a, b),
        text_lt(b, c),
    ensures
        text_lt(a, c),
    decreases a.len(),
{
    if a.len() > 0 && b.len() > 0 && c.len() > 0 && a[0] == b[0] && b[0] == c[0] {
        lemma_text_lt_transitive(a.drop_first(), b.drop_first(), c.drop_first());
    }
}

/// Of two different texts, one is below the other.
pub proof fn lemma_text_lt_total(a: Seq<char>, b: Seq<char>)
    requires
        a != b,
    ensures
        text_lt(a, b) || text_lt(b, a),
    decreases a.len(),
{
    if a.len() == 0 && b.len() == 0 {
        assert(a =~= b);
    } else if a.len() > 0 && b.len() > 0 {
        if a[0] == b[0] {
            if a.drop_first() =~= b.drop_first() {
                assert forall|i: int| 0 <= i < a.len() implies a[i] == b[i] by {
                    if i > 0 {
                        assert(a[i] == a.drop_first()[i - 1]);
                        assert(b[i] == b.drop_first()[i - 1]);
                    }
                }
                assert(a =~= b);
            }
            lemma_text_lt_total(a.drop_first(), b.drop_first());
        } else {
            assert((a[0] as int) != (b[0] as int));
        }
    }
}

/// Every element is below every later one.
pub open spec fn sorted_texts(s: Seq<Seq<char>>) -> bool {
    forall|i: int, j: int| 0 <= i < j < s.len() ==> text_lt(#[trigger] s[i], #[trigger] s[j])
}

/// Consecutive order gives the order of every pair.
pub proof fn lemma_increasing_is_sorted(s: Seq<Seq<char>>)
    requires
        strictly_increasing(s),
    ensures
        sorted_texts(s),
    decreases s.len(),
{
    if s.len() > 1 {
        let rest = s.drop_first();
        assert(strictly_increasing(rest)) by {
            assert forall|i: int| 0 <= i < rest.len() - 1 implies text_lt(
                #[trigger] rest[i],
                rest[i + 1],
            ) by {
                assert(text_lt(s[i + 1], s[i + 2]));
            }
        }
        lemma_increasing_is_sorted(rest);
        assert forall|i: int, j: int| 0 <= i < j < s.len() implies text_lt(
            #[trigger] s[i],
            #[trigger] s[j],
        ) by {
            if i == 0 {
                assert(text_lt(s[0], s[1]));
                if j > 1 {
                    assert(text_lt(rest[0], rest[j - 1]));
                    lemma_text_lt_transitive(s[0], s[1], s[j]);
                }
            } else {
                assert(text_lt(rest[i - 1], rest[j - 1]));
            }
        }
    }
}

/// A sorted sequence is strictly increasing.
pub proof fn lemma_sorted_is_increasing(s: Seq<Seq<char>>)
    requires
        sorted_texts(s),
    ensures
        strictly_increasing(s),
{
    assert forall|i: int| 0 <= i < s.len() - 1 implies text_lt(#[trigger] s[i], s[i + 1]) by {
        assert(text_lt(s[i], s[i + 1]));
    }
}

/// A sorted sequence holds each text once.
pub proof fn lemma_sorted_no_duplicates(s: Seq<Seq<char>>)
    requires
        sorted_texts(s),
    ensures
        s.no_duplicates(),
{
    assert forall|i: int, j: int| 0 <= i < s.len() && 0 <= j < s.len() && i != j implies s[i]
        != s[j] by {
        if i < j {
            assert(text_lt(s[i], s[j]));
            lemma_text_lt_irreflexive(s[i]);
        } else {
            assert(text_lt(s[j], s[i]));
            lemma_text_lt_irreflexive(s[j]);
        }
    }
}

/// Inserts `x` into the ordered set `set`, as `BTreeSet::insert` does, and
/// says whether it was absent.
pub fn insert_text(set: &mut Vec<String>, x: &str) -> (inserted: bool)
    requires
        sorted_texts(texts(old(set)@)),
    ensures
        sorted_texts(texts(final(set)@)),
        inserted == !texts(old(set)@).contains(x@),
        !inserted ==> final(set)@ == old(set)@,
        forall|y: Seq<char>| #[trigger]
            texts(final(set)@).contains(y) <==> (texts(old(set)@).contains(y) || y == x@),
        final(set)@.len() == old(set)@.len() + if inserted {
            1int
        } else {
            0int
        },
{
    let ghost before = texts(set@);
    let mut i: usize = 0;
    while i < set.len() && text_less(set[i].as_str(), x)
        invariant
            i <= set.len(),
            before == texts(set@),
            forall|j: int| 0 <= j < i ==> text_lt(#[trigger] before[j], x@),
        decreases set.len() - i,
    {
        i += 1;
    }
    if i < set.len() && text_eq(set[i].as_str(), x) {
        assert(before[i as int] == x@);
        return false;
    }
    proof {
        if i < set.len() {
            assert(!text_lt(before[i as int], x@));
            assert(before[i as int] != x@);
            lemma_text_lt_total(before[i as int], x@);
        }
        assert forall|j: int| i <= j < before.len() implies text_lt(x@, #[trigger] before[j]) by {
            if j > i {
                assert(text_lt(before[i as int], before[j]));
                lemma_text_lt_transitive(x@, before[i as int], before[j]);
            }
        }
        assert forall|j: int| 0 <= j < before.len() implies before[j] != x@ by {
            if j < i {
                lemma_text_lt_irreflexive(x@);
            } else {
                lemma_text_lt_irreflexive(x@);
            }
        }
    }
    set.insert(i, x.to_owned());
    proof {
        let after = texts(set@);
        assert(after =~= before.insert(i as int, x@));
        assert forall|a: int, b: int| 0 <= a < b < after.len() implies text_lt(
            #[trigger] after[a],
            #[trigger] after[b],
        ) by {
            if b < i {
            } else if b == i {
            } else if a < i {
                assert(after[b] == before[b - 1]);
                lemma_text_lt_transitive(after[a], x@, after[b]);
            } else if a == i {
                assert(after[b] == before[b - 1]);
            } else {
                assert(after[a] == before[a - 1]);
                assert(after[b] == before[b - 1]);
            }
        }
        assert forall|y: Seq<char>| #[trigger] after.contains(y) <==> (before.contains(y) || y
            == x@) by {
            if after.contains(y) {
                let k = choose|k: int| 0 <= k < after.len() && after[k] == y;
                if k < i {
                    assert(before[k] == y);
                } else if k > i {
                    assert(before[k - 1] == y);
                }
            }
            if before.contains(y) {
                let k = choose|k: int| 0 <= k < before.len() && before[k] == y;
                if k < i {
                    assert(after[k] == y);
                } else {
                    assert(after[k + 1] == y);
                }
            }
            if y == x@ {
                assert(after[i as int] == y);
            }
        }
    }
    true
}

/// Two sorted sequences with the same members are equal.
pub proof fn lemma_sorted_same_members_equal(a: Seq<Seq<char>>, b: Seq<Seq<char>>)
    requires
        sorted_texts(a),
        sorted_texts(b),
        forall|x: Seq<char>| a.contains(x) <==> b.contains(x),
    ensures
        a == b,
{
    assert forall|i: int| 0 <= i < a.len() && 0 <= i < b.len() implies a[i] == b[i] by {
        lemma_sorted_prefix_equal(a, b, i);
    }
    if a.len() > b.len() {
        let n = b.len() as int;
        assert(a.contains(a[n]));
        let j = choose|j: int| 0 <= j < b.len() && b[j] == a[n];
        lemma_sorted_prefix_equal(a, b, j);
        assert(text_lt(a[j], a[n]));
        lemma_text_lt_irreflexive(a[n]);
    }
    if b.len() > a.len() {
        let n = a.len() as int;
        assert(b.contains(b[n]));
        let j = choose|j: int| 0 <= j < a.len() && a[j] == b[n];
        lemma_sorted_prefix_equal(a, b, j);
        assert(text_lt(b[j], b[n]));
        lemma_text_lt_irreflexive(b[n]);
    }
    assert(a =~= b);
}

proof fn lemma_sorted_prefix_equal(a: Seq<Seq<char>>, b: Seq<Seq<char>>, i: int)
    requires
        sorted_texts(a),
        sorted_texts(b),
        forall|x: Seq<char>| a.contains(x) <==> b.contains(x),
        0 <= i < a.len(),
        i < b.len(),
    ensures
        a[i] == b[i],
    decreases i,
{
    if i > 0 {
        lemma_sorted_prefix_equal(a, b, i - 1);
    }
    assert forall|m: int| 0 <= m < i implies a[m] == b[m] by {
        if m < i - 1 {
            lemma_sorted_prefix_equal(a, b, m);
        }
    }
    // a[i] lies in b at some k >= i, so b[i] is not above a[i]; and symmetrically.
    assert(a.contains(a[i]));
    let k = choose|k: int| 0 <= k < b.len() && b[k] == a[i];
    if k < i {
        assert(a[k] == b[k]);
        assert(text_lt(a[k], a[i]));
        lemma_text_lt_irreflexive(a[i]);
    }
    assert(b.contains(b[i]));
    let l = choose|l: int| 0 <= l < a.len() && a[l] == b[i];
    if l < i {
        assert(a[l] == b[l]);
        assert(text_lt(b[l], b[i]));
        lemma_text_lt_irreflexive(b[i]);
    }
    if a[i] != b[i] {
        assert(k > i && l > i);
        assert(text_lt(b[i], b[k]));
        assert(text_lt(a[i], a[l]));
        lemma_text_lt_transitive(b[i], a[i], b[i]);
        lemma_text_lt_irreflexive(b[i]);
    }
}

/// Whether two lists of strings hold the same texts in the same order.
pub fn texts_equal(a: &[String], b: &[String]) -> (r: bool)
    ensures
        r == (texts(a@) == texts(b@)),
{
    if a.len() != b.len() {
        assert(texts(a@).len() != texts(b@).len());
        return false;
    }
    let mut i: usize = 0;
    while i < a.len()
        invariant
            i <= a.len(),
            a.len() == b.len(),
            forall|j: int| 0 <= j < i ==> texts(a@)[j] == texts(b@)[j],
        decreases a.len() - i,
    {
        if !text_eq(a[i].as_str(), b[i].as_str()) {
            assert(texts(a@)[i as int] != texts(b@)[i as int]);
            return false;
        }
        i += 1;
    }
    assert(texts(a@) =~= texts(b@));
    true
}

} // verus!
