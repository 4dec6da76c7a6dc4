//! Properties that hold across the rules of the library: of reachability,
//! of whitespace normalisation, of the viewer and size checks, and of the
//! texts that the rules accept.
use vstd::prelude::*;
use crate::graph::{edge, is_walk, lemma_reachable_step, reachable};
use crate::integer::decimal_integer;
use crate::json::height;
use crate::s4_r15::{derivation_vertex, reversed_pairs};
use crate::s4_r16::canonical_integer_rule;
use crate::s4_r17::r17_safe_viewer_rule;
use crate::text::{balanced_scripts_rule, collapse, is_white_space, normalized};

verus! {

/// Reachability composes: what is reached from a node reached from `a` is
/// reached from `a`.
pub proof fn law_reachable_transitive(
    edges: Seq<(Seq<char>, Seq<char>)>,
    a: Seq<char>,
    b: Seq<char>,
    c: Seq<char>,
)
    requires
        reachable(edges, a, b),
        reachable(edges, b, c),
    ensures
        reachable(edges, a, c),
{
    let w = choose|w: Seq<Seq<char>>| #[trigger] is_walk(edges, w) && w[0] == b && w.last() == c;
    lemma_walk_tail_reachable(edges, a, w, 1);
}

/// Each vertex after the first of a walk from `b`, where `b` is reached
/// from `a`, is reached from `a`.
proof fn lemma_walk_tail_reachable(
    edges: Seq<(Seq<char>, Seq<char>)>,
    a: Seq<char>,
    w: Seq<Seq<char>>,
    i: int,
)
    requires
        is_walk(edges, w),
        reachable(edges, a, w[0]),
        1 <= i < w.len(),
    ensures
        reachable(edges, a, w.last()),
    decreases w.len() - i,
{
    assert(edge(edges, w[i - 1], w[i]));
    if i == 1 {
        lemma_reachable_step(edges, a, w[0], w[1]);
    }
    if i + 1 < w.len() {
        lemma_walk_reached(edges, a, w, i);
        lemma_walk_tail_reachable(edges, a, w, i + 1);
    } else {
        lemma_walk_reached(edges, a, w, i);
    }
}

proof fn lemma_walk_reached(
    edges: Seq<(Seq<char>, Seq<char>)>,
    a: Seq<char>,
    w: Seq<Seq<char>>,
    i: int,
)
    requires
        is_walk(edges, w),
        reachable(edges, a, w[0]),
        0 <= i < w.len(),
    ensures
        reachable(edges, a, w[i]),
    decreases i,
{
    if i > 0 {
        lemma_walk_reached(edges, a, w, i - 1);
        assert(edge(edges, w[i - 1], w[i]));
        lemma_reachable_step(edges, a, w[i - 1], w[i]);
    }
}

/// Reversing every edge reverses reachability: `x` is reached from `t`
/// against the edges exactly when `t` is reached from `x` along them.
pub proof fn law_reversed_reachable(edges: Seq<(Seq<char>, Seq<char>)>, t: Seq<char>, x: Seq<char>)
    ensures
        reachable(reversed_pairs(edges), t, x) <==> reachable(edges, x, t),
{
    let rev = reversed_pairs(edges);
    if reachable(rev, t, x) {
        let w = choose|w: Seq<Seq<char>>| #[trigger] is_walk(rev, w) && w[0] == t && w.last() == x;
        let v = w.reverse();
        assert forall|i: int| 0 <= i < v.len() - 1 implies edge(edges, #[trigger] v[i], v[i + 1]) by {
            let j = w.len() - 2 - i;
            assert(edge(rev, w[j], w[j + 1]));
            let k = choose|k: int| 0 <= k < rev.len() && (#[trigger] rev[k]).0 == w[j] && rev[k].1 == w[j + 1];
            assert(edges[k].0 == w[j + 1] && edges[k].1 == w[j]);
            assert(v[i] == w[j + 1]);
            assert(v[i + 1] == w[j]);
        }
        assert(is_walk(edges, v));
        assert(v[0] == x && v.last() == t);
    }
    if reachable(edges, x, t) {
        let w = choose|w: Seq<Seq<char>>| #[trigger] is_walk(edges, w) && w[0] == x && w.last() == t;
        let v = w.reverse();
        assert forall|i: int| 0 <= i < v.len() - 1 implies edge(rev, #[trigger] v[i], v[i + 1]) by {
            let j = w.len() - 2 - i;
            assert(edge(edges, w[j], w[j + 1]));
            let k = choose|k: int| 0 <= k < edges.len() && (#[trigger] edges[k]).0 == w[j] && edges[k].1 == w[j + 1];
            assert(rev[k].0 == w[j + 1] && rev[k].1 == w[j]);
            assert(v[i] == w[j + 1]);
            assert(v[i + 1] == w[j]);
        }
        assert(is_walk(rev, v));
        assert(v[0] == t && v.last() == x);
    }
}

/// The shape of normalised text: every whitespace scalar is a space that is
/// followed by a scalar that is not whitespace, and none leads unless
/// `leading` allows it.
pub open spec fn tidy(t: Seq<char>, leading: bool) -> bool {
    forall|i: int|
        0 <= i < t.len() && is_white_space(#[trigger] t[i]) ==> t[i] == ' ' && i + 1 < t.len()
            && !is_white_space(t[i + 1]) && (i == 0 ==> leading)
}

proof fn lemma_collapse_tidy(s: Seq<char>, started: bool, gap: bool)
    requires
        gap ==> started,
    ensures
        tidy(collapse(s, started, gap), started),
    decreases s.len(),
{
    if s.len() > 0 {
        if is_white_space(s[0]) {
            lemma_collapse_tidy(s.drop_first(), started, started);
        } else {
            lemma_collapse_tidy(s.drop_first(), true, false);
            let tail = collapse(s.drop_first(), true, false);
            let lead: Seq<char> = if gap {
                seq![' ']
            } else {
                Seq::empty()
            };
            let o = lead + seq![s[0]] + tail;
            assert(o == collapse(s, started, gap));
            assert forall|i: int| 0 <= i < o.len() && is_white_space(#[trigger] o[i]) implies o[i] == ' '
                && i + 1 < o.len() && !is_white_space(o[i + 1]) && (i == 0 ==> started) by {
                let n = lead.len() + 1;
                if i >= n {
                    assert(o[i] == tail[i - n]);
                    assert(is_white_space(tail[i - n]));
                    assert(o[i + 1] == tail[i - n + 1]);
                } else if i == lead.len() {
                    assert(o[i] == s[0]);
                } else {
                    assert(o[i] == ' ');
                    assert(o[i + 1] == s[0]);
                }
            }
        }
    }
}

proof fn lemma_collapse_tidy_fixed(t: Seq<char>, started: bool)
    requires
        tidy(t, started),
    ensures
        collapse(t, started, false) == t,
    decreases t.len(),
{
    if t.len() > 0 {
        if is_white_space(t[0]) {
            assert(t[0] == ' ' && t.len() >= 2 && !is_white_space(t[1]) && started);
            let rest = t.drop_first();
            let rest2 = rest.drop_first();
            assert(tidy(rest2, true)) by {
                assert forall|i: int| 0 <= i < rest2.len() && is_white_space(#[trigger] rest2[i]) implies rest2[i]
                    == ' ' && i + 1 < rest2.len() && !is_white_space(rest2[i + 1]) by {
                    assert(rest2[i] == t[i + 2]);
                    assert(is_white_space(t[i + 2]));
                    assert(rest2[i + 1] == t[i + 3]);
                }
            }
            lemma_collapse_tidy_fixed(rest2, true);
            assert(rest[0] == t[1]);
            assert(collapse(rest, true, true) == seq![' '] + seq![t[1]] + collapse(rest2, true, false));
            assert(seq![' '] + seq![t[1]] + rest2 =~= t);
        } else {
            let rest = t.drop_first();
            assert(tidy(rest, true)) by {
                assert forall|i: int| 0 <= i < rest.len() && is_white_space(#[trigger] rest[i]) implies rest[i]
                    == ' ' && i + 1 < rest.len() && !is_white_space(rest[i + 1]) by {
                    assert(rest[i] == t[i + 1]);
                    assert(is_white_space(t[i + 1]));
                    assert(rest[i + 1] == t[i + 2]);
                }
            }
            lemma_collapse_tidy_fixed(rest, true);
            assert(Seq::<char>::empty() + seq![t[0]] + rest =~= t);
        }
    }
}

/// Normalising whitespace twice gives what normalising once gives: the words
/// of a text joined by single spaces are their own normal form.
pub proof fn law_normalized_idempotent(s: Seq<char>)
    ensures
        normalized(normalized(s)) == normalized(s),
        tidy(normalized(s), false),
{
    lemma_collapse_tidy(s, false, false);
    lemma_collapse_tidy_fixed(normalized(s), false);
}

/// Every canonical integer text is a decimal integer as `str::parse` reads
/// it, so the range check of a constant can always read a canonical value.
pub proof fn law_canonical_integer_parses(value: Seq<char>)
    requires
        canonical_integer_rule(value),
    ensures
        decimal_integer(value, true) is Some,
{
    if value.len() > 0 && value[0] == '-' {
        assert(value[0] != '+');
    }
}

/// A viewer that the function-context profile accepts has balanced script
/// elements: exactly one opening and one closing.
pub proof fn law_safe_viewer_is_balanced(bytes: Seq<u8>)
    requires
        r17_safe_viewer_rule(bytes),
    ensures
        balanced_scripts_rule(bytes),
{
}

/// A nesting limit met from some depth is met from any shallower depth.
pub proof fn law_nesting_monotone(value: crate::json::Json, depth: int, shallower: int, maximum: int)
    requires
        0 <= shallower <= depth,
        depth + height(value) <= maximum,
    ensures
        shallower + height(value) <= maximum,
{
}

/// The vertices of a syntax derivation are its two ends and every node that
/// lies on a path from its source to its target.
pub proof fn law_derivation_vertices_lie_on_paths(
    pairs: Seq<(Seq<char>, Seq<char>)>,
    source: Seq<char>,
    target: Seq<char>,
    x: Seq<char>,
)
    ensures
        derivation_vertex(pairs, source, target, x) <==> (x == source || x == target || (reachable(
            pairs,
            source,
            x,
        ) && reachable(pairs, x, target))),
{
    law_reversed_reachable(pairs, target, x);
}

/// A displayed signature assembled from declared facts carries a `pub`
/// qualifier exactly as its declared visibility says: `pub ` for public,
/// `pub(crate) ` for crate and `pub(…) ` for restricted visibility, and none
/// for private, inherited-trait or not-applicable visibility, where it
/// starts with a qualifier keyword, `extern` or `fn` instead.
pub proof fn law_display_signature_visibility(
    root: crate::json::Json,
    signature: crate::json::Json,
    parameters: Seq<crate::json::Json>,
)
    requires
        crate::s4_r17::declared_signature(root) is None,
        crate::s4_r17::signature_text(root, signature, parameters) is Some,
    ensures
        ({
            let t = crate::s4_r17::signature_text(root, signature, parameters).unwrap();
            let v = crate::json::member_text(crate::json::member(signature, "properties"@).unwrap(), "visibility"@);
            &&& v == Some("public"@) ==> t.len() >= 4 && t.take(4) == seq!['p', 'u', 'b', ' ']
            &&& v == Some("crate"@) ==> t.len() >= 11 && t.take(11) == seq!['p', 'u', 'b', '(', 'c', 'r', 'a', 't', 'e', ')', ' ']
            &&& v == Some("restricted"@) ==> t.len() >= 7 && t.take(7) == seq!['p', 'u', 'b', '(', '…', ')', ' ']
            &&& (v == Some("private"@) || v == Some("inherited_trait"@) || v == Some("not_applicable"@)) ==> t.len() > 0
                && (t[0] == 'c' || t[0] == 'a' || t[0] == 'u' || t[0] == 'e' || t[0] == 'f')
        }),
{
    let properties = crate::json::member(signature, "properties"@).unwrap();
    let v = crate::json::member_text(properties, "visibility"@);
    let vis = crate::s4_r17::visibility_prefix(v)->Some_0;
    let c = crate::s4_r17::keyword_if(properties, "const"@, "const "@)->Some_0;
    let a = crate::s4_r17::keyword_if(properties, "async"@, "async "@)->Some_0;
    let u = crate::s4_r17::keyword_if(properties, "unsafe"@, "unsafe "@)->Some_0;
    let abi = crate::s4_r17::optional_part(properties, "abi"@, "extern \""@, "\" "@)->Some_0;
    let t = crate::s4_r17::signature_text(root, signature, parameters).unwrap();
    let rest = c + a + u + abi + "fn "@ + crate::s4_r17::required_text(root, "name"@)->Some_0
        + crate::s4_r17::optional_part(properties, "generic_parameters"@, Seq::empty(), Seq::empty())->Some_0 + "("@
        + crate::s4_r17::parameters_text(parameters)->Some_0 + ")"@ + crate::s4_r17::return_part(properties)->Some_0
        + crate::s4_r17::optional_part(properties, "where_clause"@, " "@, Seq::empty())->Some_0;
    reveal_strlit("public");
    reveal_strlit("crate");
    reveal_strlit("restricted");
    reveal_strlit("private");
    reveal_strlit("inherited_trait");
    reveal_strlit("not_applicable");
    reveal_strlit("pub ");
    reveal_strlit("pub(crate) ");
    reveal_strlit("pub(…) ");
    reveal_strlit("const ");
    reveal_strlit("async ");
    reveal_strlit("unsafe ");
    reveal_strlit("extern \"");
    reveal_strlit("fn ");
    assert(t =~= vis + rest);
    if v == Some("public"@) {
        assert(vis == "pub "@);
        assert(t.take(4) =~= seq!['p', 'u', 'b', ' ']);
    }
    if v == Some("crate"@) {
        assert("crate"@.len() != "public"@.len());
        assert(vis == "pub(crate) "@);
        assert(t.take(11) =~= seq!['p', 'u', 'b', '(', 'c', 'r', 'a', 't', 'e', ')', ' ']);
    }
    if v == Some("restricted"@) {
        assert("restricted"@.len() != "public"@.len());
        assert("restricted"@.len() != "crate"@.len());
        assert(vis == "pub(…) "@);
        assert(t.take(7) =~= seq!['p', 'u', 'b', '(', '…', ')', ' ']);
    }
    if v == Some("private"@) || v == Some("inherited_trait"@) || v == Some("not_applicable"@) {
        assert("private"@.len() == 7 && "inherited_trait"@.len() == 15 && "not_applicable"@.len() == 14);
        assert("public"@.len() == 6 && "crate"@.len() == 5 && "restricted"@.len() == 10);
        assert(vis == Seq::<char>::empty());
        assert(t =~= rest);
        if c.len() > 0 {
            assert(c == "const "@);
            assert(t[0] == c[0]);
        } else if a.len() > 0 {
            assert(a == "async "@);
            assert(t[0] == a[0]);
        } else if u.len() > 0 {
            assert(u == "unsafe "@);
            assert(t[0] == u[0]);
        } else if abi.len() > 0 {
            assert(abi[0] == 'e');
            assert(t[0] == abi[0]);
        } else {
            assert(t[0] == "fn "@[0]);
        }
    }
}

/// The claims that a function context selects about its subjects are
/// exactly those whose `subject_id` names a selected entity or a selected
/// relationship, each once and in the order of the claims family.
pub proof fn law_claims_about_selected_subjects(
    claims: Seq<crate::json::Json>,
    entities: Seq<Seq<char>>,
    relationships: Seq<Seq<char>>,
)
    ensures
        ({
            let ps = crate::context::subject_positions(claims, entities, relationships);
            &&& forall|k: int| 0 <= k < ps.len() ==> 0 <= #[trigger] ps[k] < claims.len()
            &&& forall|i: int, j: int| 0 <= i < j < ps.len() ==> #[trigger] ps[i] < #[trigger] ps[j]
            &&& forall|p: int|
                0 <= p < claims.len() ==> (ps.contains(p) <==> (crate::json::member_text(#[trigger] claims[p], "subject_id"@) matches Some(
                    t,
                ) && (entities.contains(t) || relationships.contains(t))))
        }),
    decreases claims.len(),
{
    if claims.len() > 0 {
        let rest = claims.drop_last();
        law_claims_about_selected_subjects(rest, entities, relationships);
        let prev = crate::context::subject_positions(rest, entities, relationships);
        let ps = crate::context::subject_positions(claims, entities, relationships);
        let n = claims.len() - 1;
        assert forall|p: int| 0 <= p < claims.len() implies (ps.contains(p) <==> (crate::json::member_text(
            #[trigger] claims[p],
            "subject_id"@,
        ) matches Some(t) && (entities.contains(t) || relationships.contains(t)))) by {
            if p < n {
                assert(claims[p] == rest[p]);
                if ps.contains(p) {
                    let k = choose|k: int| 0 <= k < ps.len() && ps[k] == p;
                    if k < prev.len() {
                        assert(prev[k] == p);
                    }
                }
                if prev.contains(p) {
                    let k = choose|k: int| 0 <= k < prev.len() && prev[k] == p;
                    assert(ps[k] == p);
                }
            } else {
                if ps.contains(p) {
                    let k = choose|k: int| 0 <= k < ps.len() && ps[k] == p;
                    if k < prev.len() {
                        assert(prev[k] < n);
                    }
                }
                if crate::json::member_text(claims[p], "subject_id"@) matches Some(t) && (entities.contains(t)
                    || relationships.contains(t)) {
                    assert(ps[ps.len() - 1] == p);
                }
            }
        }
    }
}

/// The number of line feeds among `cs`.
pub open spec fn line_feeds(cs: Seq<char>) -> nat
    decreases cs.len(),
{
    if cs.len() == 0 {
        0
    } else {
        line_feeds(cs.drop_last()) + if cs.last() == '\n' {
            1nat
        } else {
            0nat
        }
    }
}

/// The number of characters of `cs` after its last line feed (all of them
/// where it has none).
pub open spec fn chars_since_line_feed(cs: Seq<char>) -> nat
    decreases cs.len(),
{
    if cs.len() == 0 {
        0
    } else if cs.last() == '\n' {
        0
    } else {
        chars_since_line_feed(cs.drop_last()) + 1
    }
}

/// Counting line feeds and scalars over bytes composes over concatenation.
proof fn lemma_byte_counts_concat(a: Seq<u8>, b: Seq<u8>)
    ensures
        crate::s4_r18::count_lf(a + b) == crate::s4_r18::count_lf(a) + crate::s4_r18::count_lf(b),
        crate::s4_r18::scalars_after_last_lf(a + b) == if b.contains(10u8) {
            crate::s4_r18::scalars_after_last_lf(b)
        } else {
            crate::s4_r18::scalars_after_last_lf(a) + crate::s4_r18::scalars_after_last_lf(b)
        },
        (a + b).contains(10u8) <==> (a.contains(10u8) || b.contains(10u8)),
    decreases b.len(),
{
    if b.len() == 0 {
        assert(a + b =~= a);
    } else {
        let b1 = b.drop_last();
        assert((a + b).drop_last() =~= a + b1);
        assert((a + b).last() == b.last());
        lemma_byte_counts_concat(a, b1);
        assert(b.contains(10u8) <==> (b1.contains(10u8) || b.last() == 10u8)) by {
            if b.contains(10u8) {
                let k = choose|k: int| 0 <= k < b.len() && b[k] == 10u8;
                if k < b1.len() {
                    assert(b1[k] == 10u8);
                }
            }
            if b1.contains(10u8) {
                let k = choose|k: int| 0 <= k < b1.len() && b1[k] == 10u8;
                assert(b[k] == 10u8);
            }
            if b.last() == 10u8 {
                assert(b[b.len() - 1] == 10u8);
            }
        }
        assert((a + b).contains(10u8) <==> (a.contains(10u8) || b.contains(10u8))) by {
            if (a + b).contains(10u8) {
                let k = choose|k: int| 0 <= k < (a + b).len() && (a + b)[k] == 10u8;
                if k < a.len() {
                    assert(a[k] == 10u8);
                } else {
                    assert(b[k - a.len()] == 10u8);
                }
            }
            if a.contains(10u8) {
                let k = choose|k: int| 0 <= k < a.len() && a[k] == 10u8;
                assert((a + b)[k] == 10u8);
            }
            if b.contains(10u8) {
                let k = choose|k: int| 0 <= k < b.len() && b[k] == 10u8;
                assert((a + b)[a.len() + k] == 10u8);
            }
        }
    }
}

/// Counting line feeds and characters composes over concatenation.
proof fn lemma_char_counts_concat(a: Seq<char>, b: Seq<char>)
    ensures
        line_feeds(a + b) == line_feeds(a) + line_feeds(b),
        chars_since_line_feed(a + b) == if b.contains('\n') {
            chars_since_line_feed(b)
        } else {
            chars_since_line_feed(a) + chars_since_line_feed(b)
        },
        (a + b).contains('\n') <==> (a.contains('\n') || b.contains('\n')),
    decreases b.len(),
{
    if b.len() == 0 {
        assert(a + b =~= a);
    } else {
        let b1 = b.drop_last();
        assert((a + b).drop_last() =~= a + b1);
        assert((a + b).last() == b.last());
        lemma_char_counts_concat(a, b1);
        assert(b.contains('\n') <==> (b1.contains('\n') || b.last() == '\n')) by {
            if b.contains('\n') {
                let k = choose|k: int| 0 <= k < b.len() && b[k] == '\n';
                if k < b1.len() {
                    assert(b1[k] == '\n');
                }
            }
            if b1.contains('\n') {
                let k = choose|k: int| 0 <= k < b1.len() && b1[k] == '\n';
                assert(b[k] == '\n');
            }
            if b.last() == '\n' {
                assert(b[b.len() - 1] == '\n');
            }
        }
        assert((a + b).contains('\n') <==> (a.contains('\n') || b.contains('\n'))) by {
            if (a + b).contains('\n') {
                let k = choose|k: int| 0 <= k < (a + b).len() && (a + b)[k] == '\n';
                if k < a.len() {
                    assert(a[k] == '\n');
                } else {
                    assert(b[k - a.len()] == '\n');
                }
            }
            if a.contains('\n') {
                let k = choose|k: int| 0 <= k < a.len() && a[k] == '\n';
                assert((a + b)[k] == '\n');
            }
            if b.contains('\n') {
                let k = choose|k: int| 0 <= k < b.len() && b[k] == '\n';
                assert((a + b)[a.len() + k] == '\n');
            }
        }
    }
}

/// The bytes of a scalar encoded in several bytes: a leading byte that is
/// neither a line feed nor a continuation byte, then continuation bytes.
proof fn lemma_multibyte_counts(t: Seq<u8>)
    requires
        t.len() >= 1,
        t[0] != 10u8,
        !(0x80u8 <= t[0] && t[0] < 0xC0u8),
        forall|k: int| 1 <= k < t.len() ==> 0x80u8 <= #[trigger] t[k] && t[k] < 0xC0u8,
    ensures
        crate::s4_r18::count_lf(t) == 0,
        crate::s4_r18::scalars_after_last_lf(t) == 1,
        !t.contains(10u8),
    decreases t.len(),
{
    if t.len() == 1 {
        assert(t.drop_last() =~= Seq::<u8>::empty());
        assert(t.last() == t[0]);
        assert(crate::s4_r18::count_lf(t.drop_last()) == 0);
        assert(crate::s4_r18::scalars_after_last_lf(t.drop_last()) == 0);
        assert(crate::s4_r18::count_lf(t) == crate::s4_r18::count_lf(t.drop_last()));
        assert(crate::s4_r18::scalars_after_last_lf(t) == crate::s4_r18::scalars_after_last_lf(t.drop_last()) + 1);
        if t.contains(10u8) {
            let k = choose|k: int| 0 <= k < t.len() && t[k] == 10u8;
            assert(k == 0);
        }
    } else {
        let t1 = t.drop_last();
        assert forall|k: int| 1 <= k < t1.len() implies 0x80u8 <= #[trigger] t1[k] && t1[k] < 0xC0u8 by {
            assert(t1[k] == t[k]);
        }
        lemma_multibyte_counts(t1);
        assert(t.last() == t[t.len() - 1]);
        assert(0x80u8 <= t.last() && t.last() < 0xC0u8);
        assert(crate::s4_r18::count_lf(t) == crate::s4_r18::count_lf(t1));
        assert(crate::s4_r18::scalars_after_last_lf(t) == crate::s4_r18::scalars_after_last_lf(t1));
        if t.contains(10u8) {
            let k = choose|k: int| 0 <= k < t.len() && t[k] == 10u8;
            if k < t1.len() {
                assert(t1[k] == 10u8);
            }
        }
    }
}

/// The first scalar of valid UTF-8 bytes counts as the character it
/// decodes to.
proof fn lemma_first_scalar_counts(p: Seq<u8>)
    requires
        vstd::utf8::valid_utf8(p),
        p.len() > 0,
    ensures
        ({
            let f = vstd::utf8::take_first_scalar(p);
            let c = seq![vstd::utf8::decode_first_scalar(p) as char];
            &&& crate::s4_r18::count_lf(f) == line_feeds(c)
            &&& crate::s4_r18::scalars_after_last_lf(f) == chars_since_line_feed(c)
            &&& (f.contains(10u8) <==> c.contains('\n'))
        }),
{
    let f = vstd::utf8::take_first_scalar(p);
    let x = vstd::utf8::decode_first_scalar(p);
    let c = seq![x as char];
    let len = vstd::utf8::length_of_first_scalar(p);
    assert(c.drop_last() =~= Seq::<char>::empty());
    assert(c.last() == x as char);
    assert(line_feeds(c.drop_last()) == 0);
    assert(chars_since_line_feed(c.drop_last()) == 0);
    assert(line_feeds(c) == if (x as char) == '\n' {
        1nat
    } else {
        0nat
    });
    assert(chars_since_line_feed(c) == if (x as char) == '\n' {
        0nat
    } else {
        1nat
    });
    assert(c.contains('\n') <==> (x as char) == '\n') by {
        if c.contains('\n') {
            let k = choose|k: int| 0 <= k < c.len() && c[k] == '\n';
            assert(k == 0);
        }
        if (x as char) == '\n' {
            assert(c[0] == '\n');
        }
    }
    let b0 = p[0];
    if vstd::utf8::is_leading_byte_width_1(b0) {
        assert(f =~= seq![b0]);
        assert(x == (b0 & 0x7F) as u32);
        assert((b0 & 0x7F) == b0) by (bit_vector)
            requires
                b0 <= 0x7f,
        ;
        assert(x == b0 as u32);
        assert(x < 0x80);
        assert(((x as char) as u32) == x);
        assert(f.drop_last() =~= Seq::<u8>::empty());
        assert(f.last() == b0);
        assert(crate::s4_r18::count_lf(f.drop_last()) == 0);
        assert(crate::s4_r18::scalars_after_last_lf(f.drop_last()) == 0);
        assert(crate::s4_r18::count_lf(f) == if b0 == 10u8 {
            1nat
        } else {
            0nat
        });
        assert(crate::s4_r18::scalars_after_last_lf(f) == if b0 == 10u8 {
            0nat
        } else {
            1nat
        });
        if b0 == 10u8 {
            assert((x as char) == '\n');
            assert(f[0] == 10u8);
        } else {
            assert((x as char) != '\n');
            if f.contains(10u8) {
                let k = choose|k: int| 0 <= k < f.len() && f[k] == 10u8;
                assert(k == 0);
            }
        }
    } else {
        assert(len >= 2);
        assert(0xc0u8 <= b0);
        assert forall|k: int| 1 <= k < f.len() implies 0x80u8 <= #[trigger] f[k] && f[k] < 0xC0u8 by {
            assert(f[k] == p[k]);
        }
        lemma_multibyte_counts(f);
        if vstd::utf8::is_leading_byte_width_2(b0) {
            let b1 = p[1];
            assert(x == vstd::utf8::codepoint_width_2(b0, b1));
            assert((((b0 & 0x1F) as u32) << 6u32) | ((b1 & 0x3f) as u32) <= 0x7ff) by (bit_vector);
        } else if vstd::utf8::is_leading_byte_width_3(b0) {
            let b1 = p[1];
            let b2 = p[2];
            assert(x == vstd::utf8::codepoint_width_3(b0, b1, b2));
            assert((((b0 & 0x0F) as u32) << 12u32) | (((b1 & 0x3f) as u32) << 6u32) | ((b2 & 0x3f) as u32) <= 0xffff)
                by (bit_vector);
        }
        assert(0x80 <= x);
        assert(x < 0xD800 || 0xE000 <= x <= 0x10FFFF);
        assert((x as char) != '\n');
    }
}

/// Valid UTF-8 bytes count line feeds and scalars as the characters they
/// decode to.
proof fn lemma_utf8_counts(p: Seq<u8>)
    requires
        vstd::utf8::valid_utf8(p),
    ensures
        crate::s4_r18::count_lf(p) == line_feeds(vstd::utf8::decode_utf8(p)),
        crate::s4_r18::scalars_after_last_lf(p) == chars_since_line_feed(vstd::utf8::decode_utf8(p)),
        p.contains(10u8) <==> vstd::utf8::decode_utf8(p).contains('\n'),
    decreases p.len(),
{
    if p.len() == 0 {
        assert(vstd::utf8::decode_utf8(p) =~= Seq::<char>::empty());
    } else {
        let f = vstd::utf8::take_first_scalar(p);
        let r = vstd::utf8::pop_first_scalar(p);
        let c = seq![vstd::utf8::decode_first_scalar(p) as char];
        assert(p =~= f + r);
        assert(r.len() < p.len());
        lemma_utf8_counts(r);
        lemma_first_scalar_counts(p);
        lemma_byte_counts_concat(f, r);
        lemma_char_counts_concat(c, vstd::utf8::decode_utf8(r));
        assert(vstd::utf8::decode_utf8(p) == c + vstd::utf8::decode_utf8(r));
    }
}

/// A source position counts in Unicode scalars: after a valid UTF-8 prefix
/// of a source text, the line is one plus the number of line feeds the
/// prefix decodes to, and the column one plus the number of characters
/// after the last of them, however many bytes each character takes.
pub proof fn law_position_counts_scalars(prefix: Seq<u8>)
    requires
        vstd::utf8::valid_utf8(prefix),
    ensures
        crate::s4_r18::position_of(prefix) == (
            line_feeds(vstd::utf8::decode_utf8(prefix)) + 1,
            chars_since_line_feed(vstd::utf8::decode_utf8(prefix)) + 1,
        ),
{
    lemma_utf8_counts(prefix);
}

} // verus!
