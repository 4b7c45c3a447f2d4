//! The order of strings (character by character, as `String`'s `Ord` orders
//! them) and sorted, duplicate-free lists of strings.

use crate::csv::views;
use crate::text::chars_of;
use vstd::prelude::*;

verus! {

/// Compares `a` and `b` from position `i` on: negative when `a` comes first,
/// zero when equal from there, positive when `b` comes first.
pub open spec fn lex_from(a: Seq<char>, b: Seq<char>, i: int) -> int
    decreases a.len() + b.len() - 2 * i,
{
    if i < 0 {
        0
    } else if i >= a.len() && i >= b.len() {
        0
    } else if i >= a.len() {
        -1
    } else if i >= b.len() {
        1
    } else if a[i] < b[i] {
        -1
    } else if a[i] > b[i] {
        1
    } else {
        lex_from(a, b, i + 1)
    }
}

/// `a` comes strictly before `b`.
pub open spec fn lex_lt(a: Seq<char>, b: Seq<char>) -> bool {
    lex_from(a, b, 0) < 0
}

/// Swapping the arguments flips the comparison.
pub proof fn lemma_lex_antisym(a: Seq<char>, b: Seq<char>, i: int)
    requires
        0 <= i,
    ensures
        lex_from(a, b, i) == -lex_from(b, a, i),
    decreases a.len() + b.len() - 2 * i,
{
    if i >= a.len() || i >= b.len() {
    } else if a[i] != b[i] {
    } else {
        lemma_lex_antisym(a, b, i + 1);
    }
}

/// Equal comparison means equal tails.
pub proof fn lemma_lex_zero(a: Seq<char>, b: Seq<char>, i: int)
    requires
        0 <= i <= a.len(),
        i <= b.len(),
        lex_from(a, b, i) == 0,
    ensures
        a.subrange(i, a.len() as int) == b.subrange(i, b.len() as int),
    decreases a.len() + b.len() - 2 * i,
{
    if i >= a.len() && i >= b.len() {
        assert(a.subrange(i, a.len() as int) =~= b.subrange(i, b.len() as int));
    } else {
                assert(a[i] == b[i]);
        lemma_lex_zero(a, b, i + 1);
        assert(a.subrange(i, a.len() as int) =~= seq![a[i]] + a.subrange(i + 1, a.len() as int));
        assert(b.subrange(i, b.len() as int) =~= seq![b[i]] + b.subrange(i + 1, b.len() as int));
    }
}

/// Equal sequences compare equal.
pub proof fn lemma_lex_refl(a: Seq<char>, i: int)
    requires
        0 <= i,
    ensures
        lex_from(a, a, i) == 0,
    decreases a.len() - i,
{
    if i < a.len() {
        lemma_lex_refl(a, i + 1);
    }
}

/// Two different strings: one of them comes first.
pub proof fn lemma_lex_total(a: Seq<char>, b: Seq<char>)
    ensures
        a != b ==> (lex_lt(a, b) || lex_lt(b, a)),
        !lex_lt(a, a),
        lex_lt(a, b) ==> !lex_lt(b, a),
{
    lemma_lex_antisym(a, b, 0);
    lemma_lex_refl(a, 0);
    if lex_from(a, b, 0) == 0 {
        lemma_lex_zero(a, b, 0);
        assert(a =~= a.subrange(0, a.len() as int));
        assert(b =~= b.subrange(0, b.len() as int));
    }
}

/// Compares two strings: -1, 0 or 1 as `a` comes first, is equal, or comes after.
pub fn str_lex(a: &str, b: &str) -> (r: i8)
    ensures
        r == -1 || r == 0 || r == 1,
        r == -1 <==> lex_lt(a@, b@),
        r == 0 <==> a@ == b@,
        r == 1 <==> lex_lt(b@, a@),
{
    proof {
        lemma_lex_total(a@, b@);
        lemma_lex_antisym(a@, b@, 0);
    }
    let ca = chars_of(a);
    let cb = chars_of(b);
    let mut i: usize = 0;
    proof {
        lemma_lex_total(a@, b@);
        lemma_lex_antisym(a@, b@, 0);
    }
    while i < ca.len() && i < cb.len()
        invariant
            ca@ == a@,
            cb@ == b@,
            i <= ca@.len(),
            i <= cb@.len(),
            lex_from(a@, b@, 0) == lex_from(a@, b@, i as int),
            lex_from(a@, b@, 0) == -lex_from(b@, a@, 0),
        decreases ca@.len() - i,
    {
        let x = ca[i];
        let y = cb[i];
        if x < y {
            return -1;
        }
        if x > y {
            return 1;
        }
        i = i + 1;
    }
    if i < ca.len() {
        1
    } else if i < cb.len() {
        -1
    } else {
        0
    }
}

/// Each string comes strictly before the next.
pub open spec fn strictly_sorted(s: Seq<Seq<char>>) -> bool {
    forall|i: int| 0 <= i < s.len() - 1 ==> lex_lt(#[trigger] s[i], s[i + 1])
}

/// Strictly sorted: every earlier string comes before every later one.
pub proof fn lemma_strictly_sorted_pairs(s: Seq<Seq<char>>, i: int, j: int)
    requires
        strictly_sorted(s),
        0 <= i < j < s.len(),
    ensures
        lex_lt(s[i], s[j]),
    decreases j - i,
{
    if j > i + 1 {
        lemma_strictly_sorted_pairs(s, i, j - 1);
        lemma_lex_trans(s[i], s[j - 1], s[j]);
    }
}

/// The order is transitive.
pub proof fn lemma_lex_trans(a: Seq<char>, b: Seq<char>, c: Seq<char>)
    requires
        lex_lt(a, b),
        lex_lt(b, c),
    ensures
        lex_lt(a, c),
{
    lemma_lex_trans_from(a, b, c, 0);
}

proof fn lemma_lex_trans_from(a: Seq<char>, b: Seq<char>, c: Seq<char>, i: int)
    requires
        0 <= i,
        lex_from(a, b, i) < 0,
        lex_from(b, c, i) < 0,
    ensures
        lex_from(a, c, i) < 0,
    decreases a.len() + b.len() - 2 * i,
{
    if i < a.len() && i < b.len() && i < c.len() && a[i] == b[i] && b[i] == c[i] {
        lemma_lex_trans_from(a, b, c, i + 1);
    }
}

/// Puts `x` into the strictly sorted `out` at its place, unless it is there already.
pub fn insert_sorted_unique(out: &mut Vec<String>, x: String)
    requires
        strictly_sorted(views(old(out)@)),
    ensures
        strictly_sorted(views(final(out)@)),
        views(final(out)@).to_set() == views(old(out)@).to_set().insert(x@),
{
    let ghost old_v = views(out@);
    let mut p: usize = 0;
    while p < out.len()
        invariant
            views(out@) == old_v,
            strictly_sorted(old_v),
            p <= out@.len(),
            p > 0 ==> lex_lt(old_v[p - 1], x@),
        ensures
            views(out@) == old_v,
            p <= out@.len(),
            p > 0 ==> lex_lt(old_v[p - 1], x@),
            p < out@.len() ==> lex_lt(x@, old_v[p as int]),
        decreases out@.len() - p,
    {
        let c = str_lex(out[p].as_str(), x.as_str());
        if c == 0 {
            proof {
                assert(old_v[p as int] == x@);
                assert(old_v.to_set().insert(x@) =~= old_v.to_set());
            }
            return;
        }
        if c == 1 {
            proof {
                assert(old_v[p as int] == out@[p as int]@);
            }
            break;
        }
        proof {
            assert(old_v[p as int] == out@[p as int]@);
        }
        p = p + 1;
    }
    proof {
        lemma_lex_total(x@, x@);
        if p < out@.len() {
            lemma_lex_total(old_v[p as int], x@);
        }
    }
    out.insert(p, x);
    proof {
        let nv = views(out@);
        assert(nv =~= old_v.subrange(0, p as int).push(x@) + old_v.subrange(p as int, old_v.len() as int));
        assert forall|i: int| 0 <= i < nv.len() - 1 implies lex_lt(#[trigger] nv[i], nv[i + 1]) by {
            if i + 1 < p {
                assert(nv[i] == old_v[i] && nv[i + 1] == old_v[i + 1]);
            } else if i + 1 == p {
                assert(nv[i] == old_v[i]);
            } else if i == p {
            } else {
                assert(nv[i] == old_v[i - 1] && nv[i + 1] == old_v[i]);
            }
        }
        assert forall|y: Seq<char>| nv.to_set().contains(y) <==> old_v.to_set().insert(x@).contains(y) by {
            if nv.to_set().contains(y) {
                let k = choose|k: int| 0 <= k < nv.len() && nv[k] == y;
                if k < p {
                    assert(old_v[k] == y);
                } else if k > p {
                    assert(old_v[k - 1] == y);
                }
            }
            if old_v.to_set().contains(y) {
                let k = choose|k: int| 0 <= k < old_v.len() && old_v[k] == y;
                if k < p {
                    assert(nv[k] == y);
                } else {
                    assert(nv[k + 1] == y);
                }
            }
            if y == x@ {
                assert(nv[p as int] == y);
            }
        }
        assert(nv.to_set() =~= old_v.to_set().insert(x@));
    }
}

/// The distinct strings of `xs` in ascending order.
pub open spec fn sorted_distinct(xs: Seq<Seq<char>>) -> Seq<Seq<char>> {
    choose|k: Seq<Seq<char>>| strictly_sorted(k) && k.to_set() == xs.to_set()
}

proof fn lemma_sorted_first_is_least(a: Seq<Seq<char>>, x: Seq<char>)
    requires
        strictly_sorted(a),
        a.len() > 0,
        a.contains(x),
        x != a[0],
    ensures
        lex_lt(a[0], x),
{
    let j = choose|j: int| 0 <= j < a.len() && a[j] == x;
    lemma_strictly_sorted_pairs(a, 0, j);
}

/// Two strictly sorted sequences with the same strings are the same sequence.
pub proof fn lemma_sorted_unique(a: Seq<Seq<char>>, b: Seq<Seq<char>>)
    requires
        strictly_sorted(a),
        strictly_sorted(b),
        a.to_set() == b.to_set(),
    ensures
        a == b,
    decreases a.len(),
{
    if a.len() == 0 {
        if b.len() > 0 {
            assert(b.to_set().contains(b[0]));
        }
        assert(a =~= b);
    } else {
        assert(a.to_set().contains(a[0]));
        assert(b.len() > 0);
        assert(b.to_set().contains(b[0]));
        if a[0] != b[0] {
            lemma_sorted_first_is_least(a, b[0]);
            lemma_sorted_first_is_least(b, a[0]);
            lemma_lex_total(a[0], b[0]);
        }
        let ta = a.drop_first();
        let tb = b.drop_first();
        assert(strictly_sorted(ta)) by {
            assert forall|i: int| 0 <= i < ta.len() - 1 implies lex_lt(#[trigger] ta[i], ta[i + 1]) by {
                assert(ta[i] == a[i + 1] && ta[i + 1] == a[i + 2]);
            }
        }
        assert(strictly_sorted(tb)) by {
            assert forall|i: int| 0 <= i < tb.len() - 1 implies lex_lt(#[trigger] tb[i], tb[i + 1]) by {
                assert(tb[i] == b[i + 1] && tb[i + 1] == b[i + 2]);
            }
        }
        assert(ta.to_set() =~= tb.to_set()) by {
            assert forall|x: Seq<char>| ta.to_set().contains(x) implies tb.to_set().contains(x) by {
                let i = choose|i: int| 0 <= i < ta.len() && ta[i] == x;
                lemma_strictly_sorted_pairs(a, 0, i + 1);
                lemma_lex_total(a[0], x);
                assert(a.contains(x)) by { assert(a[i + 1] == x); }
                assert(b.to_set().contains(x));
                let j = choose|j: int| 0 <= j < b.len() && b[j] == x;
                assert(j != 0);
                assert(tb[j - 1] == x);
            }
            assert forall|x: Seq<char>| tb.to_set().contains(x) implies ta.to_set().contains(x) by {
                let i = choose|i: int| 0 <= i < tb.len() && tb[i] == x;
                lemma_strictly_sorted_pairs(b, 0, i + 1);
                lemma_lex_total(b[0], x);
                assert(b.contains(x)) by { assert(b[i + 1] == x); }
                assert(a.to_set().contains(x));
                let j = choose|j: int| 0 <= j < a.len() && a[j] == x;
                assert(j != 0);
                assert(ta[j - 1] == x);
            }
        }
        lemma_sorted_unique(ta, tb);
        assert(a =~= seq![a[0]] + ta);
        assert(b =~= seq![b[0]] + tb);
    }
}

/// A strictly sorted sequence of the strings of `xs` is their sorted distinct sequence.
pub proof fn lemma_sorted_distinct(xs: Seq<Seq<char>>, k: Seq<Seq<char>>)
    requires
        strictly_sorted(k),
        k.to_set() == xs.to_set(),
    ensures
        sorted_distinct(xs) == k,
{
    let c = sorted_distinct(xs);
    assert(strictly_sorted(c) && c.to_set() == xs.to_set());
    lemma_sorted_unique(c, k);
}

/// The strings of `values`, sorted, each once.
pub fn sorted_unique(values: Vec<String>) -> (out: Vec<String>)
    ensures
        strictly_sorted(views(out@)),
        views(out@).to_set() == views(values@).to_set(),
        views(out@) == sorted_distinct(views(values@)),
{
    let mut out: Vec<String> = Vec::new();
    let mut i: usize = 0;
    proof {
        assert(views(out@).to_set() =~= views(values@).take(0).to_set());
    }
    while i < values.len()
        invariant
            i <= values@.len(),
            strictly_sorted(views(out@)),
            views(out@).to_set() == views(values@).take(i as int).to_set(),
        decreases values@.len() - i,
    {
        insert_sorted_unique(&mut out, values[i].clone());
        proof {
            assert(views(values@).take(i + 1) =~= views(values@).take(i as int).push(values@[i as int]@));
            views(values@).take(i as int).lemma_push_to_set_commute(values@[i as int]@);
        }
        i = i + 1;
    }
    proof {
        assert(views(values@).take(values@.len() as int) =~= views(values@));
        lemma_sorted_distinct(views(values@), views(out@));
    }
    out
}

/// Each string does not come before the previous one.
pub open spec fn sorted_seq(s: Seq<Seq<char>>) -> bool {
    forall|i: int| 0 <= i < s.len() - 1 ==> !lex_lt(#[trigger] s[i + 1], s[i])
}

/// The strings in order; repeats stay.
pub fn sort_strings(values: Vec<String>) -> (out: Vec<String>)
    ensures
        sorted_seq(views(out@)),
        views(out@).to_multiset() == views(values@).to_multiset(),
{
    broadcast use {vstd::multiset::group_multiset_axioms, vstd::seq_lib::group_to_multiset_ensures};

    let mut out: Vec<String> = Vec::new();
    let mut i: usize = 0;
    proof {
        assert(views(values@).take(0) =~= Seq::<Seq<char>>::empty());
        assert(views(out@) =~= Seq::<Seq<char>>::empty());
    }
    while i < values.len()
        invariant
            i <= values@.len(),
            sorted_seq(views(out@)),
            views(out@).to_multiset() == views(values@).take(i as int).to_multiset(),
        decreases values@.len() - i,
    {
        let x = values[i].clone();
        let mut p: usize = out.len();
        while p > 0
            invariant
                p <= out@.len(),
                p < out@.len() ==> lex_lt(x@, out@[p as int]@),
            ensures
                p <= out@.len(),
                p < out@.len() ==> lex_lt(x@, out@[p as int]@),
                p > 0 ==> !lex_lt(x@, out@[p - 1]@),
            decreases p,
        {
            if str_lex(x.as_str(), out[p - 1].as_str()) != -1 {
                break;
            }
            p = p - 1;
        }
        let ghost old_v = views(out@);
        let ghost xv = x@;
        out.insert(p, x);
        proof {
            let nv = views(out@);
            assert(nv =~= old_v.insert(p as int, xv));
            if p < old_v.len() {
                lemma_lex_total(xv, old_v[p as int]);
            }
            assert forall|k: int| 0 <= k < nv.len() - 1 implies !lex_lt(#[trigger] nv[k + 1], nv[k]) by {
                if k + 1 < p {
                    let j = k;
                    assert(old_v[j + 1] == nv[k + 1]);
                    assert(old_v[j] == nv[k]);
                } else if k + 1 == p {
                    assert(nv[k] == old_v[k]);
                } else if k == p {
                    assert(nv[k + 1] == old_v[k]);
                } else {
                    let j = k - 1;
                    assert(old_v[j + 1] == nv[k + 1]);
                    assert(old_v[j] == nv[k]);
                }
            }
            vstd::seq_lib::to_multiset_insert(old_v, p as int, xv);
            assert(views(values@).take(i + 1) =~= views(values@).take(i as int).push(values@[i as int]@));
            vstd::seq_lib::to_multiset_build(views(values@).take(i as int), values@[i as int]@);
            assert(xv == values@[i as int]@);
        }
        i = i + 1;
    }
    proof {
        assert(views(values@).take(values@.len() as int) =~= views(values@));
    }
    out
}

} // verus!
