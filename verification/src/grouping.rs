//! Grouping named items by a key, with the groups in ascending key order,
//! as a `BTreeMap` from key to names would hold them.

use crate::csv::views;
use vstd::prelude::*;

verus! {

/// A key with a three-way comparison on its view: -1, 0 or 1, zero exactly
/// for equal views, and flipped when the arguments are swapped.
pub trait GroupKey: View + Sized {
    spec fn key_order(a: Self::V, b: Self::V) -> int;

    proof fn lemma_key_order(a: Self::V, b: Self::V)
        ensures
            -1 <= Self::key_order(a, b) <= 1,
            (Self::key_order(a, b) == 0) == (a == b),
            Self::key_order(a, b) == -Self::key_order(b, a),
    ;

    fn compare(&self, other: &Self) -> (r: i8)
        ensures
            r as int == Self::key_order(self@, other@),
    ;
}

/// The names whose key is `k`, in input order.
pub open spec fn names_with_key<V>(keys: Seq<V>, names: Seq<Seq<char>>, k: V) -> Seq<Seq<char>>
    decreases keys.len(),
{
    if keys.len() == 0 {
        Seq::empty()
    } else {
        let n = keys.len() - 1;
        let rest = names_with_key(keys.drop_last(), names.take(n), k);
        if keys[n] == k {
            rest.push(names[n])
        } else {
            rest
        }
    }
}

/// `groups` holds, for each key that occurs, the names with that key in
/// input order; each key once, in ascending key order.
pub open spec fn is_grouping<K: GroupKey>(
    keys: Seq<K::V>,
    names: Seq<Seq<char>>,
    groups: Seq<(K::V, Seq<Seq<char>>)>,
) -> bool {
    &&& forall|g: int|
        0 <= g < groups.len() ==> #[trigger] groups[g].1 == names_with_key(keys, names, groups[g].0)
            && groups[g].1.len() > 0
    &&& forall|i: int| 0 <= i < keys.len() ==> exists|g: int| 0 <= g < groups.len() && #[trigger] groups[g].0 == #[trigger] keys[i]
    &&& forall|g: int| 0 <= g < groups.len() - 1 ==> K::key_order(#[trigger] groups[g].0, groups[g + 1].0) < 0
    &&& forall|g: int, h: int| 0 <= g < h < groups.len() ==> #[trigger] groups[g].0 != #[trigger] groups[h].0
}

pub open spec fn group_view<K: View>(g: (K, Vec<String>)) -> (K::V, Seq<Seq<char>>) {
    (g.0@, views(g.1@))
}

pub open spec fn group_views<K: View>(gs: Seq<(K, Vec<String>)>) -> Seq<(K::V, Seq<Seq<char>>)> {
    Seq::new(gs.len(), |i: int| group_view(gs[i]))
}

pub open spec fn key_views<K: View>(ks: Seq<K>) -> Seq<K::V> {
    Seq::new(ks.len(), |i: int| ks[i]@)
}

/// A key that is absent from the first `n` keys has no names there.
proof fn lemma_names_absent<V>(keys: Seq<V>, names: Seq<Seq<char>>, k: V)
    requires
        forall|i: int| 0 <= i < keys.len() ==> keys[i] != k,
    ensures
        names_with_key(keys, names, k) == Seq::<Seq<char>>::empty(),
    decreases keys.len(),
{
    if keys.len() > 0 {
        lemma_names_absent(keys.drop_last(), names.take(keys.len() - 1), k);
    }
}

/// Groups `names[i]` under `keys[i]`.
#[verifier::spinoff_prover]
pub fn group_sorted<K: GroupKey>(keys: Vec<K>, names: &Vec<String>) -> (groups: Vec<(K, Vec<String>)>)
    requires
        keys@.len() == names@.len(),
    ensures
        is_grouping::<K>(key_views(keys@), views(names@), group_views(groups@)),
{
    let ghost kv = key_views(keys@);
    let ghost nv = views(names@);
    let mut keys = keys;
    let mut groups: Vec<(K, Vec<String>)> = Vec::new();
    let mut i: usize = 0;
    while i < names.len()
        invariant
            nv == views(names@),
            kv.len() == nv.len(),
            i <= nv.len(),
            keys@.len() == nv.len() - i,
            forall|j: int| 0 <= j < keys@.len() ==> #[trigger] keys@[j]@ == kv[i + j],
            is_grouping::<K>(kv.take(i as int), nv.take(i as int), group_views(groups@)),
        decreases nv.len() - i,
    {
        let ghost ks = kv.take(i as int);
        let ghost ns = nv.take(i as int);
        let ghost ks1 = kv.take(i + 1);
        let ghost ns1 = nv.take(i + 1);
        let ghost old_g = group_views(groups@);
        proof {
            assert(ks1.drop_last() =~= ks);
            assert(ns1.take(i as int) =~= ns);
        }
        let ghost keys_before = keys@;
        let k = keys.remove(0);
        assert(k@ == kv[i as int]);
        let name = names[i].clone();
        proof {
            assert forall|j: int| 0 <= j < keys@.len() implies #[trigger] keys@[j]@ == kv[(i + 1) + j] by {
                assert(keys@[j] == keys_before[j + 1]);
            }
        }
        let mut found: usize = groups.len();
        let mut p: usize = 0;
        while p < groups.len() && found == groups.len()
            invariant
                p <= groups@.len(),
                old_g == group_views(groups@),
                found == groups@.len() || (found < groups@.len() && K::key_order(old_g[found as int].0, k@) == 0),
                found == groups@.len() ==> forall|q: int| 0 <= q < p ==> K::key_order(#[trigger] old_g[q].0, k@) != 0,
            decreases groups@.len() - p + (if found == groups@.len() { 1int } else { 0 }),
        {
            let c = groups[p].0.compare(&k);
            if c == 0 {
                found = p;
            } else {
                p = p + 1;
            }
        }
        if found < groups.len() {
            let ghost g = found as int;
            proof {
                K::lemma_key_order(old_g[g].0, k@);
            }
            let ghost before = groups@;
            let ghost name_v = name@;
            let (gk, mut gn) = groups.remove(found);
            proof {
                assert(gk == before[g].0 && gn == before[g].1);
                assert(views(gn@) == old_g[g].1);
            }
            let ghost gn0 = gn@;
            gn.push(name);
            proof {
                assert(gn@ == gn0.push(name));
                assert(views(gn@) =~= views(gn0).push(name_v));
                assert(name_v == nv[i as int]);
            }
            groups.insert(found, (gk, gn));
            proof {
                let new_g = group_views(groups@);
                assert(groups@ =~= before.update(g, (gk, gn)));
                assert(new_g =~= old_g.update(g, (k@, old_g[g].1.push(nv[i as int]))));
                assert forall|h: int| 0 <= h < new_g.len() implies #[trigger] new_g[h].1 == names_with_key(ks1, ns1, new_g[h].0)
                    && new_g[h].1.len() > 0 by {
                    if h != g {
                        assert(old_g[h].0 != old_g[g].0);
                    }
                }
                assert forall|j: int| 0 <= j < ks1.len() implies exists|h: int| 0 <= h < new_g.len() && #[trigger] new_g[h].0 == #[trigger] ks1[j] by {
                    if j < i {
                        assert(ks1[j] == ks[j]);
                        let h = choose|h: int| 0 <= h < old_g.len() && #[trigger] old_g[h].0 == #[trigger] ks[j];
                        assert(new_g[h].0 == ks1[j]);
                    } else {
                        assert(new_g[g].0 == ks1[j]);
                    }
                }
                assert forall|h: int| 0 <= h < new_g.len() - 1 implies K::key_order(#[trigger] new_g[h].0, new_g[h + 1].0) < 0 by {
                    assert(old_g[h].0 == new_g[h].0);
                    assert(old_g[h + 1].0 == new_g[h + 1].0);
                }
                assert forall|a: int, b: int| 0 <= a < b < new_g.len() implies #[trigger] new_g[a].0 != #[trigger] new_g[b].0 by {
                    assert(old_g[a].0 == new_g[a].0);
                    assert(old_g[b].0 == new_g[b].0);
                }
            }
        } else {
            proof {
                assert forall|q: int| 0 <= q < old_g.len() implies #[trigger] old_g[q].0 != k@ by {
                    K::lemma_key_order(old_g[q].0, k@);
                }
                assert forall|j: int| 0 <= j < ks.len() implies #[trigger] ks[j] != k@ by {
                    let h = choose|h: int| 0 <= h < old_g.len() && #[trigger] old_g[h].0 == #[trigger] ks[j];
                }
                lemma_names_absent(ks, ns, k@);
            }
            let mut at: usize = 0;
            while at < groups.len() && groups[at].0.compare(&k) < 0
                invariant
                    at <= groups@.len(),
                    old_g == group_views(groups@),
                    forall|q: int| 0 <= q < at ==> K::key_order(#[trigger] old_g[q].0, k@) < 0,
                decreases groups@.len() - at,
            {
                at = at + 1;
            }
            let ghost a = at as int;
            proof {
                if a < old_g.len() {
                    K::lemma_key_order(old_g[a].0, k@);
                }
                if a > 0 {
                    K::lemma_key_order(old_g[a - 1].0, k@);
                }
            }
            let ghost before = groups@;
            let ghost name_v = name@;
            let mut gn: Vec<String> = Vec::new();
            gn.push(name);
            proof {
                assert(views(gn@) =~= seq![name_v]);
                assert(name_v == nv[i as int]);
            }
            groups.insert(at, (k, gn));
            proof {
                let new_g = group_views(groups@);
                let x = (k@, seq![nv[i as int]]);
                assert(new_g =~= old_g.insert(a, x));
                assert(names_with_key(ks1, ns1, k@) =~= seq![nv[i as int]]);
                assert forall|h: int| 0 <= h < new_g.len() implies #[trigger] new_g[h].1 == names_with_key(ks1, ns1, new_g[h].0)
                    && new_g[h].1.len() > 0 by {
                    if h < a {
                        assert(new_g[h] == old_g[h]);
                    } else if h > a {
                        assert(new_g[h] == old_g[h - 1]);
                    }
                }
                assert forall|j: int| 0 <= j < ks1.len() implies exists|h: int| 0 <= h < new_g.len() && #[trigger] new_g[h].0 == #[trigger] ks1[j] by {
                    if j < i {
                        assert(ks1[j] == ks[j]);
                        let h = choose|h: int| 0 <= h < old_g.len() && #[trigger] old_g[h].0 == #[trigger] ks[j];
                        if h < a {
                            assert(new_g[h].0 == ks1[j]);
                        } else {
                            assert(new_g[h + 1].0 == ks1[j]);
                        }
                    } else {
                        assert(new_g[a].0 == ks1[j]);
                    }
                }
                assert forall|h: int| 0 <= h < new_g.len() - 1 implies K::key_order(#[trigger] new_g[h].0, new_g[h + 1].0) < 0 by {
                    if h + 1 < a {
                        assert(new_g[h] == old_g[h]);
                        assert(new_g[h + 1] == old_g[h + 1]);
                    } else if h + 1 == a {
                        assert(new_g[h] == old_g[h]);
                    } else if h == a {
                        assert(new_g[h + 1] == old_g[h]);
                    } else {
                        assert(new_g[h] == old_g[h - 1]);
                        assert(new_g[h + 1] == old_g[h]);
                    }
                }
                assert forall|b: int, c: int| 0 <= b < c < new_g.len() implies #[trigger] new_g[b].0 != #[trigger] new_g[c].0 by {
                    let ob = if b < a { b } else { b - 1 };
                    let oc = if c < a { c } else { c - 1 };
                    if b != a && c != a {
                        assert(new_g[b] == old_g[ob]);
                        assert(new_g[c] == old_g[oc]);
                    } else if b == a {
                        assert(new_g[c] == old_g[oc]);
                    } else {
                        assert(new_g[b] == old_g[ob]);
                    }
                }
            }
        }
        i = i + 1;
    }
    proof {
        assert(kv.take(i as int) =~= kv);
        assert(nv.take(i as int) =~= nv);
    }
    groups
}


/// A name whose key is `k` is among the names with key `k`.
pub proof fn lemma_names_with_key_has<V>(keys: Seq<V>, names: Seq<Seq<char>>, k: V, i: int)
    requires
        keys.len() == names.len(),
        0 <= i < keys.len(),
        keys[i] == k,
    ensures
        names_with_key(keys, names, k).contains(names[i]),
    decreases keys.len(),
{
    let n = keys.len() - 1;
    let rest = names_with_key(keys.drop_last(), names.take(n), k);
    let all = names_with_key(keys, names, k);
    if i < n {
        lemma_names_with_key_has(keys.drop_last(), names.take(n), k, i);
        assert(names.take(n)[i] == names[i]);
        let m = choose|m: int| 0 <= m < rest.len() && rest[m] == names[i];
        assert(all[m] == names[i]);
    } else {
        assert(all[all.len() - 1] == names[i]);
    }
}

/// Two positions with key `k` give at least two names with key `k`.
pub proof fn lemma_names_with_key_two<V>(keys: Seq<V>, names: Seq<Seq<char>>, k: V, i: int, j: int)
    requires
        keys.len() == names.len(),
        0 <= i < j < keys.len(),
        keys[i] == k,
        keys[j] == k,
    ensures
        names_with_key(keys, names, k).len() >= 2,
    decreases keys.len(),
{
    let n = keys.len() - 1;
    if j < n {
        lemma_names_with_key_two(keys.drop_last(), names.take(n), k, i, j);
    } else {
        lemma_names_with_key_has(keys.drop_last(), names.take(n), k, i);
    }
}

/// The names with a key are some of the names.
pub proof fn lemma_names_with_key_within<V>(keys: Seq<V>, names: Seq<Seq<char>>, k: V, x: Seq<char>)
    requires
        keys.len() == names.len(),
        names_with_key(keys, names, k).contains(x),
    ensures
        names.contains(x),
    decreases keys.len(),
{
    let n = keys.len() - 1;
    let rest = names_with_key(keys.drop_last(), names.take(n), k);
    if rest.contains(x) {
        lemma_names_with_key_within(keys.drop_last(), names.take(n), k, x);
        let m = choose|m: int| 0 <= m < names.take(n).len() && names.take(n)[m] == x;
        assert(names[m] == x);
    } else {
        assert(names[n] == x);
    }
}

} // verus!
