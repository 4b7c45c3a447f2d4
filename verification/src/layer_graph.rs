//! Cycles in the graph of architecture-layer edges, found by a depth-first
//! search that visits layers and their targets in name order.

use crate::csv::views;
use crate::order::{insert_sorted_unique, lemma_strictly_sorted_pairs, lex_lt, lemma_lex_total, str_lex, strictly_sorted};
use crate::text::str_eq;
use vstd::prelude::*;

verus! {

/// A graph over node indices: the successors of each node.
pub open spec fn valid_graph(adj: Seq<Seq<int>>) -> bool {
    forall|u: int, k: int| 0 <= u < adj.len() && 0 <= k < adj[u].len() ==> 0 <= #[trigger] adj[u][k] < adj.len()
}

pub open spec fn has_arc(adj: Seq<Seq<int>>, u: int, v: int) -> bool {
    0 <= u < adj.len() && adj[u].contains(v)
}

/// `c` is a cycle: each node leads to the next, and the last to the first.
pub open spec fn is_index_cycle(adj: Seq<Seq<int>>, c: Seq<int>) -> bool {
    &&& c.len() >= 1
    &&& forall|i: int| 0 <= i < c.len() - 1 ==> has_arc(adj, #[trigger] c[i], c[i + 1])
    &&& has_arc(adj, c.last(), c[0])
}

pub const UNSEEN: u8 = 0;

pub const ON_STACK: u8 = 1;

pub const DONE: u8 = 2;

/// The search state: marks per node, the path being explored, and (ghost)
/// the order in which nodes were finished.
pub open spec fn search_ok(adj: Seq<Seq<int>>, marks: Seq<u8>, stack: Seq<int>, fin: Seq<int>, counter: int) -> bool {
    &&& valid_graph(adj)
    &&& marks.len() == adj.len()
    &&& fin.len() == adj.len()
    &&& forall|u: int| 0 <= u < marks.len() ==> #[trigger] marks[u] <= DONE
    &&& forall|i: int| 0 <= i < stack.len() ==> 0 <= #[trigger] stack[i] < adj.len()
    &&& forall|i: int| 0 <= i < stack.len() ==> marks[#[trigger] stack[i]] == ON_STACK
    &&& forall|u: int| 0 <= u < marks.len() && marks[u] == ON_STACK ==> #[trigger] stack.contains(u)
    &&& forall|i: int, j: int| 0 <= i < j < stack.len() ==> #[trigger] stack[i] != #[trigger] stack[j]
    &&& forall|i: int| 0 <= i < stack.len() - 1 ==> has_arc(adj, #[trigger] stack[i], stack[i + 1])
    &&& forall|u: int, k: int|
        0 <= u < adj.len() && marks[u] == DONE && 0 <= k < adj[u].len() ==> marks[#[trigger] adj[u][k]] == DONE
            && fin[adj[u][k]] < fin[u]
    &&& forall|u: int| 0 <= u < marks.len() && #[trigger] marks[u] == DONE ==> fin[u] < counter
}

/// The number of nodes not yet seen.
pub open spec fn unseen_count(marks: Seq<u8>) -> nat
    decreases marks.len(),
{
    if marks.len() == 0 {
        0
    } else {
        unseen_count(marks.drop_last()) + if marks.last() == UNSEEN { 1nat } else { 0nat }
    }
}

proof fn lemma_unseen_update(marks: Seq<u8>, u: int, m: u8)
    requires
        0 <= u < marks.len(),
        marks[u] == UNSEEN,
        m != UNSEEN,
    ensures
        unseen_count(marks.update(u, m)) + 1 == unseen_count(marks),
    decreases marks.len(),
{
    if u < marks.len() - 1 {
        lemma_unseen_update(marks.drop_last(), u, m);
        assert(marks.update(u, m).drop_last() =~= marks.drop_last().update(u, m));
    } else {
        assert(marks.update(u, m).drop_last() =~= marks.drop_last());
    }
}

proof fn lemma_unseen_same(marks: Seq<u8>, u: int, m: u8)
    requires
        0 <= u < marks.len(),
        marks[u] != UNSEEN,
        m != UNSEEN,
    ensures
        unseen_count(marks.update(u, m)) == unseen_count(marks),
    decreases marks.len(),
{
    if u < marks.len() - 1 {
        lemma_unseen_same(marks.drop_last(), u, m);
        assert(marks.update(u, m).drop_last() =~= marks.drop_last().update(u, m));
    } else {
        assert(marks.update(u, m).drop_last() =~= marks.drop_last());
    }
}

/// Marks only move forward: unseen to anything, on-stack back to itself, done stays done.
pub open spec fn marks_progress(before: Seq<u8>, after: Seq<u8>) -> bool {
    &&& before.len() == after.len()
    &&& forall|u: int| 0 <= u < before.len() && before[u] == DONE ==> #[trigger] after[u] == DONE
    &&& forall|u: int| 0 <= u < before.len() && before[u] == ON_STACK ==> #[trigger] after[u] == ON_STACK
    &&& forall|u: int| 0 <= u < before.len() && #[trigger] after[u] == ON_STACK ==> before[u] == ON_STACK
}

/// The cycle closed by reaching `v` from the top of the stack.
fn cycle_from(stack: &Vec<usize>, v: usize) -> (c: Vec<usize>)
    requires
        stack@.contains(v),
    ensures
        exists|idx: int| 0 <= idx < stack@.len() && stack@[idx] == v && c@ == stack@.subrange(idx, stack@.len() as int),
{
    let mut idx: usize = 0;
    while idx < stack.len()
        invariant
            idx <= stack@.len(),
            forall|j: int| 0 <= j < idx ==> stack@[j] != v,
            stack@.contains(v),
        ensures
            idx <= stack@.len(),
            forall|j: int| 0 <= j < idx ==> stack@[j] != v,
            idx < stack@.len() ==> stack@[idx as int] == v,
        decreases stack@.len() - idx,
    {
        if stack[idx] == v {
            break;
        }
        idx = idx + 1;
    }
    if idx == stack.len() {
        proof {
            let j = choose|j: int| 0 <= j < stack@.len() && stack@[j] == v;
        }
        return Vec::new();
    }
    let mut out: Vec<usize> = Vec::new();
    let mut k = idx;
    while k < stack.len()
        invariant
            idx <= k <= stack@.len(),
            idx < stack@.len(),
            stack@[idx as int] == v,
            out@ == stack@.subrange(idx as int, k as int),
        decreases stack@.len() - k,
    {
        out.push(stack[k]);
        proof {
            assert(out@ =~= stack@.subrange(idx as int, k + 1));
        }
        k = k + 1;
    }
    out
}

pub open spec fn usize_seq_view(v: Seq<usize>) -> Seq<int> {
    v.map_values(|x: usize| x as int)
}

pub open spec fn adj_view(adj: Seq<Vec<usize>>) -> Seq<Seq<int>> {
    adj.map_values(|v: Vec<usize>| usize_seq_view(v@))
}

/// Explores from `u`; either returns a cycle, or finishes `u` and everything
/// reachable from it that was unseen.
fn dfs(
    adj: &Vec<Vec<usize>>,
    u: usize,
    marks: &mut Vec<u8>,
    stack: &mut Vec<usize>,
    Ghost(fin0): Ghost<Seq<int>>,
    Ghost(c0): Ghost<int>,
) -> (r: (Option<Vec<usize>>, Ghost<Seq<int>>, Ghost<int>))
    requires
        search_ok(adj_view(adj@), old(marks)@, usize_seq_view(old(stack)@), fin0, c0),
        u < adj@.len(),
        old(marks)@[u as int] == UNSEEN,
        old(stack)@.len() > 0 ==> has_arc(adj_view(adj@), old(stack)@.last() as int, u as int),
    ensures
        match r.0 {
            Some(c) => is_index_cycle(adj_view(adj@), usize_seq_view(c@)),
            None => {
                &&& search_ok(adj_view(adj@), final(marks)@, usize_seq_view(final(stack)@), r.1@, r.2@)
                &&& final(marks)@[u as int] == DONE
                &&& final(stack)@ == old(stack)@
                &&& marks_progress(old(marks)@, final(marks)@)
                &&& r.2@ >= c0
                &&& forall|w: int| 0 <= w < old(marks)@.len() && old(marks)@[w] == DONE ==> r.1@[w] == fin0[w]
            },
        },
    decreases unseen_count(old(marks)@),
{
    let ghost a = adj_view(adj@);
    let ghost m0 = marks@;
    let ghost s0 = stack@;
    proof {
        lemma_unseen_update(marks@, u as int, ON_STACK);
    }
    marks[u] = ON_STACK;
    stack.push(u);
    let ghost mut fin = fin0;
    let ghost mut counter = c0;
    proof {
        let sv = usize_seq_view(stack@);
        assert(sv =~= usize_seq_view(s0).push(u as int));
        assert(search_ok(a, marks@, sv, fin, counter)) by {
            assert forall|i: int, j: int| 0 <= i < j < sv.len() implies #[trigger] sv[i] != #[trigger] sv[j] by {
                if j == sv.len() - 1 {
                    assert(marks@[sv[i]] == ON_STACK);
                    assert(m0[sv[i]] == ON_STACK);
                }
            }
            assert forall|w: int| 0 <= w < marks@.len() && marks@[w] == ON_STACK implies #[trigger] sv.contains(w) by {
                if w == u {
                    assert(sv[sv.len() - 1] == w);
                } else {
                    assert(m0[w] == ON_STACK);
                    assert(usize_seq_view(s0).contains(w));
                    let k = choose|k: int| 0 <= k < usize_seq_view(s0).len() && usize_seq_view(s0)[k] == w;
                    assert(sv[k] == w);
                }
            }
            assert forall|i: int| 0 <= i < sv.len() - 1 implies has_arc(a, #[trigger] sv[i], sv[i + 1]) by {
                if i == sv.len() - 2 {
                    assert(sv[i] == s0.last() as int);
                }
            }
        }
    }
    let nbrs = &adj[u];
    let mut k: usize = 0;
    while k < nbrs.len()
        invariant
            a == adj_view(adj@),
            m0 == old(marks)@,
            nbrs == &adj@[u as int],
            u < adj@.len(),
                k <= nbrs@.len(),
            search_ok(a, marks@, usize_seq_view(stack@), fin, counter),
            marks@[u as int] == ON_STACK,
            stack@ == s0.push(u),
            marks@.len() == m0.len(),
            forall|w: int| 0 <= w < m0.len() && m0[w] == DONE ==> #[trigger] marks@[w] == DONE,
            forall|w: int| 0 <= w < m0.len() && m0[w] == ON_STACK ==> #[trigger] marks@[w] == ON_STACK,
            forall|w: int| 0 <= w < m0.len() && #[trigger] marks@[w] == ON_STACK ==> m0[w] == ON_STACK || w == u,
            forall|w: int| 0 <= w < m0.len() && m0[w] == DONE ==> fin[w] == fin0[w],
            counter >= c0,
            unseen_count(marks@) < unseen_count(m0),
            forall|j: int| 0 <= j < k ==> marks@[nbrs@[j] as int] == DONE && fin[nbrs@[j] as int] < counter,
        decreases nbrs@.len() - k,
    {
        let v = nbrs[k];
        proof {
            assert(a[u as int][k as int] == v as int);
            assert(0 <= v < adj@.len());
        }
        if marks[v] == ON_STACK {
            proof {
                let sv = usize_seq_view(stack@);
                assert(sv.contains(v as int));
                let j = choose|j: int| 0 <= j < sv.len() && sv[j] == v as int;
                assert(stack@[j] == v);
            }
            let c = cycle_from(stack, v);
            proof {
                let idx = choose|idx: int| 0 <= idx < stack@.len() && stack@[idx] == v && c@ == stack@.subrange(idx, stack@.len() as int);
                let cv = usize_seq_view(c@);
                let sv = usize_seq_view(stack@);
                assert forall|i: int| 0 <= i < cv.len() - 1 implies has_arc(a, #[trigger] cv[i], cv[i + 1]) by {
                    assert(cv[i] == sv[idx + i]);
                    assert(cv[i + 1] == sv[idx + i + 1]);
                }
                assert(cv.last() == u as int);
                assert(a[u as int].contains(v as int));
                assert(cv[0] == v as int);
            }
            return (Some(c), Ghost(fin), Ghost(counter));
        }
        if marks[v] == UNSEEN {
            proof {
                assert(usize_seq_view(stack@).last() == u as int);
            }
            let ghost mb = marks@;
            let (res, Ghost(f2), Ghost(c2)) = dfs(adj, v, marks, stack, Ghost(fin), Ghost(counter));
            match res {
                Some(c) => {
                    return (Some(c), Ghost(f2), Ghost(c2));
                },
                None => {
                    proof {
                        assert forall|j: int| 0 <= j < k implies marks@[nbrs@[j] as int] == DONE && f2[nbrs@[j] as int] < c2 by {
                            let w = nbrs@[j] as int;
                            assert(mb[w] == DONE);
                            assert(a[u as int][j] == w);
                            assert(0 <= w < mb.len());
                            assert(marks@[w] == DONE);
                            assert(f2[w] == fin[w]);
                        }
                        assert(unseen_count(marks@) <= unseen_count(mb)) by {
                            lemma_progress_unseen(mb, marks@);
                        }
                    }
                    proof {
                        fin = f2;
                        counter = c2;
                    }
                }
            }
        }
        k = k + 1;
    }
    stack.pop();
    proof {
        assert(stack@ =~= s0);
        lemma_unseen_same(marks@, u as int, DONE);
    }
    marks[u] = DONE;
    proof {
        let fin_new = fin.update(u as int, counter);
        let mm = marks@;
        let sv = usize_seq_view(stack@);
        assert forall|x: int, y: int| 0 <= x < a.len() && mm[x] == DONE && 0 <= y < a[x].len() implies mm[#[trigger] a[x][y]] == DONE && fin_new[a[x][y]] < fin_new[x] by {
            if x == u as int {
                assert(a[x][y] == nbrs@[y] as int);
                assert(marks@[nbrs@[y] as int] == DONE);
            } else {
                let w = a[x][y];
                if w == u as int {
                    // A node finished earlier cannot lead to `u`, which was on the stack.
                    assert(false);
                }
            }
        }
        fin = fin_new;
        counter = counter + 1;
        assert(search_ok(a, marks@, sv, fin, counter));
    }
    (None, Ghost(fin), Ghost(counter))
}

proof fn lemma_progress_unseen(before: Seq<u8>, after: Seq<u8>)
    requires
        before.len() == after.len(),
        forall|u: int| 0 <= u < before.len() && before[u] != UNSEEN ==> #[trigger] after[u] != UNSEEN,
    ensures
        unseen_count(after) <= unseen_count(before),
    decreases before.len(),
{
    if before.len() > 0 {
        lemma_progress_unseen(before.drop_last(), after.drop_last());
    }
}

proof fn lemma_fin_decreases_along(adj: Seq<Seq<int>>, marks: Seq<u8>, stack: Seq<int>, fin: Seq<int>, counter: int, c: Seq<int>, j: int)
    requires
        search_ok(adj, marks, stack, fin, counter),
        forall|w: int| 0 <= w < marks.len() ==> #[trigger] marks[w] == DONE,
        c.len() >= 1,
        0 <= c[0] < adj.len(),
        forall|i: int| 0 <= i < c.len() - 1 ==> has_arc(adj, #[trigger] c[i], c[i + 1]),
        1 <= j < c.len(),
    ensures
        0 <= c[j] < adj.len(),
        fin[c[j]] < fin[c[0]],
    decreases j,
{
    if j > 1 {
        lemma_fin_decreases_along(adj, marks, stack, fin, counter, c, j - 1);
    }
    let x = c[j - 1];
    assert(has_arc(adj, x, c[j]));
    let y = choose|y: int| 0 <= y < adj[x].len() && adj[x][y] == c[j];
    assert(marks[x] == DONE);
    assert(marks[adj[x][y]] == DONE && fin[adj[x][y]] < fin[x]);
}

/// When every node is finished, the graph has no cycle.
proof fn lemma_finished_graph_is_acyclic(adj: Seq<Seq<int>>, marks: Seq<u8>, fin: Seq<int>, counter: int, c: Seq<int>)
    requires
        search_ok(adj, marks, Seq::empty(), fin, counter),
        forall|w: int| 0 <= w < marks.len() ==> #[trigger] marks[w] == DONE,
    ensures
        !is_index_cycle(adj, c),
{
    if is_index_cycle(adj, c) {
        let last = c.last();
        assert(has_arc(adj, last, c[0]));
        let y = choose|y: int| 0 <= y < adj[last].len() && adj[last][y] == c[0];
        assert(0 <= last < adj.len());
        assert(marks[last] == DONE);
        assert(fin[adj[last][y]] < fin[last]);
        assert(0 <= c[0] < adj.len());
        if c.len() > 1 {
            lemma_fin_decreases_along(adj, marks, Seq::empty(), fin, counter, c, c.len() - 1);
        }
    }
}

/// A cycle of the graph over node indices, if it has one.
pub fn find_index_cycle(adj: &Vec<Vec<usize>>) -> (r: Option<Vec<usize>>)
    requires
        valid_graph(adj_view(adj@)),
    ensures
        r matches Some(c) ==> is_index_cycle(adj_view(adj@), usize_seq_view(c@)),
        r is None ==> forall|c: Seq<int>| !is_index_cycle(adj_view(adj@), c),
{
    let n = adj.len();
    let mut marks: Vec<u8> = Vec::new();
    let mut i: usize = 0;
    while i < n
        invariant
            i <= n,
            n == adj@.len(),
            marks@.len() == i,
            forall|w: int| 0 <= w < i ==> #[trigger] marks@[w] == UNSEEN,
        decreases n - i,
    {
        marks.push(UNSEEN);
        i = i + 1;
    }
    let mut stack: Vec<usize> = Vec::new();
    let ghost mut fin: Seq<int> = Seq::new(n as nat, |w: int| 0);
    let ghost mut counter: int = 0;
    proof {
        assert(usize_seq_view(stack@) =~= Seq::<int>::empty());
    }
    let mut u: usize = 0;
    while u < n
        invariant
            u <= n,
            n == adj@.len(),
                search_ok(adj_view(adj@), marks@, usize_seq_view(stack@), fin, counter),
            stack@.len() == 0,
            forall|w: int| 0 <= w < u ==> #[trigger] marks@[w] == DONE,
        decreases n - u,
    {
        if marks[u] == UNSEEN {
            let ghost mb = marks@;
            let (res, Ghost(f2), Ghost(c2)) = dfs(adj, u, &mut marks, &mut stack, Ghost(fin), Ghost(counter));
            match res {
                Some(c) => {
                    return Some(c);
                },
                None => {
                    proof {
                        fin = f2;
                        counter = c2;
                        assert forall|w: int| 0 <= w < u + 1 implies #[trigger] marks@[w] == DONE by {
                            if w < u {
                                assert(mb[w] == DONE);
                            }
                        }
                    }
                },
            }
        } else if marks[u] == ON_STACK {
            proof {
                assert(usize_seq_view(stack@).contains(u as int));
            }
        }
        u = u + 1;
    }
    proof {
        assert(usize_seq_view(stack@) =~= Seq::<int>::empty());
        assert forall|c: Seq<int>| !is_index_cycle(adj_view(adj@), c) by {
            lemma_finished_graph_is_acyclic(adj_view(adj@), marks@, fin, counter, c);
        }
    }
    None
}

/// `c` is a cycle of layer edges.
pub open spec fn edge_cycle(edges: Seq<(String, String)>, c: Seq<Seq<char>>) -> bool {
    &&& c.len() >= 1
    &&& forall|i: int| 0 <= i < c.len() - 1 ==> crate::arch_layers::has_edge(edges, #[trigger] c[i], c[i + 1])
    &&& crate::arch_layers::has_edge(edges, c.last(), c[0])
}

/// The layers that occur in the edges.
pub open spec fn endpoint(edges: Seq<(String, String)>, s: Seq<char>) -> bool {
    exists|k: int| 0 <= k < edges.len() && ((#[trigger] edges[k]).0@ == s || edges[k].1@ == s)
}

fn endpoints(edges: &Vec<(String, String)>) -> (out: Vec<String>)
    ensures
        strictly_sorted(views(out@)),
        forall|s: Seq<char>| views(out@).contains(s) <==> endpoint(edges@, s),
{
    let mut out: Vec<String> = Vec::new();
    let mut k: usize = 0;
    while k < edges.len()
        invariant
            k <= edges@.len(),
            strictly_sorted(views(out@)),
            forall|s: Seq<char>|
                views(out@).contains(s) <==> exists|j: int| 0 <= j < k && ((#[trigger] edges@[j]).0@ == s || edges@[j].1@ == s),
        decreases edges@.len() - k,
    {
        let ghost b0 = views(out@);
        insert_sorted_unique(&mut out, edges[k].0.clone());
        let ghost b1 = views(out@);
        insert_sorted_unique(&mut out, edges[k].1.clone());
        proof {
            assert forall|s: Seq<char>|
                views(out@).contains(s) <==> exists|j: int| 0 <= j < k + 1 && ((#[trigger] edges@[j]).0@ == s || edges@[j].1@ == s) by {
                assert(views(out@).to_set().contains(s) == views(out@).contains(s));
                assert(b1.to_set().contains(s) == b1.contains(s));
                assert(b0.to_set().contains(s) == b0.contains(s));
                if s == edges@[k as int].0@ || s == edges@[k as int].1@ {
                    assert(views(out@).to_set().contains(s));
                }
                if exists|j: int| 0 <= j < k + 1 && ((#[trigger] edges@[j]).0@ == s || edges@[j].1@ == s) {
                    let j = choose|j: int| 0 <= j < k + 1 && ((#[trigger] edges@[j]).0@ == s || edges@[j].1@ == s);
                    if j < k {
                        assert(b0.contains(s));
                    }
                }
            }
        }
        k = k + 1;
    }
    out
}

fn index_of(nodes: &Vec<String>, s: &str) -> (r: Option<usize>)
    ensures
        r matches Some(i) ==> i < nodes@.len() && nodes@[i as int]@ == s@,
        r is None ==> !views(nodes@).contains(s@),
{
    let mut i: usize = 0;
    while i < nodes.len()
        invariant
            i <= nodes@.len(),
            forall|j: int| 0 <= j < i ==> nodes@[j]@ != s@,
        decreases nodes@.len() - i,
    {
        if str_eq(nodes[i].as_str(), s) {
            return Some(i);
        }
        i = i + 1;
    }
    proof {
        if views(nodes@).contains(s@) {
            let j = choose|j: int| 0 <= j < views(nodes@).len() && views(nodes@)[j] == s@;
            assert(nodes@[j]@ == s@);
        }
    }
    None
}

/// Adds `v` to the increasing list `out` unless it is there.
fn insert_index(out: &mut Vec<usize>, v: usize)
    requires
        forall|i: int, j: int| 0 <= i < j < old(out)@.len() ==> old(out)@[i] < old(out)@[j],
    ensures
        forall|i: int, j: int| 0 <= i < j < final(out)@.len() ==> final(out)@[i] < final(out)@[j],
        forall|x: usize| final(out)@.contains(x) <==> old(out)@.contains(x) || x == v,
{
    let ghost o = out@;
    let mut p: usize = 0;
    while p < out.len() && out[p] < v
        invariant
            out@ == o,
            p <= o.len(),
            forall|i: int| 0 <= i < p ==> o[i] < v,
        decreases o.len() - p,
    {
        p = p + 1;
    }
    if p < out.len() && out[p] == v {
        return;
    }
    out.insert(p, v);
    proof {
        let n = out@;
        assert(n =~= o.insert(p as int, v));
        assert forall|x: usize| n.contains(x) <==> o.contains(x) || x == v by {
            if n.contains(x) {
                let i = choose|i: int| 0 <= i < n.len() && n[i] == x;
                if i < p {
                    assert(o[i] == x);
                } else if i > p {
                    assert(o[i - 1] == x);
                }
            }
            if o.contains(x) {
                let i = choose|i: int| 0 <= i < o.len() && o[i] == x;
                if i < p {
                    assert(n[i] == x);
                } else {
                    assert(n[i + 1] == x);
                }
            }
            if x == v {
                assert(n[p as int] == x);
            }
        }
    }
}

/// The successors of `nodes[u]`, as increasing indices.
fn successors(edges: &Vec<(String, String)>, nodes: &Vec<String>, u: usize) -> (out: Vec<usize>)
    requires
        u < nodes@.len(),
        strictly_sorted(views(nodes@)),
        forall|s: Seq<char>| views(nodes@).contains(s) <==> endpoint(edges@, s),
    ensures
        forall|i: int, j: int| 0 <= i < j < out@.len() ==> out@[i] < out@[j],
        forall|i: int| 0 <= i < out@.len() ==> #[trigger] out@[i] < nodes@.len(),
        forall|v: usize|
            v < nodes@.len() ==> (#[trigger] out@.contains(v) <==> crate::arch_layers::has_edge(
                edges@,
                nodes@[u as int]@,
                nodes@[v as int]@,
            )),
{
    let mut out: Vec<usize> = Vec::new();
    let mut k: usize = 0;
    while k < edges.len()
        invariant
            u < nodes@.len(),
            k <= edges@.len(),
            strictly_sorted(views(nodes@)),
            forall|s: Seq<char>| views(nodes@).contains(s) <==> endpoint(edges@, s),
            forall|i: int, j: int| 0 <= i < j < out@.len() ==> out@[i] < out@[j],
            forall|i: int| 0 <= i < out@.len() ==> #[trigger] out@[i] < nodes@.len(),
            forall|v: usize|
                v < nodes@.len() ==> (#[trigger] out@.contains(v) <==> edge_before(edges@, k as int, nodes@[u as int]@, nodes@[v as int]@)),
        decreases edges@.len() - k,
    {
        let ghost before = out@;
        let matches = str_eq(edges[k].0.as_str(), nodes[u].as_str());
        if matches {
            proof {
                assert(endpoint(edges@, edges@[k as int].1@));
                assert(views(nodes@).contains(edges@[k as int].1@));
            }
            match index_of(nodes, edges[k].1.as_str()) {
                Some(v0) => {
                    insert_index(&mut out, v0);
                    proof {
                        assert forall|v: usize|
                            v < nodes@.len() implies (#[trigger] out@.contains(v) <==> edge_before(edges@, k + 1, nodes@[u as int]@, nodes@[v as int]@)) by {
                            lemma_strictly_sorted_unique(nodes@, v as int);
                            lemma_edge_before_step(edges@, k as int, nodes@[u as int]@, nodes@[v as int]@);
                            if edges@[k as int].1@ == nodes@[v as int]@ {
                                assert(nodes@[v0 as int]@ == nodes@[v as int]@);
                                assert(v0 as int == v as int);
                            }
                        }
                        assert forall|i: int| 0 <= i < out@.len() implies #[trigger] out@[i] < nodes@.len() by {
                            assert(out@.contains(out@[i]));
                            if out@[i] != v0 {
                                assert(before.contains(out@[i]));
                                let j = choose|j: int| 0 <= j < before.len() && before[j] == out@[i];
                            }
                        }
                    }
                },
                None => {},
            }
        } else {
            proof {
                assert forall|v: usize|
                    v < nodes@.len() implies (#[trigger] out@.contains(v) <==> edge_before(edges@, k + 1, nodes@[u as int]@, nodes@[v as int]@)) by {
                    lemma_edge_before_step(edges@, k as int, nodes@[u as int]@, nodes@[v as int]@);
                }
            }
        }
        k = k + 1;
    }
    proof {
        assert forall|v: usize|
            v < nodes@.len() implies (#[trigger] out@.contains(v) <==> crate::arch_layers::has_edge(
                edges@,
                nodes@[u as int]@,
                nodes@[v as int]@,
            )) by {
            lemma_edge_before_all(edges@, nodes@[u as int]@, nodes@[v as int]@);
        }
    }
    out
}

/// Some edge among the first `k` goes from `a` to `b`.
pub open spec fn edge_before(edges: Seq<(String, String)>, k: int, a: Seq<char>, b: Seq<char>) -> bool {
    exists|j: int| 0 <= j < k && (#[trigger] edges[j]).0@ == a && edges[j].1@ == b
}

proof fn lemma_edge_before_step(edges: Seq<(String, String)>, k: int, a: Seq<char>, b: Seq<char>)
    requires
        0 <= k < edges.len(),
    ensures
        edge_before(edges, k + 1, a, b) <==> (edge_before(edges, k, a, b) || (edges[k].0@ == a && edges[k].1@ == b)),
{
    if edge_before(edges, k + 1, a, b) {
        let j = choose|j: int| 0 <= j < k + 1 && (#[trigger] edges[j]).0@ == a && edges[j].1@ == b;
        if j < k {
            assert(edge_before(edges, k, a, b));
        }
    }
    if edge_before(edges, k, a, b) {
        let j = choose|j: int| 0 <= j < k && (#[trigger] edges[j]).0@ == a && edges[j].1@ == b;
        assert(0 <= j < k + 1);
    }
    if edges[k].0@ == a && edges[k].1@ == b {
        assert(0 <= k < k + 1);
    }
}

proof fn lemma_edge_before_all(edges: Seq<(String, String)>, a: Seq<char>, b: Seq<char>)
    ensures
        edge_before(edges, edges.len() as int, a, b) == crate::arch_layers::has_edge(edges, a, b),
{
}

/// In a strictly sorted list, only index `v` holds `nodes[v]`.
proof fn lemma_strictly_sorted_unique(nodes: Seq<String>, v: int)
    requires
        0 <= v < nodes.len(),
    ensures
        strictly_sorted(views(nodes)) ==> forall|w: int| 0 <= w < nodes.len() && #[trigger] nodes[w]@ == nodes[v]@ ==> w == v,
{
    if strictly_sorted(views(nodes)) {
        assert forall|w: int| 0 <= w < nodes.len() && #[trigger] nodes[w]@ == nodes[v]@ implies w == v by {
            if w < v {
                lemma_strictly_sorted_pairs(views(nodes), w, v);
                lemma_lex_total(nodes[v]@, nodes[v]@);
            } else if w > v {
                lemma_strictly_sorted_pairs(views(nodes), v, w);
                lemma_lex_total(nodes[v]@, nodes[v]@);
            }
        }
    }
}

proof fn lemma_view_contains(v: Seq<usize>, x: usize)
    ensures
        usize_seq_view(v).contains(x as int) == v.contains(x),
{
    if v.contains(x) {
        let i = choose|i: int| 0 <= i < v.len() && v[i] == x;
        assert(usize_seq_view(v)[i] == x as int);
    }
    if usize_seq_view(v).contains(x as int) {
        let i = choose|i: int| 0 <= i < usize_seq_view(v).len() && usize_seq_view(v)[i] == x as int;
        assert(v[i] == x);
    }
}

/// The index of a layer among the nodes.
pub open spec fn node_index(nodes: Seq<String>, s: Seq<char>) -> int {
    choose|i: int| 0 <= i < nodes.len() && nodes[i]@ == s
}

/// A cycle in the graph of layer edges, if there is one: the layers along it,
/// each leading to the next and the last back to the first.
pub fn has_cycle(edges: &Vec<(String, String)>) -> (r: Option<Vec<String>>)
    ensures
        r matches Some(c) ==> edge_cycle(edges@, views(c@)),
        r is None ==> forall|c: Seq<Seq<char>>| !edge_cycle(edges@, c),
{
    let nodes = endpoints(edges);
    let n = nodes.len();
    let mut adj: Vec<Vec<usize>> = Vec::new();
    let mut u: usize = 0;
    while u < n
        invariant
            n == nodes@.len(),
            u <= n,
            adj@.len() == u,
            strictly_sorted(views(nodes@)),
            forall|s: Seq<char>| views(nodes@).contains(s) <==> endpoint(edges@, s),
            forall|w: int, i: int| 0 <= w < u && 0 <= i < adj@[w]@.len() ==> #[trigger] adj@[w]@[i] < n,
            forall|w: int, v: usize|
                0 <= w < u && v < n ==> (#[trigger] adj@[w]@.contains(v) <==> crate::arch_layers::has_edge(
                    edges@,
                    nodes@[w]@,
                    nodes@[v as int]@,
                )),
        decreases n - u,
    {
        adj.push(successors(edges, &nodes, u));
        u = u + 1;
    }
    let ghost a = adj_view(adj@);
    proof {
        assert(valid_graph(a)) by {
            assert forall|x: int, k: int| 0 <= x < a.len() && 0 <= k < a[x].len() implies 0 <= #[trigger] a[x][k] < a.len() by {
                assert(a[x][k] == adj@[x]@[k] as int);
            }
        }
    }
    match find_index_cycle(&adj) {
        Some(c) => {
            let mut out: Vec<String> = Vec::new();
            let mut i: usize = 0;
            let ghost cv = usize_seq_view(c@);
            proof {
                assert forall|j: int| 0 <= j < cv.len() implies 0 <= #[trigger] cv[j] < n by {
                    if j < cv.len() - 1 {
                        assert(has_arc(a, cv[j], cv[j + 1]));
                    } else {
                        assert(has_arc(a, cv.last(), cv[0]));
                    }
                }
            }
            while i < c.len()
                invariant
                    i <= c@.len(),
                    cv == usize_seq_view(c@),
                    n == nodes@.len(),
                    forall|j: int| 0 <= j < cv.len() ==> 0 <= #[trigger] cv[j] < n,
                    out@.len() == i,
                    forall|j: int| 0 <= j < i ==> (#[trigger] out@[j])@ == nodes@[cv[j]]@,
                decreases c@.len() - i,
            {
                proof {
                    assert(cv[i as int] == c@[i as int] as int);
                }
                out.push(nodes[c[i]].clone());
                i = i + 1;
            }
            proof {
                let sv = views(out@);
                assert forall|j: int| 0 <= j < sv.len() - 1 implies crate::arch_layers::has_edge(edges@, #[trigger] sv[j], sv[j + 1]) by {
                    assert(has_arc(a, cv[j], cv[j + 1]));
                    let x = cv[j];
                    let y = cv[j + 1];
                    assert(a[x] == usize_seq_view(adj@[x]@));
                    lemma_view_contains(adj@[x]@, y as usize);
                    assert(adj@[x]@.contains(y as usize));
                }
                let x = cv.last();
                let y = cv[0];
                assert(has_arc(a, x, y));
                lemma_view_contains(adj@[x]@, y as usize);
                assert(adj@[x]@.contains(y as usize));
                assert(sv.last() == nodes@[x]@);
            }
            Some(out)
        },
        None => {
            proof {
                assert forall|c: Seq<Seq<char>>| !edge_cycle(edges@, c) by {
                    if edge_cycle(edges@, c) {
                        let ci = c.map_values(|s: Seq<char>| node_index(nodes@, s));
                        assert forall|j: int| 0 <= j < c.len() implies views(nodes@).contains(#[trigger] c[j]) by {
                            if j < c.len() - 1 {
                                assert(crate::arch_layers::has_edge(edges@, c[j], c[j + 1]));
                                let k = choose|k: int| 0 <= k < edges@.len() && (#[trigger] edges@[k]).0@ == c[j] && edges@[k].1@ == c[j + 1];
                                assert(endpoint(edges@, c[j]));
                            } else {
                                let k = choose|k: int| 0 <= k < edges@.len() && (#[trigger] edges@[k]).0@ == c.last() && edges@[k].1@ == c[0];
                                assert(endpoint(edges@, c[j]));
                            }
                        }
                        assert forall|j: int| 0 <= j < c.len() implies 0 <= #[trigger] ci[j] < n && nodes@[ci[j]]@ == c[j] by {
                            assert(views(nodes@).contains(c[j]));
                            let k = choose|k: int| 0 <= k < views(nodes@).len() && views(nodes@)[k] == c[j];
                            assert(nodes@[k]@ == c[j]);
                        }
                        assert forall|j: int| 0 <= j < ci.len() - 1 implies has_arc(a, #[trigger] ci[j], ci[j + 1]) by {
                            let x = ci[j];
                            let y = ci[j + 1];
                            assert(nodes@[x]@ == c[j] && nodes@[y]@ == c[j + 1]);
                            assert(adj@[x]@.contains(y as usize));
                            lemma_view_contains(adj@[x]@, y as usize);
                        }
                        let x = ci.last();
                        let y = ci[0];
                        assert(nodes@[x]@ == c.last() && nodes@[y]@ == c[0]);
                        assert(adj@[x]@.contains(y as usize));
                        lemma_view_contains(adj@[x]@, y as usize);
                        assert(is_index_cycle(a, ci));
                    }
                }
            }
            None
        },
    }
}

/// `v` reports a cycle of two or more layers of the edges.
pub open spec fn cycle_report(v: crate::api::ViolationView, edges: Seq<(String, String)>, check_id: Seq<char>) -> bool {
    exists|c: Seq<Seq<char>>|
        #[trigger] edge_cycle(edges, c) && c.len() > 1 && v == (crate::api::ViolationView {
            code: "arch_layers.cycle_detected"@,
            message: "detected cycle in architecture layer graph"@,
            path: None,
            details: Some(seq![
                ("check_id"@, crate::api::DetailValueView::Str(check_id)),
                ("cycle"@, crate::api::DetailValueView::StrList(c)),
            ]),
            tier: crate::api::ViolationTier::Blocking,
        })
}

/// The cycle report of an architecture-layer check: a blocking violation
/// listing a cycle of two or more layers, where the edges have one.
pub fn cycle_violation(check_id: &str, edges: &Vec<(String, String)>) -> (r: Option<crate::api::Violation>)
    ensures
        r matches Some(v) ==> cycle_report(crate::api::violation_view(v), edges@, check_id@),
        r is None ==> (forall|c: Seq<Seq<char>>| !edge_cycle(edges@, c)) || (exists|c: Seq<Seq<char>>|
            #[trigger] edge_cycle(edges@, c) && c.len() <= 1),
        r matches Some(v) ==> {
            &&& v.code@ == "arch_layers.cycle_detected"@
            &&& v.message@ == "detected cycle in architecture layer graph"@
            &&& v.path is None
            &&& v.tier == crate::api::ViolationTier::Blocking
            &&& v.details is Some
            &&& v.details.unwrap().fields@.len() == 2
            &&& v.details.unwrap().fields@[0].0@ == "check_id"@
            &&& v.details.unwrap().fields@[1].0@ == "cycle"@
            &&& exists|c: Seq<Seq<char>>| #[trigger] edge_cycle(edges@, c) && c.len() > 1
                && crate::api::detail_value_view(v.details.unwrap().fields@[1].1) == crate::api::DetailValueView::StrList(c)
                && crate::api::detail_value_view(v.details.unwrap().fields@[0].1) == crate::api::DetailValueView::Str(check_id@)
        },
        (forall|c: Seq<Seq<char>>| !edge_cycle(edges@, c)) ==> r is None,
{
    match has_cycle(edges) {
        Some(c) => {
            if c.len() > 1 {
                let ghost cv = views(c@);
                let mut fields: Vec<(String, crate::api::DetailValue)> = Vec::new();
                fields.push((String::from_str("check_id"), crate::api::DetailValue::Str(String::from_str(check_id))));
                fields.push((String::from_str("cycle"), crate::api::DetailValue::StrList(c)));
                let v = crate::api::Violation::blocking(
                    String::from_str("arch_layers.cycle_detected"),
                    String::from_str("detected cycle in architecture layer graph"),
                    None,
                    Some(crate::api::Details { fields }),
                );
                proof {
                    assert(crate::api::detail_value_view(v.details.unwrap().fields@[1].1) == crate::api::DetailValueView::StrList(cv));
                    assert(edge_cycle(edges@, cv));
                    assert(crate::api::details_view(v.details).unwrap() =~= seq![
                        ("check_id"@, crate::api::DetailValueView::Str(check_id@)),
                        ("cycle"@, crate::api::DetailValueView::StrList(cv)),
                    ]);
                    assert(cv.len() > 1);
                }
                Some(v)
            } else {
                proof {
                    assert(edge_cycle(edges@, views(c@)));
                }
                None
            }
        },
        None => None,
    }
}

} // verus!
