//! Cycle detection in the graph of actions calling actions, by depth-first
//! search with three colours: white (not visited), gray (on the current
//! search path) and black (finished, with every descendant explored).
//!
//! Meeting a gray node closes a cycle; the first one met is reported with
//! its chain (`A → B → A`) and the span of the call that closes it.

use vstd::prelude::*;

use crate::ast::Span;
use crate::text::{push_str, spec_join};
use crate::ty::string_clone;

verus! {

/// One call made by an action: the called action and where the call stands.
pub struct CallEdge {
    pub callee: String,
    pub span: Span,
}

/// An action with the calls it makes, in source order.
pub struct CallNode {
    pub name: String,
    pub callees: Vec<CallEdge>,
}

/// A call cycle: `action` is the action that closes it, `cycle` the chain
/// of names joined by ` → `, and `span` the call that closes it.
pub struct CycleError {
    pub action: String,
    pub cycle: String,
    pub span: Span,
}

#[derive(Clone, Copy, PartialEq, Eq, Structural)]
enum Color {
    White,
    Gray,
    Black,
}

/// The name of node `i`.
pub open spec fn node_name(g: Seq<CallNode>, i: int) -> Seq<char> {
    g[i].name@
}

/// No two nodes share a name: the graph is a map from names to calls.
pub open spec fn distinct_names(g: Seq<CallNode>) -> bool {
    forall|a: int, b: int|
        0 <= a < b < g.len() ==> #[trigger] node_name(g, a) != #[trigger] node_name(g, b)
}

/// Call number `k` of node `u` calls node `v`.
pub open spec fn call_to(g: Seq<CallNode>, u: int, k: int, v: int) -> bool {
    &&& 0 <= u < g.len()
    &&& 0 <= v < g.len()
    &&& 0 <= k < g[u].callees@.len()
    &&& g[u].callees@[k].callee@ == node_name(g, v)
}

/// Node `u` calls node `v`; calls to names that are no node do not count.
pub open spec fn edge(g: Seq<CallNode>, u: int, v: int) -> bool {
    exists|k: int| call_to(g, u, k, v)
}

/// `p` is a closed walk of at least one call: it starts and ends at the
/// same node and each step follows a call.
pub open spec fn is_cycle(g: Seq<CallNode>, p: Seq<int>) -> bool {
    &&& p.len() >= 2
    &&& p[0] == p[p.len() - 1]
    &&& forall|j: int| 0 <= j < p.len() - 1 ==> #[trigger] edge(g, p[j], p[j + 1])
}

pub open spec fn acyclic(g: Seq<CallNode>) -> bool {
    forall|p: Seq<int>| !is_cycle(g, p)
}

/// The names along `p`.
pub open spec fn path_names(g: Seq<CallNode>, p: Seq<int>) -> Seq<Seq<char>> {
    Seq::new(p.len(), |i: int| node_name(g, p[i]))
}

/// `e` reports the cycle `p`: the action that closes it, its chain, and the
/// span of one call from the last step's node to that action.
pub open spec fn reports(g: Seq<CallNode>, e: CycleError, p: Seq<int>) -> bool {
    &&& is_cycle(g, p)
    &&& e.action@ == node_name(g, p[p.len() - 1])
    &&& e.cycle@ == spec_join(path_names(g, p), " → "@)
    &&& exists|k: int|
        #[trigger] call_to(g, p[p.len() - 2], k, p[p.len() - 1]) && e.span == g[p[p.len()
            - 2]].callees@[k].span
}

spec fn count_white(c: Seq<Color>) -> nat
    decreases c.len(),
{
    if c.len() == 0 {
        0
    } else {
        count_white(c.drop_last()) + if c.last() == Color::White {
            1nat
        } else {
            0nat
        }
    }
}

proof fn lemma_count_white_monotone(a: Seq<Color>, b: Seq<Color>)
    requires
        a.len() == b.len(),
        forall|i: int| 0 <= i < a.len() && a[i] != Color::White ==> b[i] != Color::White,
    ensures
        count_white(b) <= count_white(a),
    decreases a.len(),
{
    if a.len() > 0 {
        lemma_count_white_monotone(a.drop_last(), b.drop_last());
    }
}

proof fn lemma_count_white_gray(a: Seq<Color>, u: int)
    requires
        0 <= u < a.len(),
        a[u] == Color::White,
    ensures
        count_white(a.update(u, Color::Gray)) + 1 == count_white(a),
    decreases a.len(),
{
    let b = a.update(u, Color::Gray);
    if u == a.len() - 1 {
        assert(b.drop_last() =~= a.drop_last());
    } else {
        assert(b.drop_last() =~= a.drop_last().update(u, Color::Gray));
        lemma_count_white_gray(a.drop_last(), u);
    }
}

/// The search state: `path` holds exactly the gray nodes, each a call from
/// the one before; a black node calls only black nodes, each finished
/// earlier (`rank`), and every rank is below `clock`.
spec fn dfs_inv(g: Seq<CallNode>, colors: Seq<Color>, path: Seq<usize>, rank: Seq<int>, clock: int) -> bool {
    &&& colors.len() == g.len()
    &&& rank.len() == g.len()
    &&& forall|j: int| 0 <= j < path.len() ==> (#[trigger] path[j]) < g.len()
    &&& forall|i: usize| i < g.len() ==> (#[trigger] colors[i as int] == Color::Gray <==> path.contains(i))
    &&& forall|a: int, b: int| 0 <= a < b < path.len() ==> #[trigger] path[a] != #[trigger] path[b]
    &&& forall|j: int| 0 <= j < path.len() - 1 ==> #[trigger] edge(g, path[j] as int, path[j + 1] as int)
    &&& forall|u: int, v: int|
        0 <= u < g.len() && colors[u] == Color::Black && #[trigger] edge(g, u, v) ==> colors[v] == Color::Black
            && rank[v] < rank[u]
    &&& forall|u: int| 0 <= u < g.len() && #[trigger] colors[u] == Color::Black ==> rank[u] < clock
}

/// Black nodes stay black with their rank, and visited nodes stay visited.
spec fn progress(c0: Seq<Color>, r0: Seq<int>, c1: Seq<Color>, r1: Seq<int>) -> bool {
    &&& c0.len() == c1.len()
    &&& forall|i: int|
        0 <= i < c0.len() && #[trigger] c0[i] == Color::Black ==> c1[i] == Color::Black && r1[i] == r0[i]
    &&& forall|i: int| 0 <= i < c0.len() && #[trigger] c0[i] != Color::White ==> c1[i] != Color::White
}

/// The index of the node named `name`, if there is one.
pub fn find_node(g: &Vec<CallNode>, name: &String) -> (r: Option<usize>)
    ensures
        match r {
            Some(i) => i < g@.len() && node_name(g@, i as int) == name@,
            None => forall|i: int| 0 <= i < g@.len() ==> node_name(g@, i) != name@,
        },
{
    let mut i: usize = 0;
    while i < g.len()
        invariant
            i <= g@.len(),
            forall|j: int| 0 <= j < i ==> node_name(g@, j) != name@,
        decreases g@.len() - i,
    {
        if g[i].name == *name {
            return Some(i);
        }
        i += 1;
    }
    None
}

proof fn lemma_ranks_decrease(g: Seq<CallNode>, colors: Seq<Color>, path: Seq<usize>, rank: Seq<int>, clock: int, p: Seq<int>, m: int)
    requires
        dfs_inv(g, colors, path, rank, clock),
        forall|i: int| 0 <= i < g.len() ==> colors[i] == Color::Black,
        p.len() >= 2,
        forall|j: int| 0 <= j < p.len() - 1 ==> #[trigger] edge(g, p[j], p[j + 1]),
        1 <= m < p.len(),
    ensures
        0 <= p[m] < g.len(),
        rank[p[m]] < rank[p[0]],
    decreases m,
{
    let j = m - 1;
    assert(edge(g, p[j], p[j + 1]));
    let k = choose|k: int| #[trigger] call_to(g, p[j], k, p[j + 1]);
    assert(call_to(g, p[j], k, p[j + 1]));
    if m > 1 {
        lemma_ranks_decrease(g, colors, path, rank, clock, p, m - 1);
    }
}

fn build_chain(g: &Vec<CallNode>, path: &Vec<usize>, from: usize, last: usize) -> (r: String)
    requires
        from < path.len(),
        forall|j: int| 0 <= j < path@.len() ==> (#[trigger] path@[j]) < g@.len(),
        last < g@.len(),
    ensures
        r@ == spec_join(
            path_names(g@, path@.subrange(from as int, path@.len() as int).map_values(|x: usize| x as int).push(last as int)),
            " → "@,
        ),
{
    let ghost full = path@.subrange(from as int, path@.len() as int).map_values(|x: usize| x as int).push(last as int);
    let mut out = string_clone(&g[path[from]].name);
    let mut j: usize = from + 1;
    assert(path_names(g@, full).take(1) =~= seq![node_name(g@, path@[from as int] as int)]);
    while j < path.len()
        invariant
            from < j <= path@.len(),
            forall|q: int| 0 <= q < path@.len() ==> (#[trigger] path@[q]) < g@.len(),
            last < g@.len(),
            full == path@.subrange(from as int, path@.len() as int).map_values(|x: usize| x as int).push(last as int),
            out@ == spec_join(path_names(g@, full).take(j - from), " → "@),
        decreases path@.len() - j,
    {
        push_str(&mut out, " → ");
        push_str(&mut out, g[path[j]].name.as_str());
        proof {
            let t = path_names(g@, full).take(j - from + 1);
            assert(t.drop_last() =~= path_names(g@, full).take(j - from));
            assert(t.last() == node_name(g@, path@[j as int] as int));
        }
        j += 1;
    }
    push_str(&mut out, " → ");
    push_str(&mut out, g[last].name.as_str());
    proof {
        let t = path_names(g@, full);
        assert(t.take(j - from) =~= t.drop_last());
        assert(t.last() == node_name(g@, last as int));
    }
    out
}

proof fn lemma_reported(g: Seq<CallNode>, e: CycleError, p: Seq<int>)
    requires
        reports(g, e, p),
    ensures
        exists|q: Seq<int>| #[trigger] reports(g, e, q),
{
}

/// Visits the white node `u`: it turns gray, each of its calls to a node is
/// followed in order, and it turns black. A call to a gray node closes a
/// cycle, which is reported.
fn dfs_visit(
    u: usize,
    g: &Vec<CallNode>,
    colors: &mut Vec<Color>,
    path: &mut Vec<usize>,
    rank: &mut Ghost<Seq<int>>,
    clock: &mut Ghost<int>,
) -> (r: Result<(), CycleError>)
    requires
        distinct_names(g@),
        dfs_inv(g@, old(colors)@, old(path)@, old(rank)@, old(clock)@),
        u < g@.len(),
        old(colors)@[u as int] == Color::White,
        old(path)@.len() > 0 ==> edge(g@, old(path)@.last() as int, u as int),
    ensures
        r is Ok ==> {
            &&& dfs_inv(g@, final(colors)@, final(path)@, final(rank)@, final(clock)@)
            &&& final(path)@ == old(path)@
            &&& final(colors)@[u as int] == Color::Black
            &&& progress(old(colors)@, old(rank)@, final(colors)@, final(rank)@)
        },
        r matches Err(e) ==> exists|p: Seq<int>| #[trigger] reports(g@, e, p),
    decreases count_white(colors@),
{
    let ghost c0 = colors@;
    let ghost r0 = rank@;
    let ghost p0 = path@;
    colors.set(u, Color::Gray);
    path.push(u);
    let ghost c1 = colors@;
    proof {
        lemma_count_white_gray(c0, u as int);
        assert forall|i: usize| i < g@.len() implies (#[trigger] colors@[i as int] == Color::Gray
            <==> path@.contains(i)) by {
            if i == u {
                assert(path@[path@.len() - 1] == u);
            } else {
                assert(colors@[i as int] == c0[i as int]);
                if p0.contains(i) {
                    let j = choose|j: int| 0 <= j < p0.len() && p0[j] == i;
                    assert(path@[j] == i);
                }
                if path@.contains(i) {
                    let j = choose|j: int| 0 <= j < path@.len() && path@[j] == i;
                    if j == p0.len() {
                        assert(path@[j] == u);
                    }
                    assert(p0[j] == i);
                }
            }
        }
        assert(!p0.contains(u));
        assert forall|a: int, b: int| 0 <= a < b < path@.len() implies #[trigger] path@[a]
            != #[trigger] path@[b] by {
            if b == path@.len() - 1 {
                assert(p0[a] == path@[a]);
            }
        }
        assert forall|j: int| 0 <= j < path@.len() - 1 implies #[trigger] edge(
            g@,
            path@[j] as int,
            path@[j + 1] as int,
        ) by {
            if j == path@.len() - 2 {
                assert(p0.last() == path@[j]);
            } else {
                assert(edge(g@, p0[j] as int, p0[j + 1] as int));
            }
        }
    }
    let n_calls = g[u].callees.len();
    let mut k: usize = 0;
    while k < n_calls
        invariant
            distinct_names(g@),
            u < g@.len(),
            n_calls == g@[u as int].callees@.len(),
            k <= n_calls,
            dfs_inv(g@, colors@, path@, rank@, clock@),
            path@ == p0.push(u),
            colors@[u as int] == Color::Gray,
            c0 == old(colors)@,
            r0 == old(rank)@,
            c1 == c0.update(u as int, Color::Gray),
            count_white(c1) + 1 == count_white(c0),
            progress(c1, r0, colors@, rank@),
            forall|kk: int, v: int|
                0 <= kk < k && #[trigger] call_to(g@, u as int, kk, v) ==> colors@[v] == Color::Black,
        decreases n_calls - k,
    {
        let call = &g[u].callees[k];
        match find_node(g, &call.callee) {
            None => {},
            Some(v) => {
                assert(call_to(g@, u as int, k as int, v as int));
                let cv = colors[v];
                match cv {
                    Color::Gray => {
                        let ghost pv = path@;
                        let mut idx: usize = 0;
                        while idx < path.len() && path[idx] != v
                            invariant
                                idx <= path@.len(),
                                path@ == pv,
                                pv.contains(v),
                                forall|j: int| 0 <= j < idx ==> pv[j] != v,
                            decreases path@.len() - idx,
                        {
                            idx += 1;
                        }
                        assert(idx < path@.len());
                        let chain = build_chain(g, path, idx, v);
                        let e = CycleError {
                            action: string_clone(&call.callee),
                            cycle: chain,
                            span: call.span,
                        };
                        proof {
                            let p = path@.subrange(idx as int, path@.len() as int).map_values(
                                |x: usize| x as int,
                            ).push(v as int);
                            assert(p[p.len() - 2] == u as int);
                            assert forall|j: int| 0 <= j < p.len() - 1 implies #[trigger] edge(
                                g@,
                                p[j],
                                p[j + 1],
                            ) by {
                                if j < p.len() - 2 {
                                    let jj = idx + j;
                                    assert(edge(g@, path@[jj] as int, path@[jj + 1] as int));
                                } else {
                                    assert(call_to(g@, u as int, k as int, v as int));
                                }
                            }
                            assert(is_cycle(g@, p));
                            assert(call_to(g@, p[p.len() - 2], k as int, p[p.len() - 1]));
                            assert(reports(g@, e, p));
                            lemma_reported(g@, e, p);
                        }
                        let ghost ge = e;
                        let res: Result<(), CycleError> = Err(e);
                        assert(res is Err);
                        assert(res->Err_0 == ge);
                        assert(reports(g@, res->Err_0, choose|q: Seq<int>| #[trigger] reports(g@, ge, q)));
                        return res;
                    },
                    Color::White => {
                        proof {
                            lemma_count_white_monotone(c1, colors@);
                            assert(count_white(colors@) < count_white(c0));
                        }
                        let ghost cb = colors@;
                        let ghost rb = rank@;
                        match dfs_visit(v, g, colors, path, rank, clock) {
                            Err(e) => {
                                return Err(e);
                            },
                            Ok(()) => {},
                        }
                        proof {
                            assert(colors@[u as int] == Color::Gray) by {
                                assert(path@[path@.len() - 1] == u);
                            }
                            assert forall|kk: int, w: int|
                                0 <= kk <= k && #[trigger] call_to(g@, u as int, kk, w) implies colors@[w]
                                == Color::Black by {
                                if kk == k {
                                    assert(node_name(g@, w) == node_name(g@, v as int));
                                    if w != v as int {
                                        if w < v as int {
                                            assert(node_name(g@, w) != node_name(g@, v as int));
                                        } else {
                                            assert(node_name(g@, v as int) != node_name(g@, w));
                                        }
                                    }
                                } else {
                                    assert(cb[w] == Color::Black);
                                }
                            }
                        }
                    },
                    Color::Black => {
                        proof {
                            assert forall|kk: int, w: int|
                                0 <= kk <= k && #[trigger] call_to(g@, u as int, kk, w) implies colors@[w]
                                == Color::Black by {
                                if kk == k {
                                    if w != v as int {
                                        if w < v as int {
                                            assert(node_name(g@, w) != node_name(g@, v as int));
                                        } else {
                                            assert(node_name(g@, v as int) != node_name(g@, w));
                                        }
                                    }
                                }
                            }
                        }
                    },
                }
            },
        }
        k += 1;
    }
    let ghost cf = colors@;
    let ghost rf = rank@;
    colors.set(u, Color::Black);
    path.pop();
    *rank = Ghost(rf.update(u as int, clock@));
    *clock = Ghost(clock@ + 1);
    proof {
        assert(path@ =~= p0);
        assert forall|i: usize| i < g@.len() implies (#[trigger] colors@[i as int] == Color::Gray
            <==> path@.contains(i)) by {
            if i != u {
                assert(cf[i as int] == colors@[i as int]);
                if p0.contains(i) {
                    let j = choose|j: int| 0 <= j < p0.len() && p0[j] == i;
                    assert(p0.push(u)[j] == i);
                }
                if p0.push(u).contains(i) {
                    let j = choose|j: int| 0 <= j < p0.push(u).len() && p0.push(u)[j] == i;
                    assert(j < p0.len());
                }
            } else {
                assert(!p0.contains(u));
            }
        }
        assert forall|a: int, b: int|
            0 <= a < g@.len() && colors@[a] == Color::Black && #[trigger] edge(g@, a, b) implies colors@[b]
            == Color::Black && rank@[b] < rank@[a] by {
            let kk = choose|kk: int| #[trigger] call_to(g@, a, kk, b);
            if a == u as int {
                assert(call_to(g@, u as int, kk, b));
                assert(cf[b] == Color::Black);
            } else {
                assert(cf[a] == Color::Black);
                if b == u as int {
                    assert(cf[u as int] == Color::Gray);
                }
            }
        }
        assert forall|i: int| 0 <= i < c0.len() && #[trigger] c0[i] == Color::Black implies colors@[i]
            == Color::Black && rank@[i] == r0[i] by {
            assert(i != u as int);
            assert(c1[i] == Color::Black);
        }
        assert forall|i: int| 0 <= i < c0.len() && #[trigger] c0[i] != Color::White implies colors@[i]
            != Color::White by {
            assert(i != u as int);
            assert(c1[i] != Color::White);
        }
    }
    Ok(())
}

/// Searches the call graph for a cycle. `Ok` exactly when there is none;
/// otherwise the first cycle met, visiting nodes in the graph's order and
/// each node's calls in source order.
pub fn detect_cycle(graph: &Vec<CallNode>) -> (r: Result<(), CycleError>)
    requires
        distinct_names(graph@),
    ensures
        r is Ok <==> acyclic(graph@),
        r matches Err(e) ==> exists|p: Seq<int>| reports(graph@, e, p),
{
    let n = graph.len();
    let mut colors: Vec<Color> = Vec::new();
    let mut i: usize = 0;
    while i < n
        invariant
            i <= n,
            n == graph@.len(),
            colors@.len() == i,
            forall|j: int| 0 <= j < i ==> colors@[j] == Color::White,
        decreases n - i,
    {
        colors.push(Color::White);
        i += 1;
    }
    let mut rank: Ghost<Seq<int>> = Ghost(Seq::new(n as nat, |j: int| 0int));
    let mut clock: Ghost<int> = Ghost(0int);
    let mut s: usize = 0;
    while s < n
        invariant
            distinct_names(graph@),
            s <= n,
            n == graph@.len(),
            dfs_inv(graph@, colors@, Seq::empty(), rank@, clock@),
            forall|j: int| 0 <= j < s ==> colors@[j] == Color::Black,
        decreases n - s,
    {
        if colors[s] == Color::White {
            let mut path: Vec<usize> = Vec::new();
            let ghost cb = colors@;
            match dfs_visit(s, graph, &mut colors, &mut path, &mut rank, &mut clock) {
                Err(e) => {
                    proof {
                        let p = choose|p: Seq<int>| reports(graph@, e, p);
                        assert(is_cycle(graph@, p));
                    }
                    return Err(e);
                },
                Ok(()) => {},
            }
            proof {
                assert forall|j: int| 0 <= j <= s implies colors@[j] == Color::Black by {
                    if j < s {
                        assert(cb[j] == Color::Black);
                    }
                }
            }
        } else {
            assert(!Seq::<usize>::empty().contains(s));
        }
        s += 1;
    }
    proof {
        assert forall|p: Seq<int>| !is_cycle(graph@, p) by {
            if is_cycle(graph@, p) {
                lemma_ranks_decrease(graph@, colors@, Seq::empty(), rank@, clock@, p, p.len() - 1);
            }
        }
    }
    Ok(())
}

} // verus!
