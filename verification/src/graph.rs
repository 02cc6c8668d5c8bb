//! Directed graphs on `0..n`: reachability, depth-first finishing order and strongly connected
//! components in topological order.
use vstd::prelude::*;

verus! {

/// Whether the graph has an edge from `u` to `v`.
pub open spec fn edge(adj: Seq<Vec<usize>>, u: usize, v: usize) -> bool {
    u < adj.len() && adj[u as int]@.contains(v)
}

/// Whether an edge joins the nodes at `i` and `i + 1`.
pub open spec fn step(adj: Seq<Vec<usize>>, p: Seq<usize>, i: int) -> bool {
    edge(adj, p[i], p[i + 1])
}

/// Whether consecutive nodes of a non-empty sequence are joined by edges.
pub open spec fn is_path(adj: Seq<Vec<usize>>, p: Seq<usize>) -> bool {
    p.len() >= 1 && forall|i: int| 0 <= i < p.len() - 1 ==> #[trigger] step(adj, p, i)
}

/// Whether `p` leads from `u` to `v`.
pub open spec fn leads(adj: Seq<Vec<usize>>, p: Seq<usize>, u: usize, v: usize) -> bool {
    is_path(adj, p) && p[0] == u && p.last() == v
}

/// Whether some path leads from `u` to `v`.
pub open spec fn reach(adj: Seq<Vec<usize>>, u: usize, v: usize) -> bool {
    exists|p: Seq<usize>| #[trigger] leads(adj, p, u, v)
}

/// Whether every edge ends at a node of the graph.
pub open spec fn closed_graph(adj: Seq<Vec<usize>>) -> bool {
    forall|u: usize, v: usize| #[trigger] edge(adj, u, v) ==> v < adj.len()
}

/// A node reaches itself.
pub proof fn reach_self(adj: Seq<Vec<usize>>, u: usize)
    ensures
        reach(adj, u, u),
{
    assert(leads(adj, seq![u], u, u));
}

/// An edge is a path.
pub proof fn reach_edge(adj: Seq<Vec<usize>>, u: usize, v: usize)
    requires
        edge(adj, u, v),
    ensures
        reach(adj, u, v),
{
    let p = seq![u, v];
    assert(forall|i: int| 0 <= i < p.len() - 1 ==> #[trigger] step(adj, p, i));
    assert(leads(adj, p, u, v));
}

/// Paths can be joined.
pub proof fn reach_transitive(adj: Seq<Vec<usize>>, u: usize, v: usize, w: usize)
    requires
        reach(adj, u, v),
        reach(adj, v, w),
    ensures
        reach(adj, u, w),
{
    let p = choose|p: Seq<usize>| #[trigger] leads(adj, p, u, v);
    let q = choose|q: Seq<usize>| #[trigger] leads(adj, q, v, w);
    let r = p + q.skip(1);
    assert forall|i: int| 0 <= i < r.len() - 1 implies #[trigger] step(adj, r, i) by {
        if i < p.len() - 1 {
            assert(step(adj, p, i));
        } else {
            let j = i - (p.len() - 1);
            assert(step(adj, q, j));
            assert(r[i] == q[j]);
        }
    }
    assert(r.last() == w) by {
        if q.len() == 1 {
            assert(r =~= p);
        }
    }
    assert(leads(adj, r, u, w));
}

/// What a depth-first search keeps while the nodes in `gray` are being visited and those in
/// `order` are finished, in this order.
spec fn search_state(
    adj: Seq<Vec<usize>>,
    seen: Seq<bool>,
    order: Seq<usize>,
    gray: Set<usize>,
) -> bool {
    &&& seen.len() == adj.len()
    &&& order.no_duplicates()
    &&& forall|i: int| 0 <= i < order.len() ==> #[trigger] order[i] < adj.len()
        && !gray.contains(order[i])
    &&& forall|x: usize| #[trigger] gray.contains(x) ==> x < adj.len()
    &&& forall|x: usize|
        x < adj.len() ==> (#[trigger] seen[x as int] <==> gray.contains(x) || order.contains(x))
    &&& forall|i: int, b: usize|
        0 <= i < order.len() && #[trigger] edge(adj, order[i], b) ==> seen[b as int]
    &&& forall|i: int, b: usize, j: int|
        #![trigger edge(adj, order[i], b), order[j]]
        0 <= i <= j < order.len() && edge(adj, order[i], b) && gray.contains(b) ==> reach(
            adj,
            b,
            order[j],
        )
    &&& finish_property(adj, order)
}

/// In a finishing order, a node that finishes after one of its predecessors reaches everything
/// that finishes in between.
pub open spec fn finish_property(adj: Seq<Vec<usize>>, order: Seq<usize>) -> bool {
    forall|i: int, k: int, j: int|
        #![trigger edge(adj, order[i], order[k]), order[j]]
        0 <= i <= j <= k < order.len() && edge(adj, order[i], order[k]) ==> reach(
            adj,
            order[k],
            order[j],
        )
}

/// The nodes seen and finished after a search from `node`: its targets are searched one after the
/// other, in the order in which they are listed, before the node itself finishes.
pub open spec fn search(
    adj: Seq<Vec<usize>>,
    fuel: nat,
    node: usize,
    seen: Seq<bool>,
    order: Seq<usize>,
) -> (Seq<bool>, Seq<usize>)
    decreases fuel, 0nat,
{
    if seen[node as int] || fuel == 0 {
        (seen, order)
    } else {
        let (seen1, order1) = search_all(
            adj,
            (fuel - 1) as nat,
            adj[node as int]@,
            seen.update(node as int, true),
            order,
        );
        (seen1, order1.push(node))
    }
}

/// The nodes seen and finished after a search from each of `targets`.
pub open spec fn search_all(
    adj: Seq<Vec<usize>>,
    fuel: nat,
    targets: Seq<usize>,
    seen: Seq<bool>,
    order: Seq<usize>,
) -> (Seq<bool>, Seq<usize>)
    decreases fuel, targets.len() + 1,
{
    if targets.len() == 0 {
        (seen, order)
    } else {
        let (seen1, order1) = search(adj, fuel, targets[0], seen, order);
        search_all(adj, fuel, targets.skip(1), seen1, order1)
    }
}

/// The nodes that `entry` reaches, in the order in which a depth-first search finishes them.
pub open spec fn finish_order(adj: Seq<Vec<usize>>, entry: usize) -> Seq<usize> {
    search(adj, adj.len() + 1, entry, Seq::new(adj.len(), |i: int| false), Seq::empty()).1
}

/// Depth-first search along ascending targets; `order` receives the nodes as they finish.
fn visit(
    adj: &Vec<Vec<usize>>,
    node: usize,
    seen: &mut Vec<bool>,
    order: &mut Vec<usize>,
    Ghost(gray): Ghost<Set<usize>>,
    Ghost(fuel): Ghost<nat>,
)
    requires
        closed_graph(adj@),
        node < adj@.len(),
        search_state(adj@, old(seen)@, old(order)@, gray),
        forall|g: usize| #[trigger] gray.contains(g) ==> reach(adj@, g, node),
        gray.finite(),
        gray.len() + fuel == adj@.len() + 1,
    ensures
        (final(seen)@, final(order)@) == search(adj@, fuel, node, old(seen)@, old(order)@),
        search_state(adj@, final(seen)@, final(order)@, gray),
        final(seen)@[node as int],
        forall|x: int| 0 <= x < adj@.len() && old(seen)@[x] ==> final(seen)@[x],
        old(order)@.len() <= final(order)@.len(),
        final(order)@.take(old(order)@.len() as int) == old(order)@,
        forall|j: int|
            old(order)@.len() <= j < final(order)@.len() ==> reach(
                adj@,
                node,
                #[trigger] final(order)@[j],
            ),
    decreases fuel,
{
    if seen[node] {
        return;
    }
    let n: usize = adj.len();
    let ghost seen0 = seen@;
    let ghost order0 = order@;
    let ghost gray1 = gray.insert(node);
    proof {
        // Every gray node is a node of the graph, so `gray` cannot already hold them all.
        lemma_nodes_finite(n);
        assert(gray1.subset_of(nodes(n)));
        vstd::set_lib::lemma_len_subset(gray1, nodes(n));
    }
    seen.set(node, true);
    proof {
        assert forall|x: usize| x < adj@.len() implies (#[trigger] seen@[x as int]
            <==> gray1.contains(x) || order@.contains(x)) by {
            if x != node {
                assert(seen@[x as int] == seen0[x as int]);
            }
        }
        assert forall|i: int| 0 <= i < order@.len() implies #[trigger] order@[i] < adj@.len()
            && !gray1.contains(order@[i]) by {
            assert(order@.contains(order@[i]));
            assert(seen0[order@[i] as int]);
        }
        assert forall|i: int, b: usize| 0 <= i < order@.len() && #[trigger] edge(adj@, order@[i], b)
            implies seen@[b as int] && b != node by {
            assert(seen0[b as int]);
        }
        assert forall|i: int, b: usize, j: int|
        #![trigger edge(adj@, order@[i], b), order@[j]]
        0 <= i <= j < order@.len() && edge(adj@, order@[i], b) && gray1.contains(b) implies reach(
            adj@,
            b,
            order@[j],
        ) by {
            assert(seen0[b as int]);
        }
        assert(search_state(adj@, seen@, order@, gray1));
        reach_self(adj@, node);
    }
    let mut t: usize = 0;
    assert(adj@[node as int]@.skip(0) =~= adj@[node as int]@);
    while t < adj[node].len()
        invariant
            search_all(
                adj@,
                (fuel - 1) as nat,
                adj@[node as int]@.skip(t as int),
                seen@,
                order@,
            ) == search_all(
                adj@,
                (fuel - 1) as nat,
                adj@[node as int]@,
                seen0.update(node as int, true),
                order0,
            ),
            closed_graph(adj@),
            node < adj@.len(),
            search_state(adj@, seen@, order@, gray1),
            gray1 == gray.insert(node),
            gray1.finite(),
            fuel > 0,
            gray1.len() + (fuel - 1) == adj@.len() + 1,
            forall|g: usize| #[trigger] gray1.contains(g) ==> reach(adj@, g, node),
            t <= adj@[node as int]@.len(),
            forall|i: int| 0 <= i < t ==> seen@[#[trigger] adj@[node as int]@[i] as int],
            forall|x: int| 0 <= x < adj@.len() && seen0[x] ==> seen@[x],
            order0.len() <= order@.len(),
            order@.take(order0.len() as int) == order0,
            forall|j: int|
                order0.len() <= j < order@.len() ==> reach(adj@, node, #[trigger] order@[j]),
        decreases adj@[node as int]@.len() - t,
    {
        let target: usize = adj[node][t];
        let ghost order1 = order@;
        let ghost seen2 = seen@;
        proof {
            assert(adj@[node as int]@.skip(t as int).skip(1) =~= adj@[node as int]@.skip(t + 1));
            assert(adj@[node as int]@.contains(target)) by {
                assert(adj@[node as int]@[t as int] == target);
            }
            assert(edge(adj@, node, target));
            reach_edge(adj@, node, target);
            assert forall|g: usize| #[trigger] gray1.contains(g) implies reach(adj@, g, target) by {
                reach_transitive(adj@, g, node, target);
            }
        }
        visit(adj, target, seen, order, Ghost(gray1), Ghost((fuel - 1) as nat));
        proof {
            assert(order@.take(order0.len() as int) =~= order0) by {
                assert(
                    order@.take(order1.len() as int).take(order0.len() as int)
                        =~= order@.take(order0.len() as int)
                );
            }
            assert forall|j: int| order0.len() <= j < order@.len() implies reach(
                adj@,
                node,
                #[trigger] order@[j],
            ) by {
                if j < order1.len() {
                    assert(order1[j] == order@.take(order1.len() as int)[j]);
                } else {
                    reach_transitive(adj@, node, target, order@[j]);
                }
            }
        }
        proof {
            assert forall|i: int| 0 <= i < t + 1
                implies seen@[#[trigger] adj@[node as int]@[i] as int] by {
                assert(adj@[node as int]@.contains(adj@[node as int]@[i]));
                assert(edge(adj@, node, adj@[node as int]@[i]));
                if i < t {
                    assert(seen2[adj@[node as int]@[i] as int]);
                }
            }
        }
        t = t + 1;
    }
    let ghost order2 = order@;
    order.push(node);
    proof {
        assert(gray1.contains(node));
        assert forall|i: int| 0 <= i < order2.len() implies order@[i] == order2[i] by {}
        assert(!order2.contains(node));
        assert(order@.no_duplicates());
        assert forall|x: usize| x < adj@.len() implies (#[trigger] seen@[x as int]
            <==> gray.contains(x) || order@.contains(x)) by {
            assert(order@.contains(x) <==> order2.contains(x) || x == node) by {
                if order2.contains(x) {
                    let i = choose|i: int| 0 <= i < order2.len() && order2[i] == x;
                    assert(order@[i] == x);
                }
                assert(order@[order2.len() as int] == node);
            }
            assert(gray1.contains(x) <==> gray.contains(x) || x == node);
        }
        assert forall|i: int| 0 <= i < order@.len() implies #[trigger] order@[i] < adj@.len()
            && !gray.contains(order@[i]) by {
            if i < order2.len() {
                assert(!gray1.contains(order2[i]));
            } else {
                assert(!seen0[node as int]);
            }
        }
        assert forall|i: int, b: usize| 0 <= i < order@.len() && #[trigger] edge(adj@, order@[i], b)
            implies seen@[b as int] by {
            if i < order2.len() {
                assert(edge(adj@, order2[i], b));
            } else {
                let k = choose|k: int| 0 <= k < adj@[node as int]@.len()
                    && adj@[node as int]@[k] == b;
                assert(seen@[adj@[node as int]@[k] as int]);
            }
        }
        assert forall|i: int, b: usize, j: int|
        #![trigger edge(adj@, order@[i], b), order@[j]]
        0 <= i <= j < order@.len() && edge(adj@, order@[i], b) && gray.contains(b) implies reach(
            adj@,
            b,
            order@[j],
        ) by {
            assert(gray1.contains(b));
            if j < order2.len() {
                assert(edge(adj@, order2[i], b));
                assert(order2[j] == order@[j]);
            }
        }
        assert forall|i: int, k: int, j: int|
        #![trigger edge(adj@, order@[i], order@[k]), order@[j]]
        0 <= i <= j <= k < order@.len() && edge(adj@, order@[i], order@[k]) implies reach(
            adj@,
            order@[k],
            order@[j],
        ) by {
            if k < order2.len() {
                assert(edge(adj@, order2[i], order2[k]));
                assert(order2[j] == order@[j]);
            } else if j < order2.len() {
                assert(edge(adj@, order2[i], node));
                assert(order2[j] == order@[j]);
            }
        }
        assert(order@.take(order0.len() as int) =~= order0) by {
            assert(order2.take(order0.len() as int) =~= order@.take(order0.len() as int));
        }
    }
}

/// The nodes of a graph of a given size.
spec fn nodes(n: usize) -> Set<usize> {
    Set::new(|x: usize| x < n)
}

proof fn lemma_nodes_finite(n: usize)
    ensures
        nodes(n).finite(),
        nodes(n).len() == n,
    decreases n,
{
    if n == 0 {
        assert(nodes(0) =~= Set::empty());
    } else {
        lemma_nodes_finite((n - 1) as usize);
        assert(nodes(n) =~= nodes((n - 1) as usize).insert((n - 1) as usize));
    }
}

/// A search from outside sees exactly what its start reaches.
proof fn lemma_search_complete(
    adj: Seq<Vec<usize>>,
    seen: Seq<bool>,
    order: Seq<usize>,
    p: Seq<usize>,
    i: int,
)
    requires
        closed_graph(adj),
        search_state(adj, seen, order, Set::empty()),
        is_path(adj, p),
        p[0] < adj.len(),
        seen[p[0] as int],
        0 <= i < p.len(),
    ensures
        p[i] < adj.len(),
        seen[p[i] as int],
    decreases i,
{
    if i > 0 {
        lemma_search_complete(adj, seen, order, p, i - 1);
        assert(step(adj, p, i - 1));
        assert(order.contains(p[i - 1]));
        let k = choose|k: int| 0 <= k < order.len() && order[k] == p[i - 1];
        assert(edge(adj, order[k], p[i]));
    }
}

/// The finishing order of the nodes that `entry` reaches, and which nodes these are.
fn finishing_order(adj: &Vec<Vec<usize>>, entry: usize) -> (r: (Vec<bool>, Vec<usize>))
    requires
        closed_graph(adj@),
        entry < adj@.len(),
    ensures
        r.1@ == finish_order(adj@, entry),
        r.0@.len() == adj@.len(),
        forall|x: usize| x < adj@.len() ==> (#[trigger] r.0@[x as int] <==> reach(adj@, entry, x)),
        forall|x: usize| x < adj@.len() ==> (#[trigger] r.0@[x as int] <==> r.1@.contains(x)),
        r.1@.no_duplicates(),
        forall|i: int| 0 <= i < r.1@.len() ==> #[trigger] r.1@[i] < adj@.len(),
        finish_property(adj@, r.1@),
{
    let mut seen: Vec<bool> = Vec::new();
    for i in 0..adj.len()
        invariant
            seen@ == Seq::new(i as nat, |i: int| false),
    {
        seen.push(false);
        assert(seen@ =~= Seq::new((i + 1) as nat, |i: int| false));
    }
    let mut order: Vec<usize> = Vec::new();
    visit(adj, entry, &mut seen, &mut order, Ghost(Set::empty()), Ghost(adj@.len() + 1));
    proof {
        assert forall|x: usize| x < adj@.len() implies (
            #[trigger] seen@[x as int] <==> reach(adj@, entry, x)
        ) by {
            if seen@[x as int] {
                assert(order@.contains(x));
                let j = choose|j: int| 0 <= j < order@.len() && order@[j] == x;
                assert(reach(adj@, entry, order@[j]));
            }
            if reach(adj@, entry, x) {
                let p = choose|p: Seq<usize>| #[trigger] leads(adj@, p, entry, x);
                lemma_search_complete(adj@, seen@, order@, p, p.len() - 1);
            }
        }
    }
    (seen, order)
}

/// Whether each of two nodes reaches the other.
pub open spec fn mutual(adj: Seq<Vec<usize>>, x: usize, y: usize) -> bool {
    reach(adj, x, y) && reach(adj, y, x)
}

/// Along a path whose nodes all finish no later than its end, the end reaches the start.
proof fn lemma_finish(adj: Seq<Vec<usize>>, order: Seq<usize>, p: Seq<usize>, i: int, m: int)
    requires
        finish_property(adj, order),
        order.no_duplicates(),
        is_path(adj, p),
        0 <= m < order.len(),
        p.last() == order[m],
        forall|k: int| 0 <= k < p.len() ==> order.contains(#[trigger] p[k])
            && order.index_of(p[k]) <= m,
        0 <= i < p.len(),
        forall|k: int| 0 <= k <= i ==> order.index_of(#[trigger] p[k]) <= order.index_of(p[0]),
    ensures
        reach(adj, order[m], p[0]),
    decreases p.len(), p.len() - i,
{
    let q = order.index_of(p[0]);
    assert(order.contains(p[0]));
    assert(order.contains(p[i]));
    if i == p.len() - 1 {
        assert(order.index_of(p[i]) == m);
        reach_self(adj, p[0]);
    } else {
        assert(order.contains(p[i + 1]));
        assert(step(adj, p, i));
        let k = order.index_of(p[i + 1]);
        if k > q {
            let a = order.index_of(p[i]);
            assert(edge(adj, order[a], order[k]));
            assert(order[q] == p[0]);
            assert(reach(adj, order[k], order[q]));
            let rest = p.skip(i + 1);
            assert forall|j: int| 0 <= j < rest.len() - 1 implies #[trigger] step(adj, rest, j) by {
                assert(step(adj, p, i + 1 + j));
            }
            assert forall|j: int| 0 <= j < rest.len() implies order.contains(#[trigger] rest[j])
                && order.index_of(rest[j]) <= m by {
                assert(rest[j] == p[i + 1 + j]);
            }
            lemma_finish(adj, order, rest, 0, m);
            reach_transitive(adj, order[m], p[i + 1], p[0]);
        } else {
            lemma_finish(adj, order, p, i + 1, m);
        }
    }
}

/// The graph with every edge turned round.
fn reversed(adj: &Vec<Vec<usize>>) -> (r: Vec<Vec<usize>>)
    requires
        closed_graph(adj@),
    ensures
        r@.len() == adj@.len(),
        forall|u: usize, v: usize| #[trigger] edge(r@, v, u) <==> v < adj@.len()
            && edge(adj@, u, v),
{
    let mut r: Vec<Vec<usize>> = Vec::new();
    for i in 0..adj.len()
        invariant
            r@.len() == i,
            forall|k: int| 0 <= k < i ==> (#[trigger] r@[k])@.len() == 0,
    {
        r.push(Vec::new());
    }
    assert forall|u: usize, v: usize| !(#[trigger] edge(r@, v, u)) by {
        if v < r@.len() {
            assert(r@[v as int]@.len() == 0);
        }
    }
    let mut s: usize = 0;
    while s < adj.len()
        invariant
            closed_graph(adj@),
            s <= adj@.len(),
            r@.len() == adj@.len(),
            forall|u: usize, v: usize| #[trigger] edge(r@, v, u) <==> v < adj@.len() && u < s
                && edge(adj@, u, v),
        decreases adj@.len() - s,
    {
        let mut t: usize = 0;
        while t < adj[s].len()
            invariant
                closed_graph(adj@),
                s < adj@.len(),
                t <= adj@[s as int]@.len(),
                r@.len() == adj@.len(),
                forall|u: usize, v: usize|
                    #[trigger] edge(r@, v, u) <==> v < adj@.len() && ((
                        u < s && edge(adj@, u, v)
                    ) || (u == s && adj@[s as int]@.take(t as int).contains(v))),
            decreases adj@[s as int]@.len() - t,
        {
            let target: usize = adj[s][t];
            assert(adj@[s as int]@.contains(target));
            assert(edge(adj@, s, target));
            let ghost r0 = r@;
            let mut row: Vec<usize> = Vec::new();
            std::mem::swap(&mut row, &mut r[target]);
            let ghost row0 = row@;
            row.push(s);
            r.set(target, row);
            proof {
                assert(row0 == r0[target as int]@);
                assert(r@ =~= r0.update(target as int, row));
                let now = adj@[s as int]@.take(t + 1);
                let before = adj@[s as int]@.take(t as int);
                assert(now =~= before.push(target));
                assert forall|v: usize| now.contains(v) <==> before.contains(v) || v == target by {
                    if before.contains(v) {
                        let k = choose|k: int| 0 <= k < before.len() && before[k] == v;
                        assert(now[k] == v);
                    }
                    assert(now[t as int] == target);
                }
                assert forall|u: usize, v: usize| #[trigger] edge(r@, v, u) <==> v < adj@.len()
                    && ((u < s && edge(adj@, u, v)) || (u == s && now.contains(v))) by {
                    assert(edge(r@, v, u) <==> edge(r0, v, u) || (v == target && u == s)) by {
                        if v == target {
                            assert(r@[v as int]@ =~= row0.push(s));
                            if edge(r0, v, u) {
                                let k = choose|k: int| 0 <= k < row0.len() && row0[k] == u;
                                assert(r@[v as int]@[k] == u);
                            }
                            assert(r@[v as int]@[row0.len() as int] == s);
                        }
                    }
                }
            }
            t = t + 1;
        }
        assert(adj@[s as int]@.take(t as int) =~= adj@[s as int]@);
        s = s + 1;
    }
    r
}

/// Whether `x` has a path to `y` whose nodes are all marked.
spec fn reach_within(adj: Seq<Vec<usize>>, mark: Seq<bool>, x: usize, y: usize) -> bool {
    exists|p: Seq<usize>| #[trigger] leads(adj, p, x, y) && forall|i: int| 0 <= i < p.len()
        ==> (#[trigger] p[i]) < mark.len() && mark[p[i] as int]
}

/// The number of flags that are not set.
pub open spec fn unset(flags: Seq<bool>) -> nat
    decreases flags.len(),
{
    if flags.len() == 0 {
        0
    } else {
        unset(flags.drop_last()) + (if flags.last() { 0nat } else { 1nat })
    }
}

/// Setting a flag takes one from the number of those that are not set.
pub proof fn lemma_unset_update(flags: Seq<bool>, i: int)
    requires
        0 <= i < flags.len(),
        !flags[i],
    ensures
        unset(flags.update(i, true)) + 1 == unset(flags),
    decreases flags.len(),
{
    if i == flags.len() - 1 {
        assert(flags.update(i, true).drop_last() =~= flags.drop_last());
    } else {
        assert(flags.update(i, true).drop_last() =~= flags.drop_last().update(i, true));
        lemma_unset_update(flags.drop_last(), i);
    }
}

/// The positions of the set flags, in ascending order.
pub fn marked(mark: &Vec<bool>) -> (r: Vec<usize>)
    ensures
        ascending(r@),
        forall|x: usize| #[trigger] r@.contains(x) <==> x < mark@.len() && mark@[x as int],
{
    let mut r: Vec<usize> = Vec::new();
    for i in 0..mark.len()
        invariant
            ascending(r@),
            forall|a: int| 0 <= a < r@.len() ==> (#[trigger] r@[a]) < i && mark@[r@[a] as int],
            forall|x: usize| x < i && #[trigger] mark@[x as int] ==> r@.contains(x),
    {
        let ghost r0 = r@;
        if mark[i] {
            r.push(i);
            assert(r@[r0.len() as int] == i);
        }
        assert forall|x: usize| x < i + 1 && #[trigger] mark@[x as int] implies r@.contains(x) by {
            if x < i {
                let k = choose|k: int| 0 <= k < r0.len() && r0[k] == x;
                assert(r@[k] == x);
            }
        }
    }
    r
}

/// Marks every node that has a path to `root` through nodes that were not assigned, assigns them
/// and returns them in ascending order.
fn gather(
    adj: Ghost<Seq<Vec<usize>>>,
    rev: &Vec<Vec<usize>>,
    root: usize,
    assigned: &mut Vec<bool>,
) -> (r: Vec<usize>)
    requires
        closed_graph(adj@),
        adj@.len() == rev@.len(),
        forall|u: usize, v: usize| #[trigger] edge(rev@, v, u) <==> v < adj@.len()
            && edge(adj@, u, v),
        root < rev@.len(),
        old(assigned)@.len() == rev@.len(),
        !old(assigned)@[root as int],
    ensures
        final(assigned)@.len() == rev@.len(),
        forall|x: usize| x < rev@.len() ==> (#[trigger] final(assigned)@[x as int]
            <==> old(assigned)@[x as int] || r@.contains(x)),
        forall|i: int, j: int| 0 <= i < j < r@.len() ==> r@[i] < r@[j],
        forall|i: int| 0 <= i < r@.len() ==> (#[trigger] r@[i]) < rev@.len()
            && !old(assigned)@[r@[i] as int],
        r@.contains(root),
        forall|x: usize| #[trigger] r@.contains(x)
            ==> exists|p: Seq<usize>| #[trigger] leads(adj@, p, x, root)
            && forall|i: int| 0 <= i < p.len() ==> r@.contains(#[trigger] p[i]),
        forall|x: usize, y: usize| r@.contains(y) && #[trigger] edge(adj@, x, y)
            ==> final(assigned)@[x as int],
{
    let n: usize = rev.len();
    let ghost before = assigned@;
    let mut mark: Vec<bool> = Vec::new();
    for i in 0..n
        invariant
            mark@.len() == i,
            forall|k: int| 0 <= k < i ==> !mark@[k],
    {
        mark.push(false);
    }
    let mut stack: Vec<usize> = Vec::new();
    stack.push(root);
    assert(stack@[0] == root);
    while stack.len() > 0
        invariant
            closed_graph(adj@),
            adj@.len() == rev@.len(),
            n == rev@.len(),
            forall|u: usize, v: usize| #[trigger] edge(rev@, v, u) <==> v < adj@.len()
                && edge(adj@, u, v),
            root < n,
            before.len() == n,
            assigned@.len() == n,
            mark@.len() == n,
            !before[root as int],
            forall|x: int| 0 <= x < n ==> (#[trigger] assigned@[x] <==> before[x] || mark@[x]),
            forall|x: int| 0 <= x < n ==> !(before[x] && #[trigger] mark@[x]),
            forall|k: int| 0 <= k < stack@.len() ==> (#[trigger] stack@[k]) < n,
            forall|k: int| 0 <= k < stack@.len() ==> (#[trigger] stack@[k]) == root
                || exists|y: usize| y < n && mark@[y as int] && #[trigger] edge(adj@, stack@[k], y),
            forall|x: usize| x < n && #[trigger] mark@[x as int] ==> reach_within(
                adj@,
                mark@,
                x,
                root,
            ),
            mark@[root as int] || stack@.contains(root),
            forall|x: usize, y: usize| y < n && mark@[y as int] && #[trigger] edge(adj@, x, y)
                ==> assigned@[x as int] || stack@.contains(x),
        decreases unset(assigned@), stack@.len(),
    {
        let ghost stack0 = stack@;
        let ghost mark0 = mark@;
        let ghost assigned0 = assigned@;
        let current: usize = stack.pop().unwrap();
        assert(stack0 =~= stack@.push(current));
        assert(stack0[stack0.len() - 1] == current);
        assert forall|x: usize| stack0.contains(x) implies stack@.contains(x) || x == current by {
            let k = choose|k: int| 0 <= k < stack0.len() && stack0[k] == x;
            if k < stack@.len() {
                assert(stack@[k] == x);
            }
        }
        assert forall|k: int| 0 <= k < stack@.len() implies stack@[k] == stack0[k] by {}
        if !assigned[current] {
            assigned.set(current, true);
            mark.set(current, true);
            proof {
                lemma_unset_update(assigned0, current as int);
                // Marking keeps the earlier paths and adds one for `current`.
                assert forall|x: usize| x < n && #[trigger] mark@[x as int] implies reach_within(
                    adj@,
                    mark@,
                    x,
                    root,
                ) by {
                    if x == current {
                        if current == root {
                            assert(leads(adj@, seq![root], root, root));
                        } else {
                            let y = choose|y: usize| y < n && mark0[y as int] && #[trigger] edge(
                                adj@,
                                stack0[stack0.len() - 1],
                                y,
                            );
                            assert(mark0[y as int]);
                            let p = choose|p: Seq<usize>| #[trigger] leads(adj@, p, y, root)
                                && forall|i: int| 0 <= i < p.len()
                                ==> (#[trigger] p[i]) < mark0.len() && mark0[p[i] as int];
                            let q = seq![current] + p;
                            assert forall|i: int| 0 <= i < q.len() - 1
                                implies #[trigger] step(adj@, q, i) by {
                                if i > 0 {
                                    assert(step(adj@, p, i - 1));
                                }
                            }
                            assert(q.last() == root);
                            assert forall|i: int| 0 <= i < q.len()
                                implies (#[trigger] q[i]) < mark@.len() && mark@[q[i] as int] by {
                                if i > 0 {
                                    assert(mark0[p[i - 1] as int]);
                                }
                            }
                            assert(leads(adj@, q, current, root));
                        }
                    } else {
                        assert(mark0[x as int]);
                        let p = choose|p: Seq<usize>| #[trigger] leads(adj@, p, x, root)
                            && forall|i: int| 0 <= i < p.len() ==> (#[trigger] p[i]) < mark0.len()
                            && mark0[p[i] as int];
                        assert forall|i: int| 0 <= i < p.len()
                            implies (#[trigger] p[i]) < mark@.len() && mark@[p[i] as int] by {
                            assert(mark0[p[i] as int]);
                        }
                    }
                }
            }
            let ghost stack1 = stack@;
            let mut t: usize = 0;
            while t < rev[current].len()
                invariant
                    current < n,
                    n == rev@.len(),
                    adj@.len() == n,
                    closed_graph(adj@),
                    mark@.len() == n,
                    mark@[current as int],
                    forall|u: usize, v: usize| #[trigger] edge(rev@, v, u) <==> v < adj@.len()
                        && edge(adj@, u, v),
                    t <= rev@[current as int]@.len(),
                    stack1.len() <= stack@.len(),
                    forall|k: int| 0 <= k < stack1.len() ==> stack@[k] == stack1[k],
                    forall|k: int| stack1.len() <= k < stack@.len() ==> (
                        #[trigger] stack@[k]
                    ) < n && edge(adj@, stack@[k], current),
                    forall|k: int| 0 <= k < t ==> stack@.contains(
                        #[trigger] rev@[current as int]@[k],
                    ),
                decreases rev@[current as int]@.len() - t,
            {
                let source: usize = rev[current][t];
                let ghost stack2 = stack@;
                assert(rev@[current as int]@.contains(source));
                assert(edge(rev@, current, source));
                stack.push(source);
                assert forall|k: int| 0 <= k < t + 1 implies stack@.contains(
                    #[trigger] rev@[current as int]@[k],
                ) by {
                    if k < t {
                        let j = choose|j: int| 0 <= j < stack2.len()
                            && stack2[j] == rev@[current as int]@[k];
                        assert(stack@[j] == rev@[current as int]@[k]);
                    } else {
                        assert(stack@[stack2.len() as int] == source);
                    }
                }
                t = t + 1;
            }
            proof {
                assert forall|k: int| 0 <= k < stack@.len() implies (#[trigger] stack@[k]) == root
                    || exists|y: usize| y < n && mark@[y as int]
                    && #[trigger] edge(adj@, stack@[k], y) by {
                    if k < stack1.len() {
                        assert(stack0[k] == stack@[k]);
                        if stack0[k] != root {
                            let y = choose|y: usize| y < n && mark0[y as int]
                                && #[trigger] edge(adj@, stack0[k], y);
                            assert(mark@[y as int] && edge(adj@, stack@[k], y));
                        }
                    } else {
                        assert(mark@[current as int] && edge(adj@, stack@[k], current));
                    }
                }
                assert forall|x: usize| stack1.contains(x) implies stack@.contains(x) by {
                    let k = choose|k: int| 0 <= k < stack1.len() && stack1[k] == x;
                    assert(stack@[k] == x);
                }
                assert forall|x: usize, y: usize| y < n && mark@[y as int]
                    && #[trigger] edge(adj@, x, y) implies assigned@[x as int] || stack@.contains(x)
                    by {
                    if y == current {
                        assert(edge(rev@, current, x));
                        let k = choose|k: int| 0 <= k < rev@[current as int]@.len()
                            && rev@[current as int]@[k] == x;
                        assert(stack@.contains(rev@[current as int]@[k]));
                    } else {
                        assert(mark0[y as int]);
                        assert(assigned0[x as int] || stack0.contains(x));
                    }
                }
            }
        } else {
            assert(current == root ==> mark@[root as int]);
        }
    }
    let r = marked(&mark);
    proof {
        assert forall|i: int| 0 <= i < r@.len() implies (#[trigger] r@[i]) < n
            && !before[r@[i] as int] by {
            assert(r@.contains(r@[i]));
            assert(mark@[r@[i] as int]);
        }
        assert forall|x: usize| #[trigger] r@.contains(x)
            implies exists|p: Seq<usize>| #[trigger] leads(adj@, p, x, root)
            && forall|i: int| 0 <= i < p.len() ==> r@.contains(#[trigger] p[i]) by {
            let k = choose|k: int| 0 <= k < r@.len() && r@[k] == x;
            assert(mark@[x as int]);
            assert(reach_within(adj@, mark@, x, root));
        }
        assert forall|x: usize| x < n implies (#[trigger] assigned@[x as int] <==> before[x as int]
            || r@.contains(x)) by {
            if r@.contains(x) {
                let k = choose|k: int| 0 <= k < r@.len() && r@[k] == x;
                assert(mark@[x as int]);
            }
        }
        assert forall|x: usize, y: usize| r@.contains(y) && #[trigger] edge(adj@, x, y)
            implies assigned@[x as int] by {
            let k = choose|k: int| 0 <= k < r@.len() && r@[k] == y;
            assert(mark@[y as int]);
        }
    }
    r
}

/// The contents of the inner vectors.
pub open spec fn lists(v: Seq<Vec<usize>>) -> Seq<Seq<usize>> {
    Seq::new(v.len(), |i: int| v[i]@)
}

/// Whether a list of nodes is strictly ascending.
pub open spec fn ascending(c: Seq<usize>) -> bool {
    forall|i: int, j: int| 0 <= i < j < c.len() ==> c[i] < c[j]
}

/// Whether some list holds `x`.
pub open spec fn covered(c: Seq<Seq<usize>>, x: usize) -> bool {
    exists|i: int| 0 <= i < c.len() && (#[trigger] c[i]).contains(x)
}

/// Whether `c` lists the strongly connected components, each in ascending order.
pub open spec fn is_components(adj: Seq<Vec<usize>>, c: Seq<Seq<usize>>) -> bool {
    &&& forall|i: int| 0 <= i < c.len() ==> (#[trigger] c[i]).len() > 0 && ascending(c[i])
    &&& forall|i: int, x: usize| 0 <= i < c.len() && #[trigger] c[i].contains(x) ==> x < adj.len()
    &&& forall|x: usize| x < adj.len() ==> #[trigger] covered(c, x)
    &&& forall|i: int, j: int, x: usize, y: usize|
        #![trigger c[i].contains(x), c[j].contains(y)]
        0 <= i < c.len() && 0 <= j < c.len() && c[i].contains(x) && c[j].contains(y) ==> (i == j
            <==> mutual(adj, x, y))
}

/// Whether `x` stands in `order` behind every node of `c`.
pub open spec fn behind_all(order: Seq<usize>, x: usize, c: Seq<usize>) -> bool {
    forall|y: usize| #[trigger] c.contains(y) ==> order.index_of(y) < order.index_of(x)
}

/// Whether some node of `a` stands in `order` behind every node of `b`.
pub open spec fn finishes_after(order: Seq<usize>, a: Seq<usize>, b: Seq<usize>) -> bool {
    exists|x: usize| a.contains(x) && #[trigger] behind_all(order, x, b)
}

/// Whether each list holds a node that finishes after all nodes of each later list.
pub open spec fn latest_first(order: Seq<usize>, c: Seq<Seq<usize>>) -> bool {
    forall|i: int, j: int|
        0 <= i < j < c.len() ==> #[trigger] finishes_after(order, c[i], c[j])
}

/// A node that is not assigned has no mutually reachable node among the assigned ones, so a path
/// that closes a cycle through it stays outside.
proof fn lemma_backwards(
    adj: Seq<Vec<usize>>,
    before: Seq<bool>,
    after: Seq<bool>,
    c: Seq<usize>,
    root: usize,
    p: Seq<usize>,
    i: int,
)
    requires
        closed_graph(adj),
        before.len() == adj.len(),
        after.len() == adj.len(),
        root < adj.len(),
        !before[root as int],
        c.contains(root),
        forall|x: usize| x < adj.len() ==> (#[trigger] after[x as int] <==> before[x as int]
            || c.contains(x)),
        forall|x: usize, y: usize| c.contains(y) && #[trigger] edge(adj, x, y) ==> after[x as int],
        forall|x: usize, y: usize| x < adj.len() && y < adj.len() && before[x as int]
            && #[trigger] mutual(adj, x, y) ==> before[y as int],
        is_path(adj, p),
        p.last() == root,
        reach(adj, root, p[0]),
        p[0] < adj.len(),
        0 <= i < p.len(),
    ensures
        c.contains(p[i]),
    decreases p.len() - i,
{
    if i < p.len() - 1 {
        lemma_backwards(adj, before, after, c, root, p, i + 1);
        assert(step(adj, p, i));
        assert(edge(adj, p[i], p[i + 1]));
        // `p[i]` and the root reach each other.
        assert(leads(adj, p.skip(i), p[i], root)) by {
            let q = p.skip(i);
            assert forall|j: int| 0 <= j < q.len() - 1 implies #[trigger] step(adj, q, j) by {
                assert(step(adj, p, i + j));
            }
        }
        assert(leads(adj, p.take(i + 1), p[0], p[i])) by {
            let q = p.take(i + 1);
            assert forall|j: int| 0 <= j < q.len() - 1 implies #[trigger] step(adj, q, j) by {
                assert(step(adj, p, j));
            }
        }
        reach_transitive(adj, root, p[0], p[i]);
        assert(mutual(adj, p[i], root));
        assert(after[p[i] as int]);
    }
}

proof fn lemma_latest_push(order: Seq<usize>, c: Seq<Seq<usize>>, last: Seq<usize>)
    requires
        latest_first(order, c),
        forall|i: int| 0 <= i < c.len() ==> #[trigger] finishes_after(order, c[i], last),
    ensures
        latest_first(order, c.push(last)),
{
    let d = c.push(last);
    assert forall|i: int, j: int| 0 <= i < j < d.len()
        implies #[trigger] finishes_after(order, d[i], d[j]) by {
        if j < c.len() {
            assert(finishes_after(order, c[i], c[j]));
        } else {
            assert(finishes_after(order, c[i], last));
        }
    }
}

/// The strongly connected components, those that finish last first.
fn strong_components(adj: &Vec<Vec<usize>>, order: &Vec<usize>) -> (r: Vec<Vec<usize>>)
    requires
        closed_graph(adj@),
        order@.no_duplicates(),
        finish_property(adj@, order@),
        forall|i: int| 0 <= i < order@.len() ==> (#[trigger] order@[i]) < adj@.len(),
        forall|x: usize| x < adj@.len() ==> #[trigger] order@.contains(x),
    ensures
        is_components(adj@, lists(r@)),
        latest_first(order@, lists(r@)),
{
    let rev = reversed(adj);
    let n: usize = adj.len();
    let mut assigned: Vec<bool> = Vec::new();
    for i in 0..n
        invariant
            assigned@.len() == i,
            forall|k: int| 0 <= k < i ==> !assigned@[k],
    {
        assigned.push(false);
    }
    let mut comps: Vec<Vec<usize>> = Vec::new();
    let mut m: usize = order.len();
    assert forall|x: usize| x < n implies order@.index_of(x) < m by {
        assert(order@.contains(x));
    }
    while m > 0
        invariant
            closed_graph(adj@),
            n == adj@.len(),
            rev@.len() == n,
            forall|u: usize, v: usize| #[trigger] edge(rev@, v, u) <==> v < adj@.len()
                && edge(adj@, u, v),
            order@.no_duplicates(),
            finish_property(adj@, order@),
            forall|i: int| 0 <= i < order@.len() ==> (#[trigger] order@[i]) < adj@.len(),
            forall|x: usize| x < adj@.len() ==> #[trigger] order@.contains(x),
            m <= order@.len(),
            assigned@.len() == n,
            forall|x: usize| x < n ==> (
                #[trigger] assigned@[x as int] <==> covered(lists(comps@), x)
            ),
            forall|x: usize, y: usize| x < n && y < n && assigned@[x as int]
                && #[trigger] mutual(adj@, x, y) ==> assigned@[y as int],
            forall|x: usize| x < n && !(#[trigger] assigned@[x as int]) ==> order@.index_of(x) < m,
            forall|i: int| 0 <= i < comps@.len() ==> (
                #[trigger] comps@[i]
            )@.len() > 0 && ascending(comps@[i]@),
            forall|i: int, x: usize| 0 <= i < comps@.len() && #[trigger] comps@[i]@.contains(x)
                ==> x < n,
            forall|i: int, j: int, x: usize, y: usize|
                #![trigger comps@[i]@.contains(x), comps@[j]@.contains(y)]
                0 <= i < comps@.len() && 0 <= j < comps@.len() && comps@[i]@.contains(x)
                    && comps@[j]@.contains(y) ==> (i == j <==> mutual(adj@, x, y)),
            latest_first(order@, lists(comps@)),
            forall|i: int| 0 <= i < comps@.len() ==> exists|x: usize| (
                #[trigger] comps@[i]
            )@.contains(x) && #[trigger] order@.index_of(x) >= m,
        decreases m,
    {
        m = m - 1;
        let root: usize = order[m];
        let ghost before = assigned@;
        let ghost comps0 = comps@;
        assert(order@.contains(root));
        assert(order@.index_of(root) == m);
        if !assigned[root] {
            let c = gather(Ghost(adj@), &rev, root, &mut assigned);
            let ghost cs = c@;
            proof {
                // The gathered nodes are exactly those that reach the root and are reached by it.
                assert forall|x: usize| cs.contains(x) implies #[trigger] mutual(adj@, x, root)
                    && x < n by {
                    let p = choose|p: Seq<usize>| #[trigger] leads(adj@, p, x, root)
                        && forall|i: int| 0 <= i < p.len() ==> cs.contains(#[trigger] p[i]);
                    assert forall|k: int| 0 <= k < p.len() implies order@.contains(#[trigger] p[k])
                        && order@.index_of(p[k]) <= m by {
                        let j = choose|j: int| 0 <= j < cs.len() && cs[j] == p[k];
                        assert(!before[p[k] as int]);
                    }
                    lemma_finish(adj@, order@, p, 0, m as int);
                    let j = choose|j: int| 0 <= j < cs.len() && cs[j] == x;
                    assert(cs[j] < n);
                }
                assert forall|y: usize| y < n && #[trigger] mutual(adj@, y, root)
                    implies cs.contains(y) by {
                    let p = choose|p: Seq<usize>| #[trigger] leads(adj@, p, y, root);
                    lemma_backwards(adj@, before, assigned@, cs, root, p, 0);
                }
                assert forall|x: usize, y: usize| #[trigger] mutual(adj@, x, y) && cs.contains(x)
                    && y < n implies cs.contains(y) by {
                    assert(mutual(adj@, x, root));
                    reach_transitive(adj@, y, x, root);
                    reach_transitive(adj@, root, x, y);
                    assert(mutual(adj@, y, root));
                }
                assert forall|x: usize, y: usize| cs.contains(x) && cs.contains(y)
                    implies #[trigger] mutual(adj@, x, y) by {
                    assert(mutual(adj@, x, root));
                    assert(mutual(adj@, y, root));
                    reach_transitive(adj@, x, root, y);
                    reach_transitive(adj@, y, root, x);
                }
            }
            comps.push(c);
            proof {
                assert(forall|i: int| 0 <= i < comps0.len() ==> comps@[i] == comps0[i]);
                assert(comps@[comps0.len() as int]@ == cs);
                assert forall|x: usize| x < n implies (
                    #[trigger] assigned@[x as int] <==> covered(lists(comps@), x)
                ) by {
                    if before[x as int] {
                        let i = choose|i: int| 0 <= i < lists(comps0).len() && (
                            #[trigger] lists(comps0)[i]
                        ).contains(x);
                        assert(lists(comps@)[i].contains(x));
                    } else if cs.contains(x) {
                        assert(lists(comps@)[comps0.len() as int].contains(x));
                    }
                    if covered(lists(comps@), x) {
                        let i = choose|i: int| 0 <= i < lists(comps@).len() && (
                            #[trigger] lists(comps@)[i]
                        ).contains(x);
                        if i < comps0.len() {
                            assert(lists(comps0)[i].contains(x));
                            assert(covered(lists(comps0), x));
                        }
                    }
                }
                assert forall|x: usize, y: usize| x < n && y < n && assigned@[x as int]
                    && #[trigger] mutual(adj@, x, y) implies assigned@[y as int] by {
                    if !before[x as int] {
                        assert(cs.contains(x));
                    }
                }
                assert forall|i: int, x: usize| 0 <= i < comps@.len()
                    && #[trigger] comps@[i]@.contains(x) implies x < n by {
                    if i < comps0.len() {
                        assert(comps0[i]@.contains(x));
                    } else {
                        assert(cs.contains(x));
                        assert(mutual(adj@, x, root));
                    }
                }
                assert forall|i: int, j: int, x: usize, y: usize|
                #![trigger comps@[i]@.contains(x), comps@[j]@.contains(y)]
                0 <= i < comps@.len() && 0 <= j < comps@.len() && comps@[i]@.contains(x)
                    && comps@[j]@.contains(y) implies (i == j <==> mutual(adj@, x, y)) by {
                    if i < comps0.len() && j < comps0.len() {
                        assert(comps0[i]@.contains(x) && comps0[j]@.contains(y));
                    } else if i == j {
                        assert(cs.contains(x) && cs.contains(y));
                        assert(mutual(adj@, x, y));
                    } else {
                        if mutual(adj@, x, y) {
                            assert(mutual(adj@, y, x));
                            if i < comps0.len() {
                                assert(comps0[i]@.contains(x));
                                assert(lists(comps0)[i].contains(x));
                                assert(covered(lists(comps0), x));
                                assert(before[x as int]);
                                assert(cs.contains(y));
                                assert(before[y as int]);
                                let k = choose|k: int| 0 <= k < cs.len() && cs[k] == y;
                                assert(!before[cs[k] as int]);
                            } else {
                                assert(comps0[j]@.contains(y));
                                assert(lists(comps0)[j].contains(y));
                                assert(covered(lists(comps0), y));
                                assert(before[y as int]);
                                assert(cs.contains(x));
                                assert(before[x as int]);
                                let k = choose|k: int| 0 <= k < cs.len() && cs[k] == x;
                                assert(!before[cs[k] as int]);
                            }
                        }
                    }
                }
                assert(ascending(cs));
                assert(lists(comps@) =~= lists(comps0).push(cs));
                assert forall|i: int| 0 <= i < lists(comps0).len()
                    implies #[trigger] finishes_after(order@, lists(comps0)[i], cs) by {
                    let x = choose|x: usize| (
                        #[trigger] comps0[i]
                    )@.contains(x) && #[trigger] order@.index_of(x) >= m + 1;
                    assert forall|y: usize| #[trigger] cs.contains(y)
                        implies order@.index_of(y) < order@.index_of(x) by {
                        let k = choose|k: int| 0 <= k < cs.len() && cs[k] == y;
                        assert(!before[y as int]);
                    }
                    assert(lists(comps0)[i].contains(x) && behind_all(order@, x, cs));
                }
                lemma_latest_push(order@, lists(comps0), cs);
                assert forall|i: int| 0 <= i < comps@.len() implies exists|x: usize| (
                    #[trigger] comps@[i]
                )@.contains(x) && #[trigger] order@.index_of(x) >= m by {
                    if i < comps0.len() {
                        let x = choose|x: usize| (
                            #[trigger] comps0[i]
                        )@.contains(x) && #[trigger] order@.index_of(x) >= m + 1;
                        assert(comps@[i]@.contains(x) && order@.index_of(x) >= m);
                    } else {
                        assert(comps@[i]@.contains(root) && order@.index_of(root) >= m);
                    }
                }
                assert forall|x: usize| x < n && !(
                    #[trigger] assigned@[x as int]
                ) implies order@.index_of(x) < m by {
                    assert(!before[x as int]);
                    assert(order@.contains(x));
                    if order@.index_of(x) == m {
                        assert(x == root);
                        assert(cs.contains(root));
                    }
                }
            }
        } else {
            proof {
                assert forall|x: usize| x < n && !(
                    #[trigger] assigned@[x as int]
                ) implies order@.index_of(x) < m by {
                    assert(order@.contains(x));
                    if order@.index_of(x) == m {
                        assert(x == root);
                    }
                }
                assert forall|i: int| 0 <= i < comps@.len() implies exists|x: usize| (
                    #[trigger] comps@[i]
                )@.contains(x) && #[trigger] order@.index_of(x) >= m by {
                    let x = choose|x: usize| (
                        #[trigger] comps0[i]
                    )@.contains(x) && #[trigger] order@.index_of(x) >= m + 1;
                    assert(comps@[i]@.contains(x) && order@.index_of(x) >= m);
                }
            }
        }
    }
    proof {
        let ls = lists(comps@);
        assert forall|x: usize| x < n implies #[trigger] covered(ls, x) by {
            assert(order@.contains(x));
            assert(assigned@[x as int]);
        }
        assert forall|i: int, x: usize| 0 <= i < ls.len() && #[trigger] ls[i].contains(x)
            implies x < n by {
            assert(comps@[i]@.contains(x));
        }
        assert forall|i: int, j: int, x: usize, y: usize|
        #![trigger ls[i].contains(x), ls[j].contains(y)]
        0 <= i < ls.len() && 0 <= j < ls.len() && ls[i].contains(x) && ls[j].contains(y)
            implies (i == j
            <==> mutual(adj@, x, y)) by {
            assert(comps@[i]@.contains(x) && comps@[j]@.contains(y));
        }
    }
    comps
}

/// Whether an edge leads from a node of `a` to a node of `b`.
pub open spec fn joined(adj: Seq<Vec<usize>>, a: Seq<usize>, b: Seq<usize>) -> bool {
    exists|x: usize, y: usize| a.contains(x) && b.contains(y) && #[trigger] edge(adj, x, y)
}

/// Whether `dag` is the graph of the lists `c`: it joins two different lists exactly when an edge
/// leads from a node of the first to a node of the second.
pub open spec fn condensed(adj: Seq<Vec<usize>>, c: Seq<Seq<usize>>, dag: Seq<Vec<usize>>) -> bool {
    &&& dag.len() == c.len()
    &&& forall|k: int| 0 <= k < dag.len() ==> ascending((#[trigger] dag[k])@)
    &&& forall|k: usize, j: usize| #[trigger]
        edge(dag, k, j) <==> k < c.len() && j < c.len() && j != k && joined(
            adj,
            c[k as int],
            c[j as int],
        )
}

/// The list that holds each node.
fn homes(n: usize, comps: &Vec<Vec<usize>>, adj: Ghost<Seq<Vec<usize>>>) -> (r: Vec<usize>)
    requires
        adj@.len() == n,
        is_components(adj@, lists(comps@)),
    ensures
        r@.len() == n,
        forall|x: usize| x < n ==> #[trigger] r@[x as int] < comps@.len()
            && comps@[r@[x as int] as int]@.contains(x),
{
    let mut r: Vec<usize> = Vec::new();
    for i in 0..n
        invariant
            r@.len() == i,
    {
        r.push(0);
    }
    let mut k: usize = 0;
    while k < comps.len()
        invariant
            adj@.len() == n,
            is_components(adj@, lists(comps@)),
            r@.len() == n,
            k <= comps@.len(),
            forall|j: int, x: usize| 0 <= j < k && #[trigger] comps@[j]@.contains(x)
                ==> r@[x as int] == j,
        decreases comps@.len() - k,
    {
        let mut i: usize = 0;
        while i < comps[k].len()
            invariant
                adj@.len() == n,
                is_components(adj@, lists(comps@)),
                r@.len() == n,
                k < comps@.len(),
                i <= comps@[k as int]@.len(),
                forall|j: int, x: usize| 0 <= j < k && #[trigger] comps@[j]@.contains(x)
                    ==> r@[x as int] == j,
                forall|m: int| 0 <= m < i ==> r@[#[trigger] comps@[k as int]@[m] as int] == k,
            decreases comps@[k as int]@.len() - i,
        {
            let x: usize = comps[k][i];
            assert(comps@[k as int]@.contains(x));
            assert(lists(comps@)[k as int].contains(x));
            proof {
                assert forall|j: int, y: usize| 0 <= j < k && #[trigger] comps@[j]@.contains(y)
                    implies y != x && y < n by {
                    assert(lists(comps@)[j].contains(y));
                    reach_self(adj@, x);
                    assert(mutual(adj@, x, x));
                }
                assert forall|m: int| 0 <= m < i implies (#[trigger] comps@[k as int]@[m]) < n by {
                    assert(comps@[k as int]@.contains(comps@[k as int]@[m]));
                    assert(lists(comps@)[k as int].contains(comps@[k as int]@[m]));
                }
            }
            r.set(x, k);
            i = i + 1;
        }
        assert forall|j: int, x: usize| 0 <= j < k + 1 && #[trigger] comps@[j]@.contains(x)
            implies r@[x as int] == j by {
            if j == k {
                let m = choose|m: int| 0 <= m < comps@[k as int]@.len()
                    && comps@[k as int]@[m] == x;
                assert(r@[comps@[k as int]@[m] as int] == k);
            }
        }
        k = k + 1;
    }
    assert forall|x: usize| x < n implies #[trigger] r@[x as int] < comps@.len()
        && comps@[r@[x as int] as int]@.contains(x) by {
        assert(covered(lists(comps@), x));
        let i = choose|i: int| 0 <= i < lists(comps@).len() && (
            #[trigger] lists(comps@)[i]
        ).contains(x);
        assert(comps@[i]@.contains(x));
    }
    r
}

/// The graph of the components.
fn condense(
    adj: &Vec<Vec<usize>>,
    comps: &Vec<Vec<usize>>,
    home: &Vec<usize>,
) -> (r: Vec<Vec<usize>>)
    requires
        closed_graph(adj@),
        is_components(adj@, lists(comps@)),
        home@.len() == adj@.len(),
        forall|x: usize| x < adj@.len() ==> #[trigger] home@[x as int] < comps@.len()
            && comps@[home@[x as int] as int]@.contains(x),
    ensures
        condensed(adj@, lists(comps@), r@),
{
    let mut r: Vec<Vec<usize>> = Vec::new();
    let mut k: usize = 0;
    while k < comps.len()
        invariant
            closed_graph(adj@),
            is_components(adj@, lists(comps@)),
            home@.len() == adj@.len(),
            forall|x: usize| x < adj@.len() ==> #[trigger] home@[x as int] < comps@.len()
                && comps@[home@[x as int] as int]@.contains(x),
            k <= comps@.len(),
            r@.len() == k,
            forall|i: int| 0 <= i < k ==> ascending((#[trigger] r@[i])@),
            forall|i: usize, j: usize| #[trigger] edge(r@, i, j) <==> i < k && j < comps@.len()
                && j != i && joined(adj@, comps@[i as int]@, comps@[j as int]@),
        decreases comps@.len() - k,
    {
        let mut mark: Vec<bool> = Vec::new();
        for i in 0..comps.len()
            invariant
                mark@.len() == i,
                forall|m: int| 0 <= m < i ==> !mark@[m],
        {
            mark.push(false);
        }
        let ghost own = comps@[k as int]@;
        let mut i: usize = 0;
        while i < comps[k].len()
            invariant
                closed_graph(adj@),
                is_components(adj@, lists(comps@)),
                home@.len() == adj@.len(),
                forall|x: usize| x < adj@.len() ==> #[trigger] home@[x as int] < comps@.len()
                    && comps@[home@[x as int] as int]@.contains(x),
                k < comps@.len(),
                own == comps@[k as int]@,
                i <= own.len(),
                mark@.len() == comps@.len(),
                forall|j: int| 0 <= j < mark@.len() && #[trigger] mark@[j] ==> j != k && joined(
                    adj@,
                    own,
                    comps@[j]@,
                ),
                forall|m: int, y: usize| 0 <= m < i && #[trigger] edge(adj@, own[m], y)
                    ==> home@[y as int] == k || mark@[home@[y as int] as int],
            decreases own.len() - i,
        {
            let x: usize = comps[k][i];
            assert(own.contains(x));
            assert(lists(comps@)[k as int].contains(x));
            let mut t: usize = 0;
            while t < adj[x].len()
                invariant
                    closed_graph(adj@),
                    home@.len() == adj@.len(),
                    forall|x: usize| x < adj@.len() ==> #[trigger] home@[x as int] < comps@.len()
                        && comps@[home@[x as int] as int]@.contains(x),
                    k < comps@.len(),
                    own == comps@[k as int]@,
                    i < own.len(),
                    x == own[i as int],
                    x < adj@.len(),
                    t <= adj@[x as int]@.len(),
                    mark@.len() == comps@.len(),
                    forall|j: int| 0 <= j < mark@.len() && #[trigger] mark@[j] ==> j != k && joined(
                        adj@,
                        own,
                        comps@[j]@,
                    ),
                    forall|m: int, y: usize| 0 <= m < i && #[trigger] edge(adj@, own[m], y)
                        ==> home@[y as int] == k || mark@[home@[y as int] as int],
                    forall|m: int| 0 <= m < t ==> home@[#[trigger] adj@[x as int]@[m] as int] == k
                        || mark@[home@[adj@[x as int]@[m] as int] as int],
                decreases adj@[x as int]@.len() - t,
            {
                let y: usize = adj[x][t];
                let ghost mark0 = mark@;
                assert(adj@[x as int]@.contains(y));
                assert(edge(adj@, x, y));
                let j: usize = home[y];
                if j != k {
                    mark.set(j, true);
                    assert(own.contains(x));
                    assert(comps@[j as int]@.contains(y));
                    assert(joined(adj@, own, comps@[j as int]@));
                }
                assert forall|m: int, z: usize| 0 <= m < i && #[trigger] edge(adj@, own[m], z)
                    implies home@[z as int] == k || mark@[home@[z as int] as int] by {
                    assert(z < adj@.len());
                    assert(home@[z as int] < comps@.len());
                    assert(home@[z as int] == k || mark0[home@[z as int] as int]);
                }
                assert forall|m: int| 0 <= m < t + 1
                    implies home@[#[trigger] adj@[x as int]@[m] as int] == k
                    || mark@[home@[adj@[x as int]@[m] as int] as int] by {
                    let z = adj@[x as int]@[m];
                    assert(adj@[x as int]@.contains(z));
                    assert(edge(adj@, x, z));
                    assert(home@[z as int] < comps@.len());
                    if m < t {
                        assert(home@[z as int] == k || mark0[home@[z as int] as int]);
                    }
                }
                t = t + 1;
            }
            assert forall|m: int, y: usize| 0 <= m < i + 1 && #[trigger] edge(adj@, own[m], y)
                implies home@[y as int] == k || mark@[home@[y as int] as int] by {
                if m == i {
                    let z = choose|z: int| 0 <= z < adj@[x as int]@.len()
                        && adj@[x as int]@[z] == y;
                    assert(home@[adj@[x as int]@[z] as int] == k
                        || mark@[home@[adj@[x as int]@[z] as int] as int]);
                }
            }
            i = i + 1;
        }
        let row = marked(&mark);
        let ghost r0 = r@;
        r.push(row);
        proof {
            assert forall|a: usize, j: usize| #[trigger] edge(r@, a, j) <==> a < k + 1
                && j < comps@.len() && j != a && joined(adj@, comps@[a as int]@, comps@[j as int]@)
                by {
                if a < k {
                    assert(r@[a as int] == r0[a as int]);
                    assert(edge(r@, a, j) <==> edge(r0, a, j));
                } else if a == k {
                    assert(r@[a as int]@ == row@);
                    assert(edge(r@, a, j) <==> row@.contains(j));
                    if j < comps@.len() && j != k && joined(adj@, own, comps@[j as int]@) {
                        let (x, y) = choose|x: usize, y: usize| own.contains(x)
                            && comps@[j as int]@.contains(y) && #[trigger] edge(adj@, x, y);
                        let m = choose|m: int| 0 <= m < own.len() && own[m] == x;
                        assert(edge(adj@, own[m], y));
                        let h = home@[y as int];
                        assert(y < adj@.len());
                        assert(h < comps@.len() && comps@[h as int]@.contains(y));
                        assert(lists(comps@)[h as int].contains(y));
                        assert(lists(comps@)[j as int].contains(y));
                        reach_self(adj@, y);
                        assert(mutual(adj@, y, y));
                        assert(h == j);
                        assert(mark@[j as int]);
                    }
                }
            }
        }
        k = k + 1;
    }
    assert forall|a: usize, j: usize| #[trigger]
        edge(r@, a, j) <==> a < lists(comps@).len() && j < lists(comps@).len() && j != a && joined(
            adj@,
            lists(comps@)[a as int],
            lists(comps@)[j as int],
        ) by {}
    r
}

/// Whether edges between different lists only lead forwards.
pub open spec fn forward(adj: Seq<Vec<usize>>, c: Seq<Seq<usize>>) -> bool {
    forall|i: int, j: int, x: usize, y: usize|
        #![trigger c[i].contains(x), c[j].contains(y)]
        0 <= i < c.len() && 0 <= j < c.len() && c[i].contains(x) && c[j].contains(y)
            && edge(adj, x, y)
            ==> i <= j
}

/// Whether `c` lists the components in the reverse of the order in which a depth-first search of
/// their graph finishes them; the graph numbers the components by their latest finishing node.
pub open spec fn schedule(
    adj: Seq<Vec<usize>>,
    entry: usize,
    comps: Seq<Seq<usize>>,
    dag: Seq<Vec<usize>>,
    start: usize,
    c: Seq<Seq<usize>>,
) -> bool {
    &&& is_components(adj, comps)
    &&& latest_first(finish_order(adj, entry), comps)
    &&& condensed(adj, comps, dag)
    &&& start < comps.len()
    &&& comps[start as int].contains(entry)
    &&& c == finish_order(dag, start).reverse().map_values(|k: usize| comps[k as int])
}

/// Whether `c` is the schedule of the components.
pub open spec fn scheduled(adj: Seq<Vec<usize>>, entry: usize, c: Seq<Seq<usize>>) -> bool {
    exists|comps: Seq<Seq<usize>>, dag: Seq<Vec<usize>>, start: usize| #[trigger]
        schedule(adj, entry, comps, dag, start, c)
}

/// A path between components gives paths between all their nodes.
proof fn lemma_condensed_reach(
    adj: Seq<Vec<usize>>,
    c: Seq<Seq<usize>>,
    dag: Seq<Vec<usize>>,
    p: Seq<usize>,
    x: usize,
    y: usize,
)
    requires
        is_components(adj, c),
        condensed(adj, c, dag),
        is_path(dag, p),
        p[0] < c.len(),
        p.last() < c.len(),
        c[p[0] as int].contains(x),
        c[p.last() as int].contains(y),
    ensures
        reach(adj, x, y),
    decreases p.len(),
{
    if p.len() == 1 {
        assert(mutual(adj, x, y));
    } else {
        assert(step(dag, p, 0));
        assert(edge(dag, p[0], p[1]));
        let (a, b) = choose|a: usize, b: usize| c[p[0] as int].contains(a)
            && c[p[1] as int].contains(b) && #[trigger] edge(adj, a, b);
        assert(mutual(adj, x, a));
        reach_edge(adj, a, b);
        let q = p.skip(1);
        assert forall|j: int| 0 <= j < q.len() - 1 implies #[trigger] step(dag, q, j) by {
            assert(step(dag, p, j + 1));
        }
        lemma_condensed_reach(adj, c, dag, q, b, y);
        reach_transitive(adj, x, a, b);
        reach_transitive(adj, x, b, y);
    }
}

/// A path between nodes gives a path between their components.
proof fn lemma_reach_condensed(
    adj: Seq<Vec<usize>>,
    c: Seq<Seq<usize>>,
    dag: Seq<Vec<usize>>,
    p: Seq<usize>,
    i: usize,
    j: usize,
)
    requires
        closed_graph(adj),
        is_components(adj, c),
        condensed(adj, c, dag),
        is_path(adj, p),
        i < c.len(),
        j < c.len(),
        c.len() <= usize::MAX,
        c[i as int].contains(p[0]),
        c[j as int].contains(p.last()),
    ensures
        reach(dag, i, j),
    decreases p.len(),
{
    if p.len() == 1 {
        reach_self(adj, p[0]);
        assert(mutual(adj, p[0], p[0]));
        reach_self(dag, i);
    } else {
        assert(step(adj, p, 0));
        assert(edge(adj, p[0], p[1]));
        assert(covered(c, p[1]));
        let k = choose|k: int| 0 <= k < c.len() && (#[trigger] c[k]).contains(p[1]);
        let q = p.skip(1);
        assert forall|m: int| 0 <= m < q.len() - 1 implies #[trigger] step(adj, q, m) by {
            assert(step(adj, p, m + 1));
        }
        let k2 = k as usize;
        lemma_reach_condensed(adj, c, dag, q, k2, j);
        if k != i {
            assert(joined(adj, c[i as int], c[k]));
            assert(edge(dag, i, k2));
            reach_edge(dag, i, k2);
            reach_transitive(dag, i, k2, j);
        }
    }
}

/// The strongly connected components in topological order, if `entry` reaches every node.
pub fn topological_order(adj: &Vec<Vec<usize>>, entry: usize) -> (r: Option<Vec<Vec<usize>>>)
    requires
        closed_graph(adj@),
        entry < adj@.len(),
    ensures
        r is Some <==> forall|x: usize| x < adj@.len() ==> #[trigger] reach(adj@, entry, x),
        r matches Some(c) ==> is_components(adj@, lists(c@)) && forward(adj@, lists(c@))
            && scheduled(
            adj@,
            entry,
            lists(c@),
        ),
{
    let (seen, order) = finishing_order(adj, entry);
    for i in 0..seen.len()
        invariant
            seen@.len() == adj@.len(),
            forall|x: usize| x < adj@.len() ==> (
                #[trigger] seen@[x as int] <==> reach(adj@, entry, x)
            ),
            forall|k: int| 0 <= k < i ==> #[trigger] seen@[k],
    {
        if !seen[i] {
            assert(!reach(adj@, entry, i));
            return None;
        }
    }
    proof {
        assert forall|x: usize| x < adj@.len() implies #[trigger] reach(adj@, entry, x) by {
            assert(seen@[x as int]);
        }
        assert forall|x: usize| x < adj@.len() implies #[trigger] order@.contains(x) by {
            assert(seen@[x as int]);
        }
    }
    let comps = strong_components(adj, &order);
    let home = homes(adj.len(), &comps, Ghost(adj@));
    let dag = condense(adj, &comps, &home);
    let start: usize = home[entry];
    let count: usize = comps.len();
    let ghost ls = lists(comps@);
    assert(ls[start as int].contains(entry));
    let (dag_seen, dag_order) = finishing_order(&dag, start);
    let ghost o = dag_order@.reverse();
    let ghost wanted = o.map_values(|k: usize| ls[k as int]);
    let mut r: Vec<Vec<usize>> = Vec::new();
    let mut m: usize = dag_order.len();
    while m > 0
        invariant
            m <= dag_order@.len(),
            o == dag_order@.reverse(),
            ls == lists(comps@),
            dag@.len() == comps@.len(),
            forall|i: int| 0 <= i < dag_order@.len() ==> #[trigger] dag_order@[i] < dag@.len(),
            wanted == o.map_values(|k: usize| ls[k as int]),
            r@.len() == dag_order@.len() - m,
            lists(r@) == wanted.take(dag_order@.len() - m),
        decreases m,
    {
        m = m - 1;
        let k: usize = dag_order[m];
        let ghost r0 = r@;
        let mut copy: Vec<usize> = Vec::new();
        let size: usize = comps[k].len();
        for i in 0..size
            invariant
                k < comps@.len(),
                size == comps@[k as int]@.len(),
                copy@ == comps@[k as int]@.take(i as int),
        {
            assert(
                comps@[k as int]@.take(i + 1) =~= comps@[k as int]@.take(i as int).push(
                    comps@[k as int]@[i as int],
                )
            );
            copy.push(comps[k][i]);
        }
        assert(comps@[k as int]@.take(comps@[k as int]@.len() as int) =~= comps@[k as int]@);
        r.push(copy);
        assert(o[dag_order@.len() - m - 1] == k);
        assert(lists(r@) =~= lists(r0).push(ls[k as int]));
        assert(
            wanted.take(
                dag_order@.len() - m,
            ) =~= wanted.take(dag_order@.len() - m - 1).push(ls[k as int])
        );
    }
    proof {
        let c = lists(r@);
        assert(ls.len() == count);
        assert(c =~= wanted);
        assert(schedule(adj@, entry, ls, dag@, start, c));
        // Every component is reached from that of the entry, so each is listed once.
        assert forall|k: usize| k < ls.len() implies #[trigger] dag_order@.contains(k) by {
            assert(ls[k as int].len() > 0);
            let x = ls[k as int][0];
            assert(ls[k as int].contains(x));
            assert(reach(adj@, entry, x));
            let p = choose|p: Seq<usize>| #[trigger] leads(adj@, p, entry, x);
            lemma_reach_condensed(adj@, ls, dag@, p, start, k);
            assert(dag_seen@[k as int]);
        }
        let n = dag_order@.len() as int;
        assert forall|i: int| 0 <= i < c.len()
            implies #[trigger] c[i] == ls[dag_order@[n - 1 - i] as int] by {}
        lemma_scheduled_components(adj@, ls, dag@, dag_order@, c);
    }
    Some(r)
}

/// Listing the components in the reverse finishing order of their graph keeps them and makes all
/// edges between them lead forwards.
proof fn lemma_scheduled_components(
    adj: Seq<Vec<usize>>,
    ls: Seq<Seq<usize>>,
    dag: Seq<Vec<usize>>,
    order: Seq<usize>,
    c: Seq<Seq<usize>>,
)
    requires
        is_components(adj, ls),
        condensed(adj, ls, dag),
        order.no_duplicates(),
        ls.len() <= usize::MAX,
        forall|i: int| 0 <= i < order.len() ==> #[trigger] order[i] < ls.len(),
        forall|k: usize| k < ls.len() ==> #[trigger] order.contains(k),
        finish_property(dag, order),
        c.len() == order.len(),
        forall|i: int| 0 <= i < c.len()
            ==> #[trigger] c[i] == ls[order[order.len() - 1 - i] as int],
    ensures
        is_components(adj, c),
        forward(adj, c),
{
    let n = order.len() as int;
    assert forall|x: usize| x < adj.len() implies #[trigger] covered(c, x) by {
        assert(covered(ls, x));
        let k = choose|k: int| 0 <= k < ls.len() && (#[trigger] ls[k]).contains(x);
        assert(order.contains(k as usize));
        let m = choose|m: int| 0 <= m < order.len() && order[m] == k as usize;
        assert(c[n - 1 - m] == ls[k]);
        assert(c[n - 1 - m].contains(x));
    }
    assert forall|i: int, x: usize| 0 <= i < c.len() && #[trigger] c[i].contains(x)
        implies x < adj.len() by {
        assert(ls[order[n - 1 - i] as int].contains(x));
    }
    assert forall|i: int, j: int, x: usize, y: usize|
    #![trigger c[i].contains(x), c[j].contains(y)]
    0 <= i < c.len() && 0 <= j < c.len() && c[i].contains(x) && c[j].contains(y) implies (i == j
        <==> mutual(adj, x, y)) by {
        let a = order[n - 1 - i];
        let b = order[n - 1 - j];
        assert(ls[a as int].contains(x) && ls[b as int].contains(y));
        assert(a == b <==> mutual(adj, x, y));
        assert(a == b ==> n - 1 - i == n - 1 - j);
    }
    assert forall|i: int, j: int, x: usize, y: usize|
    #![trigger c[i].contains(x), c[j].contains(y)]
    0 <= i < c.len() && 0 <= j < c.len() && c[i].contains(x) && c[j].contains(y) && edge(adj, x, y)
        implies i <= j by {
        let a = order[n - 1 - i];
        let b = order[n - 1 - j];
        assert(ls[a as int].contains(x) && ls[b as int].contains(y));
        if i > j {
            assert(a != b);
            assert(joined(adj, ls[a as int], ls[b as int]));
            assert(edge(dag, a, b));
            assert(reach(dag, order[n - 1 - j], order[n - 1 - i]));
            let p = choose|p: Seq<usize>| #[trigger] leads(dag, p, b, a);
            lemma_condensed_reach(adj, ls, dag, p, y, x);
            reach_edge(adj, x, y);
            assert(mutual(adj, x, y));
        }
    }
}

} // verus!
