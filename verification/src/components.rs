//! The strongly connected components of a function body in topological order.
use crate::error::{verification_error, verification_failure, Error};
use crate::flow::{successor_model, successors_of};
use crate::graph::{
    ascending,
    closed_graph,
    covered,
    edge,
    forward,
    is_components,
    leads,
    lists,
    marked,
    mutual,
    reach,
    scheduled, step, topological_order,
};
use crate::liveness::closed_body;
use crate::name_map::NameMap;
use crate::oomir::{CodeBlock, CodeBlockModel, Text};
use crate::text::{less, text_less, text_less_irreflexive, text_less_total, text_less_transitive};
use vstd::prelude::*;

verus! {

/// Whether a block transfers to another.
pub open spec fn label_edge(body: CodeBlockModel, a: Text, b: Text) -> bool {
    body.basic_blocks.dom().contains(a) && successors_of(
        body.basic_blocks[a].instructions,
    ).contains(b)
}

/// Whether the block at `i` transfers to the one behind it.
pub open spec fn label_step(body: CodeBlockModel, p: Seq<Text>, i: int) -> bool {
    label_edge(body, p[i], p[i + 1])
}

/// Whether each block of a non-empty sequence transfers to the next.
pub open spec fn label_path(body: CodeBlockModel, p: Seq<Text>) -> bool {
    p.len() >= 1 && forall|i: int| 0 <= i < p.len() - 1 ==> #[trigger] label_step(body, p, i)
}

/// Whether `p` leads from one block to another.
pub open spec fn label_leads(body: CodeBlockModel, p: Seq<Text>, a: Text, b: Text) -> bool {
    label_path(body, p) && p[0] == a && p.last() == b
}

/// Whether control can flow from one block to another.
pub open spec fn label_reach(body: CodeBlockModel, a: Text, b: Text) -> bool {
    exists|p: Seq<Text>| #[trigger] label_leads(body, p, a, b)
}

/// Whether control can flow from each of two blocks to the other.
pub open spec fn label_mutual(body: CodeBlockModel, a: Text, b: Text) -> bool {
    label_reach(body, a, b) && label_reach(body, b, a)
}

/// Whether every block can be reached from the entry.
pub open spec fn all_reachable(body: CodeBlockModel) -> bool {
    forall|label: Text| #[trigger] body.basic_blocks.dom().contains(label) ==> label_reach(
        body,
        body.entry,
        label,
    )
}

/// Whether labels are in strictly ascending order.
pub open spec fn labels_sorted(labels: Seq<Text>) -> bool {
    forall|i: int, j: int| 0 <= i < j < labels.len() ==> text_less(
        #[trigger] labels[i],
        #[trigger] labels[j],
    )
}

/// Whether some list holds a label.
pub open spec fn label_covered(c: Seq<Seq<Text>>, label: Text) -> bool {
    exists|i: int| 0 <= i < c.len() && (#[trigger] c[i]).contains(label)
}

/// Whether `c` lists the strongly connected components of a body in topological order, each with
/// its labels in ascending order.
pub open spec fn in_topological_order(body: CodeBlockModel, c: Seq<Seq<Text>>) -> bool {
    &&& forall|i: int| 0 <= i < c.len() ==> (#[trigger] c[i]).len() > 0 && labels_sorted(c[i])
    &&& forall|i: int, a: Text| 0 <= i < c.len() && #[trigger] c[i].contains(a)
        ==> body.basic_blocks.dom().contains(a)
    &&& forall|a: Text| #[trigger] body.basic_blocks.dom().contains(a) ==> label_covered(c, a)
    &&& forall|i: int, j: int, a: Text, b: Text|
        #![trigger c[i].contains(a), c[j].contains(b)]
        0 <= i < c.len() && 0 <= j < c.len() && c[i].contains(a) && c[j].contains(b) ==> (
            i == j <==> label_mutual(body, a, b)
        )
    &&& forall|i: int, j: int, a: Text, b: Text|
        #![trigger c[i].contains(a), c[j].contains(b)]
        0 <= i < c.len() && 0 <= j < c.len() && c[i].contains(a) && c[j].contains(b)
            && label_edge(body, a, b) ==> i <= j
}

/// Whether the blocks of a body are numbered in the order of their labels and `adj` is the graph of
/// the numbers.
pub open spec fn numbered(body: CodeBlockModel, labels: Seq<Text>, adj: Seq<Vec<usize>>) -> bool {
    &&& labels_sorted(labels)
    &&& forall|a: Text| #[trigger] body.basic_blocks.dom().contains(a) <==> labels.contains(a)
    &&& adj.len() == labels.len()
    &&& forall|u: int| 0 <= u < adj.len() ==> ascending((#[trigger] adj[u])@)
    &&& forall|u: usize, v: usize| #[trigger] edge(adj, u, v) <==> u < labels.len()
        && v < labels.len() && label_edge(
            body,
            labels[u as int],
            labels[v as int],
        )
}

/// The labels with the given numbers.
pub open spec fn labelled(labels: Seq<Text>, c: Seq<Seq<usize>>) -> Seq<Seq<Text>> {
    c.map_values(|list: Seq<usize>| list.map_values(|u: usize| labels[u as int]))
}

/// Whether `c` is the schedule of the components: that of the blocks numbered in the order of their
/// labels, searched from the entry.
pub open spec fn component_schedule(body: CodeBlockModel, c: Seq<Seq<Text>>) -> bool {
    exists|labels: Seq<Text>, adj: Seq<Vec<usize>>, entry: usize, order: Seq<Seq<usize>>|
        #![trigger numbered(body, labels, adj), scheduled(adj, entry, order)]
        numbered(body, labels, adj) && entry < labels.len() && labels[entry as int] == body.entry
            && scheduled(
            adj,
            entry,
            order,
        ) && c == labelled(labels, order)
}

/// Puts a label into a sorted list.
pub fn insert_label(list: &mut Vec<String>, label: String)
    requires
        labels_sorted(old(list).deep_view()),
        !old(list).deep_view().contains(label@),
    ensures
        labels_sorted(final(list).deep_view()),
        forall|a: Text| #[trigger] final(list).deep_view().contains(a)
            <==> old(list).deep_view().contains(a) || a == label@,
        final(list).deep_view().len() == old(list).deep_view().len() + 1,
{
    let ghost before = list.deep_view();
    let ghost value = label@;
    let mut low: usize = 0;
    let mut high: usize = list.len();
    while low < high
        invariant
            low <= high <= list@.len(),
            before == list.deep_view(),
            value == label@,
            labels_sorted(before),
            !before.contains(value),
            forall|k: int| 0 <= k < low ==> text_less(#[trigger] before[k], value),
            forall|k: int| high <= k < before.len() ==> text_less(value, #[trigger] before[k]),
        decreases high - low,
    {
        let mid: usize = low + (high - low) / 2;
        assert(before[mid as int] == list@[mid as int]@);
        if less(list[mid].as_str(), label.as_str()) {
            assert forall|k: int| 0 <= k < mid + 1 implies text_less(
                #[trigger] before[k],
                value,
            ) by {
                if k < mid {
                    text_less_transitive(before[k], before[mid as int], value);
                }
            }
            low = mid + 1;
        } else {
            assert(before.contains(before[mid as int]));
            proof {
                text_less_total(before[mid as int], value);
            }
            assert forall|k: int| mid <= k < before.len() implies text_less(
                value,
                #[trigger] before[k],
            ) by {
                if mid < k {
                    text_less_transitive(value, before[mid as int], before[k]);
                }
            }
            high = mid;
        }
    }
    list.insert(low, label);
    proof {
        let after = list.deep_view();
        assert(after =~= before.insert(low as int, value));
        assert forall|a: Text| #[trigger] after.contains(a) <==> before.contains(a) || a == value
            by {
            if before.contains(a) {
                let k = choose|k: int| 0 <= k < before.len() && before[k] == a;
                assert(after[if k < low { k } else { k + 1 }] == a);
            }
            assert(after[low as int] == value);
            if after.contains(a) && a != value {
                let k = choose|k: int| 0 <= k < after.len() && after[k] == a;
                assert(before[if k < low { k } else { k - 1 }] == a);
            }
        }
        assert forall|i: int, j: int| 0 <= i < j < after.len() implies text_less(
            #[trigger] after[i],
            #[trigger] after[j],
        ) by {
            if i != low && j != low {
                assert(
                    text_less(
                        before[if i < low { i } else { i - 1 }],
                        before[if j < low { j } else { j - 1 }],
                    )
                );
            }
        }
    }
}

/// The labels of a body in ascending order.
pub fn sorted_labels(body: &CodeBlock) -> (r: Vec<String>)
    ensures
        labels_sorted(r.deep_view()),
        forall|a: Text| #[trigger] body.deep_view().basic_blocks.dom().contains(a)
            <==> r.deep_view().contains(a),
{
    let blocks = &body.basic_blocks;
    blocks.check();
    let n: usize = blocks.len();
    let ghost keys = blocks.keys();
    let mut r: Vec<String> = Vec::new();
    for i in 0..n
        invariant
            n == keys.len(),
            keys == blocks.keys(),
            blocks.consistent(),
            labels_sorted(r.deep_view()),
            forall|a: Text| #[trigger] r.deep_view().contains(a)
                <==> keys.take(i as int).contains(a),
    {
        let ghost key = keys[i as int];
        let ghost keys0 = keys.take(i as int);
        let ghost keys1 = keys.take(i + 1);
        proof {
            assert(!keys0.contains(key)) by {
                if keys0.contains(key) {
                    let j = choose|j: int| 0 <= j < keys0.len() && keys0[j] == key;
                    assert(keys[j] == key);
                }
            }
            assert forall|a: Text| #[trigger] keys1.contains(a) <==> keys0.contains(a) || a == key
                by {
                if keys0.contains(a) {
                    let j = choose|j: int| 0 <= j < keys0.len() && keys0[j] == a;
                    assert(keys1[j] == a);
                }
                assert(keys1[i as int] == key);
                if keys1.contains(a) && a != key {
                    let j = choose|j: int| 0 <= j < keys1.len() && keys1[j] == a;
                    assert(keys0[j] == a);
                }
            }
        }
        insert_label(&mut r, blocks.key_at(i).clone());
    }
    proof {
        assert(keys.take(n as int) =~= keys);
        assert forall|a: Text| #[trigger] body.deep_view().basic_blocks.dom().contains(a)
            <==> r.deep_view().contains(a) by {
            assert(blocks.map().dom().contains(a) <==> keys.contains(a));
        }
    }
    r
}

/// Labels in ascending order are distinct.
pub proof fn lemma_sorted_distinct(labels: Seq<Text>)
    requires
        labels_sorted(labels),
    ensures
        labels.no_duplicates(),
{
    assert forall|i: int, j: int| 0 <= i < labels.len() && 0 <= j < labels.len() && i != j
        implies labels[i] != labels[j] by {
        if labels[i] == labels[j] {
            text_less_irreflexive(labels[i]);
            if i < j {
                assert(text_less(labels[i], labels[j]));
            } else {
                assert(text_less(labels[j], labels[i]));
            }
        }
    }
}

/// The number of each label.
fn numbers_of(labels: &Vec<String>) -> (r: NameMap<usize>)
    requires
        labels_sorted(labels.deep_view()),
    ensures
        forall|a: Text| #[trigger] r.map().dom().contains(a) <==> labels.deep_view().contains(a),
        forall|a: Text| #[trigger] r.map().dom().contains(a) ==> r.map()[a] < labels@.len()
            && labels.deep_view()[r.map()[a] as int] == a,
{
    let ghost all = labels.deep_view();
    let mut r: NameMap<usize> = NameMap::new();
    for i in 0..labels.len()
        invariant
            all == labels.deep_view(),
            forall|a: Text| #[trigger] r.map().dom().contains(a)
                <==> all.take(i as int).contains(a),
            forall|a: Text| #[trigger] r.map().dom().contains(a) ==> r.map()[a] < i
                && all[r.map()[a] as int] == a,
    {
        let ghost m0 = r.map();
        r.insert(labels[i].clone(), i);
        proof {
            let key = all[i as int];
            let now = all.take(i + 1);
            let was = all.take(i as int);
            assert(r.map() == m0.insert(key, i));
            assert forall|a: Text| #[trigger] r.map().dom().contains(a) <==> now.contains(a) by {
                assert(m0.dom().contains(a) <==> was.contains(a));
                if was.contains(a) {
                    let j = choose|j: int| 0 <= j < was.len() && was[j] == a;
                    assert(now[j] == a);
                }
                assert(now[i as int] == key);
                if now.contains(a) && a != key {
                    let j = choose|j: int| 0 <= j < now.len() && now[j] == a;
                    assert(was[j] == a);
                }
            }
        }
    }
    assert(all.take(all.len() as int) =~= all);
    r
}

/// The graph of the blocks numbered in the order of their labels.
fn graph_of(
    body: &CodeBlock,
    successors: &NameMap<Vec<String>>,
    labels: &Vec<String>,
    numbers: &NameMap<usize>,
) -> (adj: Vec<Vec<usize>>)
    requires
        closed_body(body.deep_view()),
        successors.deep_view() == successor_model(body.deep_view()),
        labels_sorted(labels.deep_view()),
        forall|a: Text| #[trigger] body.deep_view().basic_blocks.dom().contains(a)
            <==> labels.deep_view().contains(a),
        forall|a: Text| #[trigger] numbers.map().dom().contains(a)
            <==> labels.deep_view().contains(a),
        forall|a: Text| #[trigger] numbers.map().dom().contains(a)
            ==> numbers.map()[a] < labels@.len()
            && labels.deep_view()[numbers.map()[a] as int] == a,
    ensures
        numbered(body.deep_view(), labels.deep_view(), adj@),
        closed_graph(adj@),
{
    let ghost model = body.deep_view();
    let ghost all = labels.deep_view();
    let n: usize = labels.len();
    proof {
        lemma_sorted_distinct(all);
    }
    let mut adj: Vec<Vec<usize>> = Vec::new();
    let mut u: usize = 0;
    while u < n
        invariant
            n == labels@.len(),
            model == body.deep_view(),
            all == labels.deep_view(),
            all.no_duplicates(),
            closed_body(model),
            successors.deep_view() == successor_model(model),
            forall|a: Text| #[trigger] model.basic_blocks.dom().contains(a) <==> all.contains(a),
            forall|a: Text| #[trigger] numbers.map().dom().contains(a) <==> all.contains(a),
            forall|a: Text| #[trigger] numbers.map().dom().contains(a) ==> numbers.map()[a] < n
                && all[numbers.map()[a] as int] == a,
            u <= n,
            adj@.len() == u,
            forall|k: int| 0 <= k < u ==> ascending((#[trigger] adj@[k])@),
            forall|k: usize, v: usize| #[trigger] edge(adj@, k, v) <==> k < u && v < n
                && label_edge(model, all[k as int], all[v as int]),
        decreases n - u,
    {
        let ghost label = all[u as int];
        assert(all.contains(label));
        assert(model.basic_blocks.dom().contains(label));
        let ghost out = successors_of(model.basic_blocks[label].instructions);
        assert(successors.deep_view().dom().contains(label));
        assert(successors.map().dom().contains(label));
        let targets: &Vec<String> = successors.get(labels[u].as_str()).unwrap();
        assert(targets.deep_view() == successors.deep_view()[label]);
        assert(targets.deep_view() == out);
        let mut mark: Vec<bool> = Vec::new();
        for i in 0..n
            invariant
                mark@.len() == i,
                forall|k: int| 0 <= k < i ==> !mark@[k],
        {
            mark.push(false);
        }
        for t in 0..targets.len()
            invariant
                n == labels@.len(),
                all == labels.deep_view(),
                all.no_duplicates(),
                closed_body(model),
                model.basic_blocks.dom().contains(label),
                out == successors_of(model.basic_blocks[label].instructions),
                targets.deep_view() == out,
                forall|a: Text| #[trigger] model.basic_blocks.dom().contains(a)
                    <==> all.contains(a),
                forall|a: Text| #[trigger] numbers.map().dom().contains(a) <==> all.contains(a),
                forall|a: Text| #[trigger] numbers.map().dom().contains(a) ==> numbers.map()[a] < n
                    && all[numbers.map()[a] as int] == a,
                mark@.len() == n,
                forall|v: int| 0 <= v < n ==> (
                    #[trigger] mark@[v] <==> out.take(t as int).contains(all[v])
                ),
        {
            assert(out[t as int] == targets@[t as int]@);
            assert(out.contains(out[t as int]));
            assert(model.basic_blocks.dom().contains(out[t as int]));
            assert(numbers.map().dom().contains(out[t as int]));
            let v: usize = *numbers.get(targets[t].as_str()).unwrap();
            let ghost mark0 = mark@;
            mark.set(v, true);
            assert forall|w: int| 0 <= w < n implies (
                #[trigger] mark@[w] <==> out.take(t + 1).contains(all[w])
            ) by {
                let now = out.take(t + 1);
                let was = out.take(t as int);
                assert(now.contains(all[w]) <==> was.contains(all[w]) || all[w] == out[t as int])
                    by {
                    if was.contains(all[w]) {
                        let j = choose|j: int| 0 <= j < was.len() && was[j] == all[w];
                        assert(now[j] == all[w]);
                    }
                    assert(now[t as int] == out[t as int]);
                    if now.contains(all[w]) && all[w] != out[t as int] {
                        let j = choose|j: int| 0 <= j < now.len() && now[j] == all[w];
                        assert(was[j] == all[w]);
                    }
                }
                assert(mark0[w] <==> was.contains(all[w]));
                assert(all[w] == all[v as int] ==> w == v);
            }
        }
        assert(out.take(out.len() as int) =~= out);
        let row = marked(&mark);
        let ghost adj0 = adj@;
        adj.push(row);
        assert forall|k: usize, v: usize| #[trigger] edge(adj@, k, v) <==> k < u + 1 && v < n
            && label_edge(model, all[k as int], all[v as int]) by {
            if k < u {
                assert(adj@[k as int] == adj0[k as int]);
                assert(edge(adj@, k, v) <==> edge(adj0, k, v));
            } else if k == u {
                assert(adj@[k as int]@ == row@);
                assert(edge(adj@, k, v) <==> row@.contains(v));
            }
        }
        u = u + 1;
    }
    adj
}

/// Control flows from one block to another exactly when its number reaches the other's.
proof fn lemma_reach(
    body: CodeBlockModel,
    labels: Seq<Text>,
    adj: Seq<Vec<usize>>,
    u: usize,
    v: usize,
)
    requires
        closed_body(body),
        numbered(body, labels, adj),
        labels.len() <= usize::MAX,
        u < labels.len(),
        v < labels.len(),
    ensures
        reach(adj, u, v) <==> label_reach(body, labels[u as int], labels[v as int]),
{
    lemma_sorted_distinct(labels);
    if reach(adj, u, v) {
        let p = choose|p: Seq<usize>| #[trigger] leads(adj, p, u, v);
        let q = p.map_values(|x: usize| labels[x as int]);
        assert forall|i: int| 0 <= i < q.len() - 1 implies #[trigger] label_step(body, q, i) by {
            assert(step(adj, p, i));
            assert(edge(adj, p[i], p[i + 1]));
        }
        assert(label_leads(body, q, labels[u as int], labels[v as int]));
    }
    if label_reach(body, labels[u as int], labels[v as int]) {
        let q = choose|q: Seq<Text>| #[trigger] label_leads(
            body,
            q,
            labels[u as int],
            labels[v as int],
        );
        let p = q.map_values(|a: Text| labels.index_of(a) as usize);
        assert forall|i: int| 0 <= i < q.len() implies labels.contains(#[trigger] q[i]) by {
            lemma_path_stays(body, labels, q, i);
        }
        assert forall|i: int| 0 <= i < p.len() implies (#[trigger] p[i]) < labels.len()
            && labels[p[i] as int] == q[i] by {
            assert(labels.contains(q[i]));
        }
        assert forall|i: int| 0 <= i < p.len() - 1 implies #[trigger] step(adj, p, i) by {
            assert(label_step(body, q, i));
            assert(p[i] < labels.len() && p[i + 1] < labels.len());
            assert(edge(adj, p[i], p[i + 1]));
        }
        assert(labels.contains(q[0]) && labels.contains(q.last()));
        assert(p[0] == u && p.last() == v);
        assert(leads(adj, p, u, v));
    }
}

proof fn lemma_path_stays(body: CodeBlockModel, labels: Seq<Text>, q: Seq<Text>, i: int)
    requires
        closed_body(body),
        forall|a: Text| #[trigger] body.basic_blocks.dom().contains(a) <==> labels.contains(a),
        label_path(body, q),
        labels.contains(q[0]),
        0 <= i < q.len(),
    ensures
        labels.contains(q[i]),
    decreases i,
{
    if i > 0 {
        lemma_path_stays(body, labels, q, i - 1);
        assert(label_step(body, q, i - 1));
        assert(successors_of(body.basic_blocks[q[i - 1]].instructions).contains(q[i]));
    }
}

/// Components of the numbers are components of the labels.
proof fn lemma_labelled(
    body: CodeBlockModel,
    labels: Seq<Text>,
    adj: Seq<Vec<usize>>,
    c: Seq<Seq<usize>>,
)
    requires
        closed_body(body),
        numbered(body, labels, adj),
        labels.len() <= usize::MAX,
        is_components(adj, c),
        forward(adj, c),
    ensures
        in_topological_order(body, labelled(labels, c)),
{
    let d = labelled(labels, c);
    lemma_sorted_distinct(labels);
    assert forall|i: int| 0 <= i < d.len() implies (#[trigger] d[i]).len() > 0
        && labels_sorted(d[i]) by {
        assert(c[i].len() > 0 && ascending(c[i]));
        assert forall|a: int, b: int| 0 <= a < b < d[i].len() implies text_less(
            #[trigger] d[i][a],
            #[trigger] d[i][b],
        ) by {
            assert(c[i].contains(c[i][a]) && c[i].contains(c[i][b]));
            assert(c[i][a] < c[i][b]);
            assert(d[i][a] == labels[c[i][a] as int] && d[i][b] == labels[c[i][b] as int]);
        }
    }
    assert forall|i: int, a: Text| 0 <= i < d.len() && #[trigger] d[i].contains(a) implies {
        exists|u: usize| u < labels.len() && #[trigger] labels[u as int] == a && c[i].contains(u)
    } by {
        let k = choose|k: int| 0 <= k < d[i].len() && d[i][k] == a;
        assert(c[i].contains(c[i][k]));
        assert(labels[c[i][k] as int] == a);
    }
    assert forall|i: int, a: Text| 0 <= i < d.len() && #[trigger] d[i].contains(a)
        implies body.basic_blocks.dom().contains(a) by {
        let u = choose|u: usize| u < labels.len() && #[trigger] labels[u as int] == a
            && c[i].contains(u);
        assert(labels.contains(a));
    }
    assert forall|a: Text| #[trigger] body.basic_blocks.dom().contains(a)
        implies label_covered(d, a) by {
        assert(labels.contains(a));
        let u = choose|u: int| 0 <= u < labels.len() && labels[u] == a;
        assert(covered(c, u as usize));
        let i = choose|i: int| 0 <= i < c.len() && (#[trigger] c[i]).contains(u as usize);
        let k = choose|k: int| 0 <= k < c[i].len() && c[i][k] == u as usize;
        assert(d[i][k] == a);
        assert(d[i].contains(a));
    }
    assert forall|i: int, j: int, a: Text, b: Text|
        #![trigger d[i].contains(a), d[j].contains(b)]
        0 <= i < d.len() && 0 <= j < d.len() && d[i].contains(a) && d[j].contains(b) implies (
            i == j <==> label_mutual(body, a, b)
        ) && (label_edge(body, a, b) ==> i <= j) by {
        let u = choose|u: usize| u < labels.len() && #[trigger] labels[u as int] == a
            && c[i].contains(u);
        let v = choose|v: usize| v < labels.len() && #[trigger] labels[v as int] == b
            && c[j].contains(v);
        lemma_reach(body, labels, adj, u, v);
        lemma_reach(body, labels, adj, v, u);
        assert(i == j <==> mutual(adj, u, v));
        if label_edge(body, a, b) {
            assert(edge(adj, u, v));
        }
    }
}

/// The message about blocks that cannot be reached.
pub const UNREACHABLE_MESSAGE: &'static str = "large OOMIR function contains unreachable blocks after optimisation";

/// The strongly connected components of a body in topological order, or an error where the entry
/// does not reach every block.
pub fn topological_components(
    body: &CodeBlock,
    successors: &NameMap<Vec<String>>,
) -> (r: Result<Vec<Vec<String>>, Error>)
    requires
        closed_body(body.deep_view()),
        body.deep_view().basic_blocks.dom().contains(body.deep_view().entry),
        successors.deep_view() == successor_model(body.deep_view()),
    ensures
        r is Ok <==> all_reachable(body.deep_view()),
        r matches Ok(c) ==> in_topological_order(
            body.deep_view(),
            c.deep_view(),
        ) && component_schedule(
            body.deep_view(),
            c.deep_view(),
        ),
        r matches Err(e) ==> e.deep_view() == verification_failure(
            "control flow"@,
            UNREACHABLE_MESSAGE@,
        ),
{
    let ghost model = body.deep_view();
    let labels = sorted_labels(body);
    let ghost all = labels.deep_view();
    let numbers = numbers_of(&labels);
    let adj = graph_of(body, successors, &labels, &numbers);
    let count: usize = labels.len();
    assert(numbers.map().dom().contains(model.entry));
    let entry: usize = *numbers.get(body.entry.as_str()).unwrap();
    assert(all[entry as int] == model.entry);
    assert(all_reachable(model) <==> forall|x: usize| x < adj@.len()
        ==> #[trigger] reach(adj@, entry, x)) by {
        assert(all.len() == count);
        if all_reachable(model) {
            assert forall|x: usize| x < adj@.len() implies #[trigger] reach(adj@, entry, x) by {
                assert(all.contains(all[x as int]));
                assert(model.basic_blocks.dom().contains(all[x as int]));
                lemma_reach(model, all, adj@, entry, x);
            }
        }
        if forall|x: usize| x < adj@.len() ==> #[trigger] reach(adj@, entry, x) {
            assert forall|label: Text| #[trigger] model.basic_blocks.dom().contains(label)
                implies label_reach(model, model.entry, label) by {
                assert(all.contains(label));
                let x = choose|x: int| 0 <= x < all.len() && all[x] == label;
                lemma_reach(model, all, adj@, entry, x as usize);
                assert(reach(adj@, entry, x as usize));
            }
        }
    }
    match topological_order(&adj, entry) {
        None => Err(verification_error("control flow", UNREACHABLE_MESSAGE.to_string())),
        Some(order) => {
            let ghost ls = lists(order@);
            let ghost wanted = labelled(all, ls);
            let mut c: Vec<Vec<String>> = Vec::new();
            let mut i: usize = 0;
            while i < order.len()
                invariant
                    all == labels.deep_view(),
                    ls == lists(order@),
                    wanted == labelled(all, ls),
                    is_components(adj@, ls),
                    adj@.len() == all.len(),
                    i <= order@.len(),
                    c@.len() == i,
                    forall|k: int| 0 <= k < i ==> (#[trigger] c@[k]).deep_view() == wanted[k],
                decreases order@.len() - i,
            {
                let list = &order[i];
                assert(ls[i as int] == list@);
                let mut names: Vec<String> = Vec::new();
                for k in 0..list.len()
                    invariant
                        i < order@.len(),
                        *list == order@[i as int],
                        ls == lists(order@),
                        all == labels.deep_view(),
                        is_components(adj@, ls),
                        adj@.len() == all.len(),
                        names@.len() == k,
                        forall|j: int| 0 <= j < k ==> (
                            #[trigger] names@[j]
                        )@ == all[list@[j] as int],
                {
                    assert(ls[i as int].contains(list@[k as int]));
                    names.push(labels[list[k]].clone());
                }
                assert(names.deep_view() =~= wanted[i as int]);
                c.push(names);
                i = i + 1;
            }
            assert(c.deep_view() =~= wanted);
            proof {
                assert(all.len() == count);
                lemma_labelled(model, all, adj@, ls);
                assert(numbered(model, all, adj@) && scheduled(adj@, entry, ls));
            }
            Ok(c)
        },
    }
}

} // verus!
