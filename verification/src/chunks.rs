//! Cost of function bodies and the packing of their components into chunks.
use crate::components::{in_topological_order, label_covered, labels_sorted};
use crate::oomir::{BasicBlock, BasicBlockModel, CodeBlock, CodeBlockModel, Instruction,
    InstructionModel, Text};
use vstd::prelude::*;

verus! {

/// The greatest cost of a chunk that holds more than one component.
pub const MAX_CHUNK_COST: usize = 900;

/// Whether an instruction only carries information about the others.
pub open spec fn is_marker(instruction: InstructionModel) -> bool {
    instruction is SourceLocation || instruction is LocalVariableScope || instruction is UnwindStart
        || instruction is UnwindEnd
}

/// The number of instructions that are not markers.
pub open spec fn cost_of(instructions: Seq<InstructionModel>) -> nat
    decreases instructions.len(),
{
    if instructions.len() == 0 {
        0
    } else {
        cost_of(
            instructions.drop_last(),
        ) + (if is_marker(instructions.last()) { 0nat } else { 1nat })
    }
}

/// The number of instructions of a block that are not markers.
pub fn block_cost(block: &BasicBlock) -> (r: usize)
    ensures
        r == cost_of(block.deep_view().instructions),
{
    let ghost all = block.deep_view().instructions;
    let mut r: usize = 0;
    assert(all.take(0) =~= Seq::<InstructionModel>::empty());
    for i in 0..block.instructions.len()
        invariant
            all == block.deep_view().instructions,
            r <= i,
            r == cost_of(all.take(i as int)),
    {
        assert(all.take(i + 1).drop_last() =~= all.take(i as int));
        assert(all.take(i + 1).last() == block.instructions@[i as int].deep_view());
        match &block.instructions[i] {
            Instruction::SourceLocation(_) => {},
            Instruction::LocalVariableScope(_) => {},
            Instruction::UnwindStart { target: _ } => {},
            Instruction::UnwindEnd => {},
            _ => {
                r = r + 1;
            },
        }
    }
    assert(all.take(all.len() as int) =~= all);
    r
}

/// The cost of the blocks with the given labels.
pub open spec fn cost_over(blocks: Map<Text, BasicBlockModel>, labels: Seq<Text>) -> nat
    decreases labels.len(),
{
    if labels.len() == 0 {
        0
    } else {
        cost_over(blocks, labels.drop_last()) + cost_of(blocks[labels.last()].instructions)
    }
}

/// Whether a list names every block once.
pub open spec fn enumerates(blocks: Map<Text, BasicBlockModel>, labels: Seq<Text>) -> bool {
    labels.no_duplicates() && forall|a: Text| #[trigger] labels.contains(a)
        <==> blocks.dom().contains(a)
}

/// The cost of all blocks.
pub open spec fn total_cost(blocks: Map<Text, BasicBlockModel>) -> nat {
    cost_over(blocks, choose|labels: Seq<Text>| enumerates(blocks, labels))
}

pub proof fn lemma_cost_remove(blocks: Map<Text, BasicBlockModel>, labels: Seq<Text>, i: int)
    requires
        0 <= i < labels.len(),
    ensures
        cost_over(blocks, labels) == cost_over(
            blocks,
            labels.remove(i),
        ) + cost_of(blocks[labels[i]].instructions),
    decreases labels.len(),
{
    if i == labels.len() - 1 {
        assert(labels.remove(i) =~= labels.drop_last());
    } else {
        lemma_cost_remove(blocks, labels.drop_last(), i);
        assert(labels.remove(i).drop_last() =~= labels.drop_last().remove(i));
    }
}

proof fn lemma_cost_same(blocks: Map<Text, BasicBlockModel>, a: Seq<Text>, b: Seq<Text>)
    requires
        a.no_duplicates(),
        b.no_duplicates(),
        forall|x: Text| #[trigger] a.contains(x) <==> b.contains(x),
    ensures
        cost_over(blocks, a) == cost_over(blocks, b),
    decreases a.len(),
{
    if a.len() == 0 {
        if b.len() > 0 {
            assert(b.contains(b[0]));
            assert(a.contains(b[0]));
        }
    } else {
        let x = a.last();
        assert(a[a.len() - 1] == x);
        assert(a.contains(x));
        assert(b.contains(x));
        let i = choose|i: int| 0 <= i < b.len() && b[i] == x;
        let c = b.remove(i);
        let d = a.drop_last();
        assert forall|y: Text| #[trigger] d.contains(y) <==> c.contains(y) by {
            if d.contains(y) {
                let k = choose|k: int| 0 <= k < d.len() && d[k] == y;
                assert(a[k] == y);
                assert(a.contains(y));
                assert(b.contains(y));
                let j = choose|j: int| 0 <= j < b.len() && b[j] == y;
                assert(c[if j < i { j } else { j - 1 }] == y);
            }
            if c.contains(y) {
                let k = choose|k: int| 0 <= k < c.len() && c[k] == y;
                let j = if k < i { k } else { k + 1 };
                assert(b[j] == y);
                assert(a.contains(y));
                let m = choose|m: int| 0 <= m < a.len() && a[m] == y;
                assert(y != x);
                assert(d[m] == y);
            }
        }
        assert(c.no_duplicates());
        lemma_cost_same(blocks, d, c);
        lemma_cost_remove(blocks, b, i);
    }
}

/// The total cost is the cost over any list that names every block once.
pub proof fn total_cost_is_cost_over(blocks: Map<Text, BasicBlockModel>, labels: Seq<Text>)
    requires
        enumerates(blocks, labels),
    ensures
        total_cost(blocks) == cost_over(blocks, labels),
{
    let other = choose|labels: Seq<Text>| enumerates(blocks, labels);
    lemma_cost_same(blocks, other, labels);
}

proof fn lemma_cost_part(blocks: Map<Text, BasicBlockModel>, part: Seq<Text>, labels: Seq<Text>)
    requires
        part.no_duplicates(),
        labels.no_duplicates(),
        forall|x: Text| #[trigger] part.contains(x) ==> labels.contains(x),
    ensures
        cost_over(blocks, part) <= cost_over(blocks, labels),
    decreases part.len(),
{
    if part.len() > 0 {
        let x = part.last();
        assert(part[part.len() - 1] == x);
        assert(part.contains(x));
        assert(labels.contains(x));
        let i = choose|i: int| 0 <= i < labels.len() && labels[i] == x;
        lemma_cost_remove(blocks, labels, i);
        let rest = labels.remove(i);
        let front = part.drop_last();
        assert forall|y: Text| #[trigger] front.contains(y) implies rest.contains(y) by {
            let k = choose|k: int| 0 <= k < front.len() && front[k] == y;
            assert(part[k] == y);
            assert(part.contains(y));
            assert(labels.contains(y));
            let j = choose|j: int| 0 <= j < labels.len() && labels[j] == y;
            assert(rest[if j < i { j } else { j - 1 }] == y);
        }
        assert(rest.no_duplicates());
        lemma_cost_part(blocks, front, rest);
    }
}

/// The cost of all blocks of a body.
pub fn body_cost(body: &CodeBlock) -> (r: usize)
    requires
        total_cost(body.deep_view().basic_blocks) <= usize::MAX,
    ensures
        r == total_cost(body.deep_view().basic_blocks),
{
    let blocks = &body.basic_blocks;
    blocks.check();
    let n: usize = blocks.len();
    let ghost keys = blocks.keys();
    let ghost model = body.deep_view().basic_blocks;
    proof {
        assert forall|a: Text| #[trigger] keys.contains(a) <==> model.dom().contains(a) by {
            assert(blocks.map().dom().contains(a) <==> keys.contains(a));
        }
        total_cost_is_cost_over(model, keys);
        assert(keys.take(n as int) =~= keys);
    }
    let mut r: usize = 0;
    for i in 0..n
        invariant
            n == keys.len(),
            keys == blocks.keys(),
            *blocks == body.basic_blocks,
            blocks.consistent(),
            model == body.deep_view().basic_blocks,
            enumerates(model, keys),
            cost_over(model, keys) <= usize::MAX,
            r == cost_over(model, keys.take(i as int)),
    {
        let ghost now = keys.take(i + 1);
        assert(now.drop_last() =~= keys.take(i as int));
        assert(now.last() == keys[i as int]);
        assert(model[keys[i as int]] == blocks.values()[i as int].deep_view());
        proof {
            assert forall|x: Text| #[trigger] now.contains(x) implies keys.contains(x) by {
                let k = choose|k: int| 0 <= k < now.len() && now[k] == x;
                assert(keys[k] == x);
            }
            assert(now.no_duplicates());
            lemma_cost_part(model, now, keys);
        }
        r = r + block_cost(blocks.value_at(i));
    }
    r
}

/// The cost of each component.
pub open spec fn component_costs(blocks: Map<Text, BasicBlockModel>, c: Seq<Seq<Text>>)
    -> Seq<nat> {
    c.map_values(|labels: Seq<Text>| cost_over(blocks, labels))
}

/// The cost of each component.
pub fn costs_of(body: &CodeBlock, components: &Vec<Vec<String>>) -> (r: Vec<usize>)
    requires
        total_cost(body.deep_view().basic_blocks) <= usize::MAX,
        in_topological_order(body.deep_view(), components.deep_view()),
    ensures
        r@.map_values(|c: usize| c as nat) == component_costs(
            body.deep_view().basic_blocks,
            components.deep_view(),
        ),
{
    let blocks = &body.basic_blocks;
    blocks.check();
    let ghost keys = blocks.keys();
    let ghost model = body.deep_view().basic_blocks;
    let ghost c = components.deep_view();
    proof {
        assert forall|a: Text| #[trigger] keys.contains(a) <==> model.dom().contains(a) by {
            assert(blocks.map().dom().contains(a) <==> keys.contains(a));
        }
        total_cost_is_cost_over(model, keys);
    }
    let mut r: Vec<usize> = Vec::new();
    let mut i: usize = 0;
    while i < components.len()
        invariant
            i <= components@.len(),
            *blocks == body.basic_blocks,
            model == body.deep_view().basic_blocks,
            c == components.deep_view(),
            in_topological_order(body.deep_view(), c),
            enumerates(model, keys),
            cost_over(model, keys) <= usize::MAX,
            r@.len() == i,
            forall|k: int| 0 <= k < i ==> (#[trigger] r@[k]) as nat == cost_over(model, c[k]),
        decreases components@.len() - i,
    {
        let list = &components[i];
        let ghost labels = c[i as int];
        assert(labels == list.deep_view());
        assert(labels_sorted(labels));
        proof {
            crate::components::lemma_sorted_distinct(labels);
        }
        let mut cost: usize = 0;
        for k in 0..list.len()
            invariant
                i < c.len(),
                labels == c[i as int],
                labels == list.deep_view(),
                labels.no_duplicates(),
                *blocks == body.basic_blocks,
                model == body.deep_view().basic_blocks,
                in_topological_order(body.deep_view(), c),
                enumerates(model, keys),
                cost_over(model, keys) <= usize::MAX,
                cost == cost_over(model, labels.take(k as int)),
        {
            let ghost now = labels.take(k + 1);
            let ghost label = labels[k as int];
            assert(label == list@[k as int]@);
            assert(now.drop_last() =~= labels.take(k as int));
            assert(now.last() == label);
            assert(c[i as int].contains(label));
            assert(model.dom().contains(label));
            assert(blocks.map().dom().contains(label));
            proof {
                assert forall|x: Text| #[trigger] now.contains(x) implies keys.contains(x) by {
                    let j = choose|j: int| 0 <= j < now.len() && now[j] == x;
                    assert(labels[j] == x);
                    assert(c[i as int].contains(x));
                }
                assert(now.no_duplicates());
                lemma_cost_part(model, now, keys);
            }
            let block: &BasicBlock = blocks.get(list[k].as_str()).unwrap();
            assert(block.deep_view() == model[label]);
            cost = cost + block_cost(block);
        }
        assert(labels.take(labels.len() as int) =~= labels);
        r.push(cost);
        i = i + 1;
    }
    assert(r@.map_values(|c: usize| c as nat) =~= component_costs(model, c));
    r
}

/// Groups that are closed, the group that is open, and its cost.
pub struct Packing {
    pub closed: Seq<Seq<usize>>,
    pub open: Seq<usize>,
    pub cost: nat,
}

/// The closed groups with the open one behind them, where it is not empty.
pub open spec fn all_groups(p: Packing) -> Seq<Seq<usize>> {
    if p.open.len() > 0 {
        p.closed.push(p.open)
    } else {
        p.closed
    }
}

/// The packing after one more component: one that is too large gets a group of its own; any other
/// joins the open group unless that would become too large, and opens a new one then.
pub open spec fn pack_one(p: Packing, component: usize, cost: nat) -> Packing {
    if cost > MAX_CHUNK_COST {
        Packing { closed: all_groups(p).push(seq![component]), open: Seq::empty(), cost: 0 }
    } else if p.open.len() > 0 && p.cost + cost > MAX_CHUNK_COST {
        Packing { closed: p.closed.push(p.open), open: seq![component], cost }
    } else {
        Packing { closed: p.closed, open: p.open.push(component), cost: p.cost + cost }
    }
}

/// The packing of all components in their order.
pub open spec fn packing(costs: Seq<nat>) -> Packing
    decreases costs.len(),
{
    if costs.len() == 0 {
        Packing { closed: Seq::empty(), open: Seq::empty(), cost: 0 }
    } else {
        pack_one(packing(costs.drop_last()), (costs.len() - 1) as usize, costs.last())
    }
}

/// The groups of components that become the chunks.
pub open spec fn groups(costs: Seq<nat>) -> Seq<Seq<usize>> {
    all_groups(packing(costs))
}

proof fn lemma_open_cost(costs: Seq<nat>)
    ensures
        packing(costs).cost <= MAX_CHUNK_COST,
        packing(costs).open.len() == 0 ==> packing(costs).cost == 0,
    decreases costs.len(),
{
    if costs.len() > 0 {
        lemma_open_cost(costs.drop_last());
    }
}

/// Packs components into groups.
pub fn pack_components(costs: &Vec<usize>) -> (r: Vec<Vec<usize>>)
    ensures
        crate::graph::lists(r@) == groups(costs@.map_values(|c: usize| c as nat)),
{
    let ghost cs = costs@.map_values(|c: usize| c as nat);
    let mut closed: Vec<Vec<usize>> = Vec::new();
    let mut open: Vec<usize> = Vec::new();
    let mut open_cost: usize = 0;
    assert(cs.take(0) =~= Seq::<nat>::empty());
    assert(crate::graph::lists(closed@) =~= Seq::<Seq<usize>>::empty());
    for i in 0..costs.len()
        invariant
            cs == costs@.map_values(|c: usize| c as nat),
            crate::graph::lists(closed@) == packing(cs.take(i as int)).closed,
            open@ == packing(cs.take(i as int)).open,
            open_cost == packing(cs.take(i as int)).cost,
    {
        let cost: usize = costs[i];
        let ghost now = cs.take(i + 1);
        let ghost before = packing(cs.take(i as int));
        proof {
            assert(now.drop_last() =~= cs.take(i as int));
            assert(now.last() == cost as nat);
            lemma_open_cost(cs.take(i as int));
        }
        if cost > MAX_CHUNK_COST {
            let ghost c0 = closed@;
            if open.len() > 0 {
                let mut full: Vec<usize> = Vec::new();
                std::mem::swap(&mut full, &mut open);
                closed.push(full);
                open_cost = 0;
                assert(crate::graph::lists(closed@) =~= crate::graph::lists(c0).push(before.open));
            }
            let ghost c1 = closed@;
            let mut single: Vec<usize> = Vec::new();
            single.push(i);
            closed.push(single);
            assert(single@ =~= seq![i]);
            assert(crate::graph::lists(closed@) =~= crate::graph::lists(c1).push(seq![i]));
            assert(open@ =~= Seq::<usize>::empty());
        } else {
            if open.len() > 0 && open_cost + cost > MAX_CHUNK_COST {
                let ghost c0 = closed@;
                let mut full: Vec<usize> = Vec::new();
                std::mem::swap(&mut full, &mut open);
                closed.push(full);
                open_cost = 0;
                assert(crate::graph::lists(closed@) =~= crate::graph::lists(c0).push(before.open));
            }
            let ghost o0 = open@;
            open.push(i);
            open_cost = open_cost + cost;
            assert(o0.len() == 0 ==> open@ =~= seq![i]);
        }
    }
    assert(cs.take(cs.len() as int) =~= cs);
    if open.len() > 0 {
        let ghost c0 = closed@;
        closed.push(open);
        assert(crate::graph::lists(closed@) =~= crate::graph::lists(c0).push(packing(cs).open));
    }
    closed
}

/// The numbers below `n` in ascending order.
pub open spec fn below(n: nat) -> Seq<usize> {
    Seq::new(n, |i: int| i as usize)
}

/// Packing keeps the components in their order: the groups one behind the other name each
/// component once.
pub proof fn packing_keeps_the_order(costs: Seq<nat>)
    requires
        costs.len() <= usize::MAX,
    ensures
        groups(costs).flatten_alt() == below(costs.len()),
{
    lemma_packing_order(costs);
    let p = packing(costs);
    if p.open.len() > 0 {
        assert(p.closed.push(p.open).drop_last() =~= p.closed);
    } else {
        assert(p.closed.flatten_alt() + p.open =~= p.closed.flatten_alt());
    }
}

proof fn lemma_packing_order(costs: Seq<nat>)
    requires
        costs.len() <= usize::MAX,
    ensures
        packing(costs).closed.flatten_alt() + packing(costs).open == below(costs.len()),
    decreases costs.len(),
{
    if costs.len() == 0 {
        assert(packing(costs).closed.flatten_alt() + packing(costs).open =~= below(0));
    } else {
        let before = packing(costs.drop_last());
        let component = (costs.len() - 1) as usize;
        lemma_packing_order(costs.drop_last());
        assert(below(costs.len()) =~= below((costs.len() - 1) as nat).push(component));
        let now = packing(costs);
        if costs.last() > MAX_CHUNK_COST {
            let all = all_groups(before);
            if before.open.len() > 0 {
                assert(all.drop_last() =~= before.closed);
            } else {
                assert(before.closed.flatten_alt() + before.open =~= before.closed.flatten_alt());
            }
            assert(now.closed.drop_last() =~= all);
            assert(now.closed.last() == seq![component]);
            assert(now.closed.flatten_alt() == all.flatten_alt() + seq![component]);
            assert(all.flatten_alt() == below((costs.len() - 1) as nat));
            assert(now.closed.flatten_alt() + now.open =~= below(costs.len()));
        } else if before.open.len() > 0 && before.cost + costs.last() > MAX_CHUNK_COST {
            assert(now.closed.drop_last() =~= before.closed);
            assert(now.closed.flatten_alt() == before.closed.flatten_alt() + before.open);
            assert(now.closed.flatten_alt() + now.open =~= below(costs.len()));
        } else {
            assert(
                now.closed.flatten_alt() + now.open =~= (
                    before.closed.flatten_alt() + before.open
                ).push(component)
            );
            assert(now.closed.flatten_alt() + now.open =~= below(costs.len()));
        }
    }
}

/// The cost of the components of a group.
pub open spec fn group_cost(costs: Seq<nat>, group: Seq<usize>) -> nat
    decreases group.len(),
{
    if group.len() == 0 {
        0
    } else {
        group_cost(costs, group.drop_last()) + costs[group.last() as int]
    }
}

/// Whether a group is one component alone or keeps the limit.
pub open spec fn keeps_limit(costs: Seq<nat>, group: Seq<usize>) -> bool {
    group.len() > 0 && (group.len() == 1 || group_cost(costs, group) <= MAX_CHUNK_COST)
}

/// No group is empty, and each is one component alone or costs no more than the limit.
pub proof fn packing_keeps_the_limit(costs: Seq<nat>)
    requires
        costs.len() <= usize::MAX,
    ensures
        forall|g: int| 0 <= g < groups(costs).len() ==> keeps_limit(
            costs,
            #[trigger] groups(costs)[g],
        ),
{
    lemma_packing_limit(costs, costs.len());
    lemma_open_cost(costs);
    assert(costs.take(costs.len() as int) =~= costs);
}

proof fn lemma_packing_limit(costs: Seq<nat>, n: nat)
    requires
        n <= costs.len() <= usize::MAX,
    ensures
        ({
            let p = packing(costs.take(n as int));
            &&& forall|g: int| 0 <= g < p.closed.len() ==> keeps_limit(
                costs,
                #[trigger] p.closed[g],
            )
            &&& p.open.len() > 0 ==> group_cost(costs, p.open) == p.cost
        }),
    decreases n,
{
    if n > 0 {
        let front = costs.take(n - 1);
        let now = costs.take(n as int);
        lemma_packing_limit(costs, (n - 1) as nat);
        lemma_open_cost(front);
        assert(now.drop_last() =~= front);
        assert(now.last() == costs[n - 1]);
        let before = packing(front);
        let component = (n - 1) as usize;
        reveal_with_fuel(group_cost, 2);
        assert(seq![component].drop_last() =~= Seq::<usize>::empty());
        assert(group_cost(costs, seq![component]) == costs[n - 1]);
        assert(before.open.push(component).drop_last() =~= before.open);
        if before.open.len() == 0 {
            assert(before.open.push(component) =~= seq![component]);
        }
        assert(before.open.len() > 0 ==> keeps_limit(costs, before.open));
    }
}

/// The labels of a group of components, one component behind the other.
pub open spec fn group_labels(c: Seq<Seq<Text>>, group: Seq<usize>) -> Seq<Text>
    decreases group.len(),
{
    if group.len() == 0 {
        Seq::empty()
    } else {
        group_labels(c, group.drop_last()) + c[group.last() as int]
    }
}

/// The labels of each chunk.
pub open spec fn chunk_labels(c: Seq<Seq<Text>>, gs: Seq<Seq<usize>>) -> Seq<Seq<Text>> {
    gs.map_values(|group: Seq<usize>| group_labels(c, group))
}

pub proof fn lemma_group_labels(c: Seq<Seq<Text>>, group: Seq<usize>, a: Text)
    ensures
        group_labels(c, group).contains(a) <==> exists|k: int| 0 <= k < group.len()
            && c[#[trigger] group[k] as int].contains(a),
    decreases group.len(),
{
    if group.len() > 0 {
        lemma_group_labels(c, group.drop_last(), a);
        let x = group_labels(c, group.drop_last());
        let y = c[group.last() as int];
        if x.contains(a) {
            let k = choose|k: int| 0 <= k < x.len() && x[k] == a;
            assert((x + y)[k] == a);
            let m = choose|k: int| 0 <= k < group.drop_last().len()
                && c[#[trigger] group.drop_last()[k] as int].contains(a);
            assert(group[m] == group.drop_last()[m]);
        }
        if y.contains(a) {
            let k = choose|k: int| 0 <= k < y.len() && y[k] == a;
            assert((x + y)[x.len() + k] == a);
            assert(c[group[group.len() - 1] as int].contains(a));
        }
        if (x + y).contains(a) && !x.contains(a) {
            let k = choose|k: int| 0 <= k < (x + y).len() && (x + y)[k] == a;
            if k < x.len() {
                assert(x[k] == a);
            }
            assert(y[k - x.len()] == a);
        }
        if exists|k: int| 0 <= k < group.len() && c[#[trigger] group[k] as int].contains(a) {
            let k = choose|k: int| 0 <= k < group.len()
                && c[#[trigger] group[k] as int].contains(a);
            if k < group.len() - 1 {
                assert(group.drop_last()[k] == group[k]);
            }
        }
    }
}

proof fn lemma_flatten_position(gs: Seq<Seq<usize>>, g: int, k: int) -> (p: int)
    requires
        0 <= g < gs.len(),
        0 <= k < gs[g].len(),
    ensures
        0 <= p < gs.flatten_alt().len(),
        gs.flatten_alt()[p] == gs[g][k],
        p == gs.take(g).flatten_alt().len() + k,
    decreases gs.len(),
{
    let front = gs.drop_last();
    if g == gs.len() - 1 {
        assert(gs.take(g) =~= front);
        (front.flatten_alt().len() + k) as int
    } else {
        let p = lemma_flatten_position(front, g, k);
        assert(front.take(g) =~= gs.take(g));
        p
    }
}

proof fn lemma_flatten_member(gs: Seq<Seq<usize>>, p: int) -> (r: (int, int))
    requires
        0 <= p < gs.flatten_alt().len(),
    ensures
        0 <= r.0 < gs.len(),
        0 <= r.1 < gs[r.0].len(),
        gs[r.0][r.1] == gs.flatten_alt()[p],
    decreases gs.len(),
{
    let front = gs.drop_last();
    if p < front.flatten_alt().len() {
        let r = lemma_flatten_member(front, p);
        assert(front[r.0] == gs[r.0]);
        r
    } else {
        (gs.len() - 1, p - front.flatten_alt().len())
    }
}

proof fn lemma_flatten_prefix(gs: Seq<Seq<usize>>, g: int, h: int)
    requires
        0 <= g < h <= gs.len(),
    ensures
        gs.take(g).flatten_alt().len() + gs[g].len() <= gs.take(h).flatten_alt().len(),
    decreases h,
{
    assert(gs.take(h).drop_last() =~= gs.take(h - 1));
    assert(gs.take(h).last() == gs[h - 1]);
    if h - 1 > g {
        lemma_flatten_prefix(gs, g, h - 1);
    }
}

/// Groups only name components.
pub proof fn groups_name_components(costs: Seq<nat>, g: int, k: int)
    requires
        costs.len() <= usize::MAX,
        0 <= g < groups(costs).len(),
        0 <= k < groups(costs)[g].len(),
    ensures
        groups(costs)[g][k] < costs.len(),
{
    packing_keeps_the_order(costs);
    let p = lemma_flatten_position(groups(costs), g, k);
    assert(groups(costs).flatten_alt()[p] == below(costs.len())[p]);
}

proof fn lemma_cost_concat(blocks: Map<Text, BasicBlockModel>, a: Seq<Text>, b: Seq<Text>)
    ensures
        cost_over(blocks, a + b) == cost_over(blocks, a) + cost_over(blocks, b),
    decreases b.len(),
{
    if b.len() == 0 {
        assert(a + b =~= a);
    } else {
        lemma_cost_concat(blocks, a, b.drop_last());
        assert((a + b).drop_last() =~= a + b.drop_last());
        assert((a + b).last() == b.last());
    }
}

/// The cost of a chunk's labels is that of its group.
pub proof fn chunk_cost_is_group_cost(blocks: Map<Text, BasicBlockModel>, c: Seq<Seq<Text>>,
    group: Seq<usize>)
    requires
        forall|k: int| 0 <= k < group.len() ==> (#[trigger] group[k]) < c.len(),
    ensures
        cost_over(blocks, group_labels(c, group)) == group_cost(component_costs(blocks, c), group),
    decreases group.len(),
{
    if group.len() > 0 {
        let front = group.drop_last();
        assert forall|k: int| 0 <= k < front.len() implies (#[trigger] front[k]) < c.len() by {
            assert(front[k] == group[k]);
        }
        chunk_cost_is_group_cost(blocks, c, front);
        lemma_cost_concat(blocks, group_labels(c, front), c[group.last() as int]);
        assert(group[group.len() - 1] < c.len());
    }
}

/// A chunk is a single component or costs no more than the limit.
pub proof fn chunks_keep_the_limit(blocks: Map<Text, BasicBlockModel>, c: Seq<Seq<Text>>, g: int)
    requires
        c.len() <= usize::MAX,
        0 <= g < groups(component_costs(blocks, c)).len(),
    ensures
        ({
            let gs = groups(component_costs(blocks, c));
            gs[g].len() == 1 || cost_over(blocks, chunk_labels(c, gs)[g]) <= MAX_CHUNK_COST
        }),
{
    let costs = component_costs(blocks, c);
    packing_keeps_the_limit(costs);
    let group = groups(costs)[g];
    assert(keeps_limit(costs, group));
    assert forall|k: int| 0 <= k < group.len() implies (#[trigger] group[k]) < c.len() by {
        groups_name_components(costs, g, k);
    }
    chunk_cost_is_group_cost(blocks, c, group);
}

/// Whether each label of a body stands in exactly one chunk, no chunk is empty, and transfers
/// between chunks only lead forwards.
pub open spec fn is_partition(body: CodeBlockModel, chunks: Seq<Seq<Text>>) -> bool {
    &&& forall|g: int| 0 <= g < chunks.len() ==> (#[trigger] chunks[g]).len() > 0
    &&& forall|g: int, a: Text| 0 <= g < chunks.len() && #[trigger] chunks[g].contains(a)
        ==> body.basic_blocks.dom().contains(a)
    &&& forall|a: Text| #[trigger] body.basic_blocks.dom().contains(a) ==> label_covered(chunks, a)
    &&& forall|g: int, h: int, a: Text|
        #![trigger chunks[g].contains(a), chunks[h].contains(a)]
        0 <= g < chunks.len() && 0 <= h < chunks.len() && chunks[g].contains(a)
            && chunks[h].contains(a) ==> g == h
    &&& forall|g: int, h: int, a: Text, b: Text|
        #![trigger chunks[g].contains(a), chunks[h].contains(b)]
        0 <= g < chunks.len() && 0 <= h < chunks.len() && chunks[g].contains(a)
            && chunks[h].contains(b)
            && crate::components::label_edge(body, a, b) ==> g <= h
}

/// The chunks of a body are a partition of its blocks, and control flows only forwards between
/// them.
pub proof fn chunks_are_a_partition(body: CodeBlockModel, c: Seq<Seq<Text>>)
    requires
        in_topological_order(body, c),
        c.len() <= usize::MAX,
    ensures
        is_partition(body, chunk_labels(c, groups(component_costs(body.basic_blocks, c)))),
{
    let costs = component_costs(body.basic_blocks, c);
    let gs = groups(costs);
    let chunks = chunk_labels(c, gs);
    packing_keeps_the_order(costs);
    packing_keeps_the_limit(costs);
    let flat = gs.flatten_alt();
    assert forall|g: int, a: Text| 0 <= g < chunks.len() && #[trigger] chunks[g].contains(a)
        implies exists|k: int| 0 <= k < gs[g].len() && (#[trigger] gs[g][k]) < c.len()
        && c[gs[g][k] as int].contains(a) by {
        lemma_group_labels(c, gs[g], a);
        let k = choose|k: int| 0 <= k < gs[g].len() && c[#[trigger] gs[g][k] as int].contains(a);
        let p = lemma_flatten_position(gs, g, k);
        assert(flat[p] == below(costs.len())[p]);
    }
    assert forall|g: int| 0 <= g < chunks.len() implies (#[trigger] chunks[g]).len() > 0 by {
        assert(keeps_limit(costs, gs[g]));
        let i = gs[g].last();
        let p = lemma_flatten_position(gs, g, gs[g].len() - 1);
        assert(flat[p] == below(costs.len())[p]);
        assert(c[i as int].len() > 0);
    }
    assert forall|g: int, a: Text| 0 <= g < chunks.len() && #[trigger] chunks[g].contains(a)
        implies body.basic_blocks.dom().contains(a) by {
        let k = choose|k: int| 0 <= k < gs[g].len() && (#[trigger] gs[g][k]) < c.len()
            && c[gs[g][k] as int].contains(a);
    }
    assert forall|a: Text| #[trigger] body.basic_blocks.dom().contains(a)
        implies label_covered(chunks, a) by {
        assert(label_covered(c, a));
        let i = choose|i: int| 0 <= i < c.len() && (#[trigger] c[i]).contains(a);
        assert(below(costs.len())[i] == i as usize);
        let (g, k) = lemma_flatten_member(gs, i);
        assert(gs[g][k] == i as usize);
        lemma_group_labels(c, gs[g], a);
        assert(c[gs[g][k] as int].contains(a));
        assert(chunks[g].contains(a));
    }
    assert forall|g: int, h: int, a: Text, b: Text|
        #![trigger chunks[g].contains(a), chunks[h].contains(b)]
        0 <= g < chunks.len() && 0 <= h < chunks.len() && chunks[g].contains(a)
            && chunks[h].contains(b) implies (a == b ==> g == h)
            && (crate::components::label_edge(body, a, b) ==> g <= h) by {
        let k = choose|k: int| 0 <= k < gs[g].len() && (#[trigger] gs[g][k]) < c.len()
            && c[gs[g][k] as int].contains(a);
        let m = choose|m: int| 0 <= m < gs[h].len() && (#[trigger] gs[h][m]) < c.len()
            && c[gs[h][m] as int].contains(b);
        let p = lemma_flatten_position(gs, g, k);
        let q = lemma_flatten_position(gs, h, m);
        assert(flat[p] == below(costs.len())[p] && flat[q] == below(costs.len())[q]);
        let i = gs[g][k] as int;
        let j = gs[h][m] as int;
        assert(p == i && q == j);
        if g < h {
            lemma_flatten_prefix(gs, g, h);
        }
        if h < g {
            lemma_flatten_prefix(gs, h, g);
        }
        if a == b {
            assert(c[i].contains(a) && c[j].contains(a));
            let self_path = seq![a];
            assert(crate::components::label_leads(body, self_path, a, a));
            assert(crate::components::label_mutual(body, a, a));
            assert(i == j);
        }
        if crate::components::label_edge(body, a, b) {
            assert(c[i].contains(a) && c[j].contains(b));
            assert(i <= j);
        }
    }
}

} // verus!
