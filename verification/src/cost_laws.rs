//! What makes a function too large, and how its parts are filled.
use crate::chunks::{
    all_groups, chunk_cost_is_group_cost, chunk_labels, component_costs, cost_of, cost_over,
    enumerates, group_cost, group_labels, groups, groups_name_components, keeps_limit, packing,
    packing_keeps_the_limit, packing_keeps_the_order, total_cost, total_cost_is_cost_over,
};
use crate::components::{in_topological_order, label_covered, label_mutual};
use crate::oomir::{BasicBlockModel, FunctionModel, InstructionModel, Text};
use crate::outline::{NamingModel, is_outline, outlines};
use vstd::prelude::*;
use vstd::string::*;

verus! {

/// Whether an instruction becomes code of a method: all do but source locations, scopes of local
/// variables and the ends of protected ranges.
pub open spec fn becomes_code(instruction: InstructionModel) -> bool {
    match instruction {
        InstructionModel::SourceLocation(_) => false,
        InstructionModel::LocalVariableScope(_) => false,
        InstructionModel::UnwindStart { .. } => false,
        InstructionModel::UnwindEnd => false,
        _ => true,
    }
}

/// The instructions of a list of blocks that become code, counted.
pub open spec fn instruction_count(blocks: Map<Text, BasicBlockModel>, labels: Seq<Text>) -> nat
    decreases labels.len(),
{
    if labels.len() == 0 {
        0
    } else {
        instruction_count(blocks, labels.drop_last()) + blocks[labels.last()].instructions.filter(
            |i: InstructionModel| becomes_code(i),
        ).len()
    }
}

/// The cost of instructions is the number of those that become code, whatever they do.
pub proof fn cost_counts_the_instructions(instructions: Seq<InstructionModel>)
    ensures
        cost_of(instructions) == instructions.filter(|i: InstructionModel| becomes_code(i)).len(),
    decreases instructions.len(),
{
    reveal(Seq::filter);
    if instructions.len() > 0 {
        cost_counts_the_instructions(instructions.drop_last());
    }
}

/// The cost of a function is the number of its instructions that become code.
pub proof fn total_cost_counts_the_instructions(
    blocks: Map<Text, BasicBlockModel>,
    labels: Seq<Text>,
)
    requires
        enumerates(blocks, labels),
    ensures
        total_cost(blocks) == instruction_count(blocks, labels),
{
    total_cost_is_cost_over(blocks, labels);
    cost_over_counts(blocks, labels);
}

proof fn cost_over_counts(blocks: Map<Text, BasicBlockModel>, labels: Seq<Text>)
    ensures
        cost_over(blocks, labels) == instruction_count(blocks, labels),
    decreases labels.len(),
{
    if labels.len() > 0 {
        cost_over_counts(blocks, labels.drop_last());
        cost_counts_the_instructions(blocks[labels.last()].instructions);
    }
}

proof fn first_of_open(costs: Seq<nat>)
    requires
        costs.len() <= usize::MAX,
    ensures
        packing(costs).cost == group_cost(costs, packing(costs).open),
        forall|k: int|
            0 <= k < packing(costs).open.len() ==> #[trigger] packing(costs).open[k] < costs.len(),
        forall|g: int, k: int|
            #![trigger packing(costs).closed[g][k]]
            0 <= g < packing(costs).closed.len() && 0 <= k < packing(costs).closed[g].len()
                ==> packing(costs).closed[g][k] < costs.len(),
        forall|g: int|
            0 <= g < packing(costs).closed.len() ==> (#[trigger] packing(costs).closed[g]).len()
                > 0,
    decreases costs.len(),
{
    if costs.len() > 0 {
        let less = costs.drop_last();
        first_of_open(less);
        let before = packing(less);
        let now = packing(costs);
        costs_in_front(costs, before.open);
        let component = (costs.len() - 1) as usize;
        if costs.last() > 900 {
            assert(now.open.len() == 0);
        } else if before.open.len() > 0 && before.cost + costs.last() > 900 {
            assert(now.open.drop_last() =~= Seq::<usize>::empty());
            assert(group_cost(costs, Seq::<usize>::empty()) == 0);
        } else {
            assert(now.open.drop_last() =~= before.open);
        }
    }
}

proof fn costs_in_front(costs: Seq<nat>, group: Seq<usize>)
    requires
        costs.len() > 0,
        forall|k: int| 0 <= k < group.len() ==> #[trigger] group[k] < costs.len() - 1,
    ensures
        group_cost(costs.drop_last(), group) == group_cost(costs, group),
    decreases group.len(),
{
    if group.len() > 0 {
        let front = group.drop_last();
        assert forall|k: int| 0 <= k < front.len() implies #[trigger] front[k] < costs.len()
            - 1 by {
            assert(front[k] == group[k]);
        }
        costs_in_front(costs, front);
        assert(group[group.len() - 1] < costs.len() - 1);
    }
}

/// No part could take the first component of the next one as well: with it the part would count
/// more than 900 instructions.
pub proof fn parts_are_full(costs: Seq<nat>, g: int)
    requires
        costs.len() <= usize::MAX,
        0 <= g < groups(costs).len() - 1,
    ensures
        groups(costs)[g + 1].len() > 0,
        group_cost(costs, groups(costs)[g]) + costs[groups(costs)[g + 1][0] as int] > 900,
    decreases costs.len(),
{
    if costs.len() > 0 {
        let less = costs.drop_last();
        let before = packing(less);
        let now = packing(costs);
        let old = all_groups(before);
        let component = (costs.len() - 1) as usize;
        first_of_open(less);
        let all = groups(costs);
        if g < old.len() - 1 {
            parts_are_full(less, g);
            assert forall|h: int, k: int| 0 <= h < old.len() && 0 <= k < old[h].len() implies (
            #[trigger] old[h][k]) < less.len() by {}
            assert(all[g] == old[g]);
            costs_in_front(costs, old[g]);
            assert(all[g + 1][0] == old[g + 1][0]);
            assert(old[g + 1][0] < less.len());
        } else {
            assert(g == old.len() - 1);
            assert(all[g + 1] == seq![component]);
            assert(all[g] == old[g]);
            assert forall|k: int| 0 <= k < old[g].len() implies #[trigger] old[g][k] < costs.len()
                - 1 by {}
            costs_in_front(costs, old[g]);
        }
    }
}

proof fn one_group_holds_all(costs: Seq<nat>)
    requires
        costs.len() <= usize::MAX,
        groups(costs).len() == 1,
    ensures
        groups(costs)[0] == crate::chunks::below(costs.len()),
{
    packing_keeps_the_order(costs);
    let all = groups(costs);
    reveal_with_fuel(Seq::flatten_alt, 2);
    assert(all.drop_last().flatten_alt() =~= Seq::<usize>::empty());
    assert(all.flatten_alt() =~= all[0]);
}

proof fn cost_of_part(blocks: Map<Text, BasicBlockModel>, part: Seq<Text>, labels: Seq<Text>)
    requires
        labels.no_duplicates(),
        forall|x: Text| #[trigger] labels.contains(x) ==> part.contains(x),
    ensures
        cost_over(blocks, labels) <= cost_over(blocks, part),
    decreases part.len(),
{
    if labels.len() > 0 {
        assert(labels.contains(labels[0]));
        let x = part.last();
        if labels.contains(x) {
            let i = choose|i: int| 0 <= i < labels.len() && labels[i] == x;
            let rest = labels.remove(i);
            assert forall|y: Text| #[trigger] rest.contains(y) implies part.drop_last().contains(
                y,
            ) by {
                let k = choose|k: int| 0 <= k < rest.len() && rest[k] == y;
                let j = if k < i {
                    k
                } else {
                    k + 1
                };
                assert(labels[j] == y);
                assert(labels.contains(y) && y != x);
                let n = choose|n: int| 0 <= n < part.len() && part[n] == y;
                assert(part.drop_last()[n] == y);
            }
            cost_of_part(blocks, part.drop_last(), rest);
            crate::chunks::lemma_cost_remove(blocks, labels, i);
        } else {
            assert forall|y: Text| #[trigger] labels.contains(y) implies part.drop_last().contains(
                y,
            ) by {
                let n = choose|n: int| 0 <= n < part.len() && part[n] == y;
                assert(part.drop_last()[n] == y);
            }
            cost_of_part(blocks, part.drop_last(), labels);
        }
    }
}

/// A function with more than 900 instructions that become code, and with two blocks that do not
/// reach each other both ways, becomes several methods, unless it is a constructor.
pub proof fn large_functions_are_cut(
    function: FunctionModel,
    naming: NamingModel,
    r: Seq<FunctionModel>,
    labels: Seq<Text>,
    a: Text,
    b: Text,
)
    requires
        outlines(function, naming, r),
        function.name != "<init>"@,
        enumerates(function.body.basic_blocks, labels),
        labels.len() <= usize::MAX,
        instruction_count(function.body.basic_blocks, labels) > 900,
        labels.contains(a),
        labels.contains(b),
        !label_mutual(function.body, a, b),
    ensures
        r.len() > 1,
{
    let body = function.body;
    let blocks = body.basic_blocks;
    total_cost_counts_the_instructions(blocks, labels);
    let c = choose|c: Seq<Seq<Text>>| #[trigger] is_outline(function, naming, c, r);
    assert(label_covered(c, a) && label_covered(c, b));
    let i = choose|i: int| 0 <= i < c.len() && (#[trigger] c[i]).contains(a);
    let j = choose|j: int| 0 <= j < c.len() && (#[trigger] c[j]).contains(b);
    assert(i != j);
    components_are_few(function, c, labels);
    let costs = component_costs(blocks, c);
    let gs = groups(costs);
    packing_keeps_the_limit(costs);
    packing_keeps_the_order(costs);
    if gs.len() == 0 {
        assert(gs.flatten_alt().len() == 0) by {
            reveal_with_fuel(Seq::flatten_alt, 1);
        }
    } else if gs.len() == 1 {
        one_group_holds_all(costs);
        let group = gs[0];
        assert(keeps_limit(costs, group));
        assert(group.len() == c.len());
        assert forall|k: int| 0 <= k < group.len() implies (#[trigger] group[k]) < c.len() by {
            groups_name_components(costs, 0, k);
        }
        chunk_cost_is_group_cost(blocks, c, group);
        let part = group_labels(c, group);
        assert forall|x: Text| #[trigger] labels.contains(x) implies part.contains(x) by {
            assert(blocks.dom().contains(x));
            assert(label_covered(c, x));
            let n = choose|n: int| 0 <= n < c.len() && (#[trigger] c[n]).contains(x);
            assert(group[n] == n);
            crate::chunks::lemma_group_labels(c, group, x);
        }
        cost_of_part(blocks, part, labels);
        total_cost_is_cost_over(blocks, labels);
    } else {
        let chunks = chunk_labels(c, gs);
        assert(chunks.len() == gs.len());
    }
}

/// A function with at most 900 instructions that become code stays as it is, and so does a
/// constructor.
pub proof fn small_functions_stay_whole(
    function: FunctionModel,
    naming: NamingModel,
    r: Seq<FunctionModel>,
    labels: Seq<Text>,
)
    requires
        outlines(function, naming, r),
        enumerates(function.body.basic_blocks, labels),
        instruction_count(function.body.basic_blocks, labels) <= 900 || function.name == "<init>"@,
    ensures
        r == seq![function],
{
    total_cost_counts_the_instructions(function.body.basic_blocks, labels);
}

/// There are no more components than blocks.
proof fn components_are_few(function: FunctionModel, c: Seq<Seq<Text>>, labels: Seq<Text>)
    requires
        in_topological_order(function.body, c),
        enumerates(function.body.basic_blocks, labels),
    ensures
        c.len() <= labels.len(),
{
    let firsts = c.map_values(|list: Seq<Text>| list[0]);
    assert forall|i: int| 0 <= i < c.len() implies labels.contains(#[trigger] firsts[i]) by {
        assert(c[i].contains(c[i][0]));
    }
    assert(firsts.no_duplicates()) by {
        assert forall|i: int, j: int| 0 <= i < j < firsts.len() implies firsts[i] != firsts[j] by {
            assert(c[i].contains(c[i][0]) && c[j].contains(c[j][0]));
            if firsts[i] == firsts[j] {
                assert(c[i].contains(firsts[i]) && c[j].contains(firsts[i]));
                assert(i == j <==> label_mutual(function.body, firsts[i], firsts[i]));
                let p = seq![firsts[i]];
                assert(crate::components::label_leads(function.body, p, firsts[i], firsts[i]));
                assert(label_mutual(function.body, firsts[i], firsts[i]));
            }
        }
    }
    assert(firsts.to_set().subset_of(labels.to_set())) by {
        assert forall|x: Text| firsts.to_set().contains(x) implies labels.to_set().contains(x) by {
            let i = choose|i: int| 0 <= i < firsts.len() && firsts[i] == x;
            assert(labels.contains(firsts[i]));
        }
    }
    firsts.unique_seq_to_set();
    labels.unique_seq_to_set();
    vstd::set_lib::lemma_len_subset(firsts.to_set(), labels.to_set());
}

} // verus!
